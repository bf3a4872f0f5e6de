use launchcore::ports::{allocate_from, PortScan, SCAN_WIDTH};

#[test]
fn all_occupied_falls_back_to_preferred() {
    let free = vec![false; SCAN_WIDTH as usize];
    assert_eq!(allocate_from(3000, &free), 3000);
}

#[test]
fn preferred_free_wins() {
    let mut free = vec![false; SCAN_WIDTH as usize];
    free[0] = true;
    assert_eq!(allocate_from(3000, &free), 3000);
}

#[test]
fn first_free_offset_wins() {
    let mut free = vec![false; SCAN_WIDTH as usize];
    free[7] = true;
    free[9] = true;
    assert_eq!(allocate_from(3000, &free), 3007);
}

#[test]
fn last_offset_free_wins() {
    let mut free = vec![false; SCAN_WIDTH as usize];
    free[99] = true;
    assert_eq!(allocate_from(3000, &free), 3099);
}

#[test]
fn top_of_port_range() {
    let free = vec![false; SCAN_WIDTH as usize];
    assert_eq!(allocate_from(65436, &free), 65436);
    let mut free = vec![false; SCAN_WIDTH as usize];
    free[99] = true;
    assert_eq!(allocate_from(65436, &free), 65535);
}

#[test]
fn scan_walks_candidates_in_order() {
    let mut scan = PortScan::new(3000);
    assert_eq!(scan.next_candidate(), Some(3000));
    scan.record_occupied();
    assert_eq!(scan.next_candidate(), Some(3001));
    scan.record_occupied();
    assert_eq!(scan.next_candidate(), Some(3002));
}

#[test]
fn exhausted_scan_falls_back() {
    let mut scan = PortScan::new(4000);
    for _ in 0..SCAN_WIDTH {
        assert!(scan.next_candidate().is_some());
        scan.record_occupied();
    }
    assert_eq!(scan.next_candidate(), None);
    assert_eq!(scan.fallback(), 4000);
}
