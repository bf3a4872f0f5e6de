use launchcore::path_resolver::{choose_candidate, join_paths, resolve_search_path, sort_paths_desc};

#[test]
fn versions_sort_descending_lexically() {
    let dirs = vec![
        b"v10.1.0".to_vec(),
        b"v9.2.0".to_vec(),
        b"v12.0.0".to_vec(),
    ];
    let sorted = sort_paths_desc(dirs);
    // Lexical, not numeric: a name starting with "9" outranks "12" and "10".
    assert_eq!(
        sorted,
        vec![b"v9.2.0".to_vec(), b"v12.0.0".to_vec(), b"v10.1.0".to_vec()]
    );
}

#[test]
fn sorting_keeps_duplicates() {
    let dirs = vec![b"b".to_vec(), b"a".to_vec(), b"b".to_vec()];
    let sorted = sort_paths_desc(dirs);
    assert_eq!(sorted, vec![b"b".to_vec(), b"b".to_vec(), b"a".to_vec()]);
}

#[test]
fn join_separates_parts_with_one_byte() {
    let parts = vec![b"a".to_vec(), b"bc".to_vec(), b"d".to_vec()];
    assert_eq!(join_paths(&parts, b':'), b"a:bc:d".to_vec());
}

#[test]
fn join_of_nothing_is_empty() {
    let parts: Vec<Vec<u8>> = Vec::new();
    assert_eq!(join_paths(&parts, b':'), Vec::<u8>::new());
}

#[test]
fn resolve_orders_versions_then_extras_then_base() {
    let versions = vec![
        b"/home/u/.nvm/versions/node/v18.2.0/bin".to_vec(),
        b"/home/u/.nvm/versions/node/v20.1.0/bin".to_vec(),
    ];
    let extras = vec![b"/usr/local/bin".to_vec()];
    let base = b"/usr/bin:/bin".to_vec();
    let resolved = resolve_search_path(versions, extras, base, b':');
    assert_eq!(
        resolved,
        b"/home/u/.nvm/versions/node/v20.1.0/bin:/home/u/.nvm/versions/node/v18.2.0/bin:/usr/local/bin:/usr/bin:/bin"
            .to_vec()
    );
}

#[test]
fn empty_base_contributes_nothing() {
    let versions = Vec::new();
    let extras = vec![b"/opt/homebrew/bin".to_vec()];
    let resolved = resolve_search_path(versions, extras, Vec::new(), b':');
    assert_eq!(resolved, b"/opt/homebrew/bin".to_vec());
}

#[test]
fn first_plausible_candidate_wins() {
    assert_eq!(choose_candidate(&vec![false, true, true, false]), 1);
    assert_eq!(choose_candidate(&vec![true, false]), 0);
}

#[test]
fn no_plausible_candidate_falls_back_to_the_first() {
    assert_eq!(choose_candidate(&vec![false, false, false]), 0);
}

#[test]
fn everything_absent_resolves_to_empty() {
    let resolved = resolve_search_path(Vec::new(), Vec::new(), Vec::new(), b':');
    assert_eq!(resolved, Vec::<u8>::new());
}
