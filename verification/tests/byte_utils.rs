use launchcore::bytes::{contains_bytes, lex_le_bytes, trim_ascii, u16_to_decimal};

#[test]
fn finds_a_needle_in_the_middle() {
    let hay = b"output: Already up to date.\n".to_vec();
    let needle = b"Already up to date".to_vec();
    assert!(contains_bytes(&hay, &needle));
}

#[test]
fn missing_needle_is_not_found() {
    let hay = b"Updating 1a2b..3c4d\n".to_vec();
    let needle = b"Already up to date".to_vec();
    assert!(!contains_bytes(&hay, &needle));
}

#[test]
fn empty_needle_is_everywhere() {
    assert!(contains_bytes(&b"abc".to_vec(), &Vec::new()));
    assert!(contains_bytes(&Vec::new(), &Vec::new()));
}

#[test]
fn needle_longer_than_hay_is_not_found() {
    assert!(!contains_bytes(&b"ab".to_vec(), &b"abc".to_vec()));
}

#[test]
fn needle_at_the_very_end_is_found() {
    assert!(contains_bytes(&b"xxAlready up to date".to_vec(), &b"Already up to date".to_vec()));
}

#[test]
fn lexical_order_is_bytewise() {
    assert!(lex_le_bytes(&b"a".to_vec(), &b"b".to_vec()));
    assert!(!lex_le_bytes(&b"b".to_vec(), &b"a".to_vec()));
    assert!(lex_le_bytes(&b"ab".to_vec(), &b"abc".to_vec()));
    assert!(!lex_le_bytes(&b"abc".to_vec(), &b"ab".to_vec()));
    assert!(lex_le_bytes(&b"same".to_vec(), &b"same".to_vec()));
    // The known heuristic: "v10" sorts below "v9".
    assert!(lex_le_bytes(&b"v10".to_vec(), &b"v9".to_vec()));
}

#[test]
fn trim_removes_surrounding_whitespace() {
    assert_eq!(trim_ascii(&b"  1a2b3c4d\n".to_vec()), b"1a2b3c4d".to_vec());
    assert_eq!(trim_ascii(&b"\t\r\n \t".to_vec()), Vec::<u8>::new());
    assert_eq!(trim_ascii(&b"intact".to_vec()), b"intact".to_vec());
    assert_eq!(trim_ascii(&Vec::new()), Vec::<u8>::new());
    assert_eq!(trim_ascii(&b"a b".to_vec()), b"a b".to_vec());
}

#[test]
fn ports_format_as_decimal() {
    assert_eq!(u16_to_decimal(0), b"0".to_vec());
    assert_eq!(u16_to_decimal(3000), b"3000".to_vec());
    assert_eq!(u16_to_decimal(65535), b"65535".to_vec());
    assert_eq!(u16_to_decimal(7), b"7".to_vec());
}
