use selector::fade::Fader;
use selector::ingress::{bytes_equal, lookup_source, parse_index, resolve_command};

fn names() -> Vec<Vec<u8>> {
    vec![b"alpha".to_vec(), b"beta".to_vec()]
}

#[test]
fn bytes_equal_compares_contents() {
    assert!(bytes_equal(&b"abc".to_vec(), &b"abc".to_vec()));
    assert!(!bytes_equal(&b"abc".to_vec(), &b"abd".to_vec()));
    assert!(!bytes_equal(&b"abc".to_vec(), &b"ab".to_vec()));
    assert!(bytes_equal(&Vec::new(), &Vec::new()));
}

#[test]
fn lookup_finds_named_source() {
    assert_eq!(lookup_source(&names(), &b"alpha".to_vec()), Some(0));
    assert_eq!(lookup_source(&names(), &b"beta".to_vec()), Some(1));
}

#[test]
fn lookup_unknown_name_is_rejected() {
    assert_eq!(lookup_source(&names(), &b"gamma".to_vec()), None);
}

#[test]
fn lookup_returns_first_match_of_duplicate_names() {
    let dup = vec![b"x".to_vec(), b"x".to_vec()];
    assert_eq!(lookup_source(&dup, &b"x".to_vec()), Some(0));
}

#[test]
fn parse_accepts_index_below_count() {
    assert_eq!(parse_index(&b"0".to_vec(), 2), Some(0));
    assert_eq!(parse_index(&b"1".to_vec(), 2), Some(1));
    assert_eq!(parse_index(&b"01".to_vec(), 2), Some(1));
}

#[test]
fn parse_rejects_index_at_or_beyond_count() {
    assert_eq!(parse_index(&b"2".to_vec(), 2), None);
    assert_eq!(parse_index(&b"10".to_vec(), 2), None);
}

#[test]
fn parse_rejects_non_numeric_and_empty_lines() {
    assert_eq!(parse_index(&b"12a".to_vec(), 100), None);
    assert_eq!(parse_index(&b"-1".to_vec(), 100), None);
    assert_eq!(parse_index(&b"".to_vec(), 100), None);
    assert_eq!(parse_index(&b" 1".to_vec(), 100), None);
}

#[test]
fn parse_rejects_values_beyond_machine_range() {
    assert_eq!(parse_index(&b"99999999999999999999999999".to_vec(), 5), None);
}

#[test]
fn parse_with_no_sources_rejects_everything() {
    assert_eq!(parse_index(&b"0".to_vec(), 0), None);
}

#[test]
fn resolve_name_takes_priority_over_digits() {
    let numeric_names = vec![b"1".to_vec(), b"x".to_vec()];
    assert_eq!(resolve_command(&numeric_names, &b"1".to_vec()), Some(0));
}

#[test]
fn resolve_maps_names_and_bare_indices() {
    assert_eq!(resolve_command(&names(), &b"beta".to_vec()), Some(1));
    assert_eq!(resolve_command(&names(), &b"1".to_vec()), Some(1));
}

#[test]
fn resolve_rejects_invalid_source() {
    assert_eq!(resolve_command(&names(), &b"gamma".to_vec()), None);
    assert_eq!(resolve_command(&names(), &b"2".to_vec()), None);
    assert_eq!(resolve_command(&names(), &b"".to_vec()), None);
}

#[test]
fn rejected_request_leaves_fader_unchanged() {
    let mut f = Fader::new(2, 4);
    f.request_switch(1);
    f.advance();
    let before = f;
    let resolved = resolve_command(&names(), &b"out_of_range_name".to_vec());
    assert_eq!(resolved, None);
    // Nothing resolved, so nothing is enqueued and the audio thread drains an
    // empty batch: state and output are untouched.
    f.apply_commands(&Vec::new());
    assert_eq!(f, before);
}
