use nsis_extract::search::{find_hex_string, find_partial_hex_string};
use nsis_extract::signature::ByteMatcher;

fn literals(bytes: &[u8]) -> Vec<ByteMatcher> {
    bytes.iter().map(|b| ByteMatcher::Literal(*b)).collect()
}

#[test]
fn exact_finds_first_of_overlapping_occurrences() {
    let data = [7u8, 1, 1, 1, 1];
    assert_eq!(find_hex_string(&data, &[1, 1]), Some(1));
    assert_eq!(find_hex_string(&[1u8, 2, 1, 2, 1], &[1, 2, 1]), Some(0));
}

#[test]
fn exact_reports_absent_pattern() {
    assert_eq!(find_hex_string(&[1u8, 2, 3, 4], &[3, 5]), None);
    assert_eq!(find_hex_string(&[], &[1u8]), None);
}

#[test]
fn exact_pattern_longer_than_data_is_not_found() {
    assert_eq!(find_hex_string(&[1u8, 2], &[1, 2, 3]), None);
}

#[test]
fn exact_finds_match_ending_at_last_byte() {
    assert_eq!(find_hex_string(&[0u8, 0, 5, 6], &[5, 6]), Some(2));
    assert_eq!(find_hex_string(&[5u8, 6], &[5, 6]), Some(0));
}

#[test]
fn exact_empty_pattern_is_at_zero() {
    assert_eq!(find_hex_string(&[4u8, 5], &[]), Some(0));
}

#[test]
fn wildcard_all_any_matches_at_zero() {
    let pattern = vec![ByteMatcher::Any; 3];
    assert_eq!(find_partial_hex_string(&[9u8, 8, 7, 6], &pattern), Some(0));
    assert_eq!(find_partial_hex_string(&[9u8, 8, 7], &pattern), Some(0));
    assert_eq!(find_partial_hex_string(&[9u8, 8], &pattern), None);
}

#[test]
fn wildcard_all_literal_agrees_with_exact() {
    let buffers: [&[u8]; 4] = [&[1, 2, 1, 2, 3], &[3, 1, 2, 3], &[1, 2], &[2, 2, 2]];
    let needles: [&[u8]; 3] = [&[1, 2, 3], &[2], &[2, 2]];
    for data in buffers.iter() {
        for needle in needles.iter() {
            assert_eq!(
                find_partial_hex_string(data, &literals(needle)),
                find_hex_string(data, needle)
            );
        }
    }
}

#[test]
fn wildcard_skips_position_that_fails_part_way() {
    let pattern = vec![
        ByteMatcher::Literal(0x23),
        ByteMatcher::Any,
        ByteMatcher::Literal(0x05),
    ];
    let data = [0x23u8, 0x00, 0x06, 0x23, 0x23, 0x05, 0x00];
    assert_eq!(find_partial_hex_string(&data, &pattern), Some(3));
}

#[test]
fn wildcard_literal_ff_is_not_a_wildcard() {
    let pattern = vec![ByteMatcher::Literal(0xFF), ByteMatcher::Literal(0x01)];
    assert_eq!(find_partial_hex_string(&[0x00u8, 0x01, 0xFF, 0x01], &pattern), Some(2));
    let any = vec![ByteMatcher::Any, ByteMatcher::Literal(0x01)];
    assert_eq!(find_partial_hex_string(&[0x00u8, 0x01, 0xFF, 0x01], &any), Some(0));
}

#[test]
fn matcher_accepts_its_bytes() {
    assert!(ByteMatcher::Literal(0xFF).matches(0xFF));
    assert!(!ByteMatcher::Literal(0xFF).matches(0x00));
    assert!(ByteMatcher::Any.matches(0x00));
    assert!(ByteMatcher::Any.matches(0xFF));
}
