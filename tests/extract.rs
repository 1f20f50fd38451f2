use nsis_extract::extract::{
    extract_nsis_payload, extract_range, locate_range, ByteRange, ExtractError, Which,
};
use nsis_extract::signature::{end_signature, start_signature, ByteMatcher};

fn end_sig() -> Vec<ByteMatcher> {
    vec![
        ByteMatcher::Literal(0xE1),
        ByteMatcher::Literal(0xE2),
        ByteMatcher::Any,
        ByteMatcher::Any,
    ]
}

const START: [u8; 3] = [0x5A, 0x5B, 0x5C];

#[test]
fn carves_start_through_end_of_end_match() {
    let mut data = vec![0x00u8, 0x11, 0x22];
    data.extend_from_slice(&START);
    data.extend_from_slice(&[0x30, 0x31]);
    data.extend_from_slice(&[0xE1, 0xE2, 0x99, 0xFF]);
    data.extend_from_slice(&[0x40, 0x41]);
    let expected = vec![0x5Au8, 0x5B, 0x5C, 0x30, 0x31, 0xE1, 0xE2, 0x99, 0xFF];
    assert_eq!(extract_range(&data, &START, &end_sig()), Ok(expected));
    assert_eq!(
        locate_range(&data, &START, &end_sig()),
        Ok(ByteRange { start: 3, end: 12 })
    );
}

#[test]
fn end_match_before_start_is_invalid_range() {
    let data = [0xE1u8, 0xE2, 0x00, 0x00, 0x07, 0x5A, 0x5B, 0x5C, 0x01];
    assert_eq!(
        extract_range(&data, &START, &end_sig()),
        Err(ExtractError::InvalidRange)
    );
}

#[test]
fn end_match_ending_at_start_is_invalid_range() {
    let data = [0xE1u8, 0xE2, 0x00, 0x00, 0x5A, 0x5B, 0x5C];
    assert_eq!(
        locate_range(&data, &START, &end_sig()),
        Err(ExtractError::InvalidRange)
    );
}

#[test]
fn end_match_overlapping_start_is_carved() {
    let data = [0x09u8, 0xE1, 0xE2, 0x5A, 0x5B, 0x5C];
    assert_eq!(
        extract_range(&data, &START, &end_sig()),
        Ok(vec![0x5Au8, 0x5B])
    );
}

#[test]
fn missing_start_is_reported() {
    let data = [0x01u8, 0xE1, 0xE2, 0x03, 0x04, 0x05];
    assert_eq!(
        extract_range(&data, &START, &end_sig()),
        Err(ExtractError::SignatureNotFound(Which::Start))
    );
}

#[test]
fn missing_end_is_reported() {
    let data = [0x5Au8, 0x5B, 0x5C, 0xE1, 0xE2, 0x03];
    assert_eq!(
        extract_range(&data, &START, &end_sig()),
        Err(ExtractError::SignatureNotFound(Which::End))
    );
}

#[test]
fn missing_both_reports_start() {
    assert_eq!(
        extract_range(&[0u8; 8], &START, &end_sig()),
        Err(ExtractError::SignatureNotFound(Which::Start))
    );
}

#[test]
fn carved_span_round_trips() {
    let data = [
        0x10u8, 0x5A, 0x5B, 0x5C, 0x5A, 0x5B, 0x5C, 0xE1, 0xE2, 0x00, 0x00, 0xE1, 0xE2, 0x01,
        0x02, 0x20, 0x21,
    ];
    let range = locate_range(&data, &START, &end_sig()).unwrap();
    assert_eq!(range, ByteRange { start: 1, end: 11 });
    let carved = extract_range(&data, &START, &end_sig()).unwrap();
    let mut rebuilt = data[..range.start].to_vec();
    rebuilt.extend_from_slice(&carved);
    rebuilt.extend_from_slice(&data[range.end..]);
    assert_eq!(rebuilt, data.to_vec());
}

#[test]
fn installer_signatures_are_fixed() {
    assert_eq!(start_signature(), vec![0x37u8, 0x7A, 0xBC, 0xAF, 0x27, 0x1C]);
    let end = end_signature();
    assert_eq!(end.len(), 21);
    let literals = [0x23u8, 0x03, 0x01, 0x01, 0x05, 0x5D];
    for (j, b) in literals.iter().enumerate() {
        assert_eq!(end[j], ByteMatcher::Literal(*b));
    }
    assert!(end[6..].iter().all(|m| *m == ByteMatcher::Any));
}

#[test]
fn installer_payload_is_carved() {
    let mut data = vec![0x4Du8, 0x5A, 0x90, 0x00];
    let magic = [0x37u8, 0x7A, 0xBC, 0xAF, 0x27, 0x1C];
    data.extend_from_slice(&magic);
    data.extend_from_slice(&[0xAA; 10]);
    data.extend_from_slice(&[0x23, 0x03, 0x01, 0x01, 0x05, 0x5D]);
    data.extend_from_slice(&[0xFF; 15]);
    data.extend_from_slice(&[0x00, 0x01, 0x02]);
    let payload = extract_nsis_payload(&data).unwrap();
    assert_eq!(payload.len(), 6 + 10 + 21);
    assert_eq!(&payload[..], &data[4..41]);
    assert_eq!(extract_nsis_payload(&data[5..]), Err(ExtractError::SignatureNotFound(Which::Start)));
}

#[test]
fn errors_name_their_cause() {
    assert_eq!(
        ExtractError::SignatureNotFound(Which::Start).message(),
        "start signature not found"
    );
    assert_eq!(
        ExtractError::SignatureNotFound(Which::End).message(),
        "end signature not found"
    );
    assert_eq!(
        ExtractError::InvalidRange.message(),
        "end signature ends before the start signature"
    );
}
