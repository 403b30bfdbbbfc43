use rsdsl_healthping::protocol::{classify_reply, handshake_message, parse_reply, ReplyShape};
use rsdsl_healthping::retry::AttemptOutcome;

#[test]
fn handshake_is_magic_marker() {
    assert_eq!(handshake_message(), vec![0x32u8, 0x7f, 0xfe, 0x4c]);
}

#[test]
fn parse_reply_expecting_status() {
    let shape = parse_reply(&[0x32, 0x7f, 0xfe, 0x4c, 0x00]);
    assert_eq!(shape, ReplyShape::Matched(0x00));
}

#[test]
fn parse_reply_not_expecting_status() {
    let shape = parse_reply(&[0x32, 0x7f, 0xfe, 0x4c, 0x01]);
    assert_eq!(shape, ReplyShape::Matched(0x01));
}

#[test]
fn parse_reply_unrecognized_status_still_matches_marker() {
    let shape = parse_reply(&[0x32, 0x7f, 0xfe, 0x4c, 0x7a]);
    assert_eq!(shape, ReplyShape::Matched(0x7a));
}

#[test]
fn parse_reply_wrong_marker_mismatches() {
    let shape = parse_reply(&[0x32, 0x7f, 0xfe, 0x4d, 0x00]);
    assert_eq!(shape, ReplyShape::Mismatched);
}

#[test]
fn parse_reply_short_input_mismatches() {
    assert_eq!(parse_reply(&[0x32, 0x7f, 0xfe, 0x4c]), ReplyShape::Mismatched);
    assert_eq!(parse_reply(&[]), ReplyShape::Mismatched);
}

#[test]
fn parse_reply_long_input_mismatches() {
    let shape = parse_reply(&[0x32, 0x7f, 0xfe, 0x4c, 0x00, 0x00]);
    assert_eq!(shape, ReplyShape::Mismatched);
}

#[test]
fn classify_expecting_reply_is_success() {
    let outcome = classify_reply(&[0x32, 0x7f, 0xfe, 0x4c, 0x00]);
    assert_eq!(outcome, AttemptOutcome::Success);
}

#[test]
fn classify_not_expecting_reply_is_success_unexpected() {
    let outcome = classify_reply(&[0x32, 0x7f, 0xfe, 0x4c, 0x01]);
    assert_eq!(outcome, AttemptOutcome::SuccessUnexpected);
}

#[test]
fn classify_unrecognized_status_is_invalid() {
    let outcome = classify_reply(&[0x32, 0x7f, 0xfe, 0x4c, 0x02]);
    assert_eq!(outcome, AttemptOutcome::InvalidResponse);
}

#[test]
fn classify_wrong_marker_is_invalid() {
    let outcome = classify_reply(&[0x00, 0x7f, 0xfe, 0x4c, 0x00]);
    assert_eq!(outcome, AttemptOutcome::InvalidResponse);
}

#[test]
fn classify_marker_alone_is_invalid() {
    let outcome = classify_reply(&[0x32, 0x7f, 0xfe, 0x4c]);
    assert_eq!(outcome, AttemptOutcome::InvalidResponse);
}
