use fist::osc52::sequence;

#[test]
fn plain_sequence_base64_encodes_payload() {
    assert_eq!(sequence("hello", false), "\x1b]52;c;aGVsbG8=\x07");
}

#[test]
fn empty_payload_sequence() {
    assert_eq!(sequence("", false), "\x1b]52;c;\x07");
}

#[test]
fn tmux_sequence_wraps_passthrough() {
    assert_eq!(sequence("hi", true), "\x1bPtmux;\x1b\x1b]52;c;aGk=\x07\x1b\\");
}

#[test]
fn payload_is_encoded_not_copied() {
    let s = sequence("abc", false);
    assert_eq!(s, "\x1b]52;c;YWJj\x07");
    assert!(!s.contains("abc"));
}
