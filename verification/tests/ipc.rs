use sable::ipc::{accepted_len, frame_message, len_prefix, prefix_len, MAX_OVERLAY_MESSAGE, MAX_SERVICE_MESSAGE};

#[test]
fn length_prefix_is_little_endian() {
    assert_eq!(len_prefix(0x0102_0304), [4, 3, 2, 1]);
    assert_eq!(prefix_len([4, 3, 2, 1]), 0x0102_0304);
    assert_eq!(prefix_len(len_prefix(1_048_576)), 1_048_576);
}

#[test]
fn framed_message_reads_back() {
    let payload = vec![7u8, 8, 9];
    let m = frame_message(&payload);
    assert_eq!(m, vec![3, 0, 0, 0, 7, 8, 9]);
    let prefix = [m[0], m[1], m[2], m[3]];
    assert_eq!(accepted_len(prefix, MAX_SERVICE_MESSAGE), Some(3));
    assert_eq!(&m[4..], &payload[..]);
}

#[test]
fn empty_and_oversized_messages_are_refused() {
    assert_eq!(accepted_len([0, 0, 0, 0], MAX_SERVICE_MESSAGE), None);
    assert_eq!(accepted_len(len_prefix(1_048_577), MAX_SERVICE_MESSAGE), None);
    assert_eq!(accepted_len(len_prefix(1_048_576), MAX_SERVICE_MESSAGE), Some(1_048_576));
    assert_eq!(accepted_len(len_prefix(65_537), MAX_OVERLAY_MESSAGE), None);
    assert_eq!(accepted_len(len_prefix(65_536), MAX_OVERLAY_MESSAGE), Some(65_536));
}
