use zbox_bridge::cstr::{strchr, strlen, strncmp};

fn memory_with(bytes: &[u8]) -> Vec<u8> {
    bytes.to_vec()
}

#[test]
fn strlen_counts_up_to_the_terminator() {
    let mem = memory_with(b"hello\0world\0");
    assert_eq!(strlen(&mem, 0), 5);
    assert_eq!(strlen(&mem, 6), 5);
    assert_eq!(strlen(&mem, 5), 0);
    assert_eq!(strlen(&mem, 2), 3);
}

#[test]
fn strchr_finds_the_first_occurrence() {
    let mem = memory_with(b"abcabc\0");
    assert_eq!(strchr(&mem, 0, b'b' as u32), 1);
    assert_eq!(strchr(&mem, 2, b'b' as u32), 4);
    assert_eq!(strchr(&mem, 0, b'z' as u32), 0);
    // the terminator itself is never matched
    assert_eq!(strchr(&mem, 0, 0), 0);
}

#[test]
fn strchr_stops_at_the_terminator() {
    let mem = memory_with(b"one\0two\0");
    // 't' only occurs after the first terminator
    assert_eq!(strchr(&mem, 0, b't' as u32), 0);
    assert_eq!(strchr(&mem, 4, b't' as u32), 4);
}

#[test]
fn strncmp_returns_the_signed_byte_difference() {
    let mem = memory_with(b"abc\0abd\0");
    // equal prefixes compare equal
    assert_eq!(strncmp(&mem, 0, 4, 2), 0);
    // first mismatch decides: 'c' - 'd'
    assert_eq!(strncmp(&mem, 0, 4, 3), -1);
    assert_eq!(strncmp(&mem, 4, 0, 3), 1);
}

#[test]
fn strncmp_stops_at_a_terminator() {
    let mem = memory_with(b"ab\0x\0aby\0");
    // the terminator ends the comparison even with more bytes requested:
    // both strings agree on "ab" and both reach byte 2, '\0' vs 'y'
    assert_eq!(strncmp(&mem, 0, 5, 4), 0 - (b'y' as i32));
}

#[test]
fn strncmp_of_zero_bytes_is_equal() {
    let mem = memory_with(b"xy\0");
    assert_eq!(strncmp(&mem, 0, 1, 0), 0);
}
