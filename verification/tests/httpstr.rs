use spur::asynchttp::httpstr::{copy, eq};

#[test]
fn copy_truncates_to_destination() {
    let src = [1u8, 2, 3, 4, 5];
    let mut dst = [0u8; 3];
    let n = copy(&src, &mut dst);
    assert_eq!(n, 3);
    assert_eq!(dst, [1, 2, 3]);
}

#[test]
fn eq_stops_at_zero() {
    assert!(eq(b"abc\0xyz", b"abc\0qqq"));
    assert!(!eq(b"abd", b"abc"));
    assert!(!eq(b"ab", b"abc"));
    assert!(eq(b"abc", b"abc\0\0"));
    assert!(eq(b"", b"\0x"));
}
