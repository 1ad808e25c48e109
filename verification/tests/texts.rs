use rustlox::text::append_bytes;
use rustlox::text::append_decimal;
use rustlox::text::bytes_equal;
use rustlox::text::copy_range;
use rustlox::text::ranges_equal;

fn decimal(n: i64) -> String {
    let mut out = Vec::new();
    append_decimal(&mut out, n as i128);
    String::from_utf8(out).unwrap()
}

#[test]
fn decimal_forms() {
    for n in [0i64, 1, 9, 10, 11, 99, 100, 255, 1000, 65535, 2147483647, -1, -10, -2147483648] {
        assert_eq!(decimal(n), n.to_string());
    }
    assert_eq!(decimal(i64::MAX), i64::MAX.to_string());
    assert_eq!(decimal(i64::MIN), i64::MIN.to_string());
    let mut widest = Vec::new();
    append_decimal(&mut widest, i128::MAX);
    assert_eq!(String::from_utf8(widest).unwrap(), i128::MAX.to_string());
    let mut lowest = Vec::new();
    append_decimal(&mut lowest, i128::MIN + 1);
    assert_eq!(String::from_utf8(lowest).unwrap(), (i128::MIN + 1).to_string());
}

#[test]
fn decimal_is_appended() {
    let mut out = b"line ".to_vec();
    append_decimal(&mut out, 42);
    assert_eq!(out, b"line 42".to_vec());
}

#[test]
fn appending() {
    let mut out = b"ab".to_vec();
    append_bytes(&mut out, b"");
    assert_eq!(out, b"ab".to_vec());
    append_bytes(&mut out, b"cd");
    assert_eq!(out, b"abcd".to_vec());
}

#[test]
fn copying() {
    assert_eq!(copy_range(b"hello", 1, 4), b"ell".to_vec());
    assert_eq!(copy_range(b"hello", 5, 5), Vec::<u8>::new());
    assert_eq!(copy_range(b"hello", 0, 5), b"hello".to_vec());
}

#[test]
fn comparing() {
    assert!(bytes_equal(b"", b""));
    assert!(bytes_equal(b"abc", b"abc"));
    assert!(!bytes_equal(b"abc", b"abd"));
    assert!(!bytes_equal(b"abc", b"ab"));
    assert!(ranges_equal(b"abcabc", 0, 3, 3, 3));
    assert!(ranges_equal(b"abcabc", 1, 0, 4, 0));
    assert!(!ranges_equal(b"abcabd", 0, 3, 3, 3));
    assert!(!ranges_equal(b"abcabc", 0, 2, 3, 3));
}
