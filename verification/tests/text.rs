use potato_ws::bytes::{bytes_eq, find_byte, find_sub, split_on_byte, starts_with, trim};
use potato_ws::numtext::{parse_digits_u64, parse_i32, parse_usize, u64_to_dec};

#[test]
fn dec_renders_zero() {
    assert_eq!(u64_to_dec(0), "0");
}

#[test]
fn dec_renders_single_digit() {
    assert_eq!(u64_to_dec(7), "7");
}

#[test]
fn dec_renders_large_value() {
    assert_eq!(u64_to_dec(4294967295), "4294967295");
    assert_eq!(u64_to_dec(18446744073709551615), "18446744073709551615");
}

#[test]
fn parse_digits_reads_plain_runs() {
    assert_eq!(parse_digits_u64(b"123"), Some(123));
    assert_eq!(parse_digits_u64(b"0007"), Some(7));
    assert_eq!(parse_digits_u64(b""), None);
    assert_eq!(parse_digits_u64(b"12a"), None);
}

#[test]
fn parse_digits_checks_overflow() {
    assert_eq!(parse_digits_u64(b"18446744073709551615"), Some(u64::MAX));
    assert_eq!(parse_digits_u64(b"18446744073709551616"), None);
}

#[test]
fn parse_usize_mirrors_std() {
    assert_eq!(parse_usize(b"42"), "42".parse::<usize>().ok());
    assert_eq!(parse_usize(b"+42"), "+42".parse::<usize>().ok());
    assert_eq!(parse_usize(b"-1"), "-1".parse::<usize>().ok());
    assert_eq!(parse_usize(b""), "".parse::<usize>().ok());
    assert_eq!(parse_usize(b"+"), "+".parse::<usize>().ok());
    assert_eq!(parse_usize(b"1 "), "1 ".parse::<usize>().ok());
}

#[test]
fn parse_i32_mirrors_std() {
    assert_eq!(parse_i32(b"-2147483648"), Some(i32::MIN));
    assert_eq!(parse_i32(b"2147483647"), Some(i32::MAX));
    assert_eq!(parse_i32(b"-2147483649"), None);
    assert_eq!(parse_i32(b"2147483648"), None);
    assert_eq!(parse_i32(b"+5"), Some(5));
    assert_eq!(parse_i32(b"--5"), None);
    assert_eq!(parse_i32(b" 5"), None);
}

#[test]
fn bytes_eq_compares_contents() {
    assert!(bytes_eq(b"abc", b"abc"));
    assert!(!bytes_eq(b"abc", b"abd"));
    assert!(!bytes_eq(b"abc", b"ab"));
}

#[test]
fn starts_with_checks_prefix() {
    assert!(starts_with(b"GET /hello", b"GET "));
    assert!(!starts_with(b"GET", b"GET /"));
    assert!(starts_with(b"x", b""));
}

#[test]
fn find_byte_returns_first_hit() {
    assert_eq!(find_byte(b"a:b:c", b':'), Some(1));
    assert_eq!(find_byte(b"abc", b':'), None);
}

#[test]
fn find_sub_returns_leftmost_match() {
    assert_eq!(find_sub(b"head\r\nbody", b"\r\n"), Some(4));
    assert_eq!(find_sub(b"aaab", b"ab"), Some(2));
    assert_eq!(find_sub(b"abc", b"zz"), None);
}

#[test]
fn trim_strips_ascii_whitespace() {
    assert_eq!(trim(b"  GET \t"), b"GET");
    assert_eq!(trim(b"x"), b"x");
    assert_eq!(trim(b" \r\n "), b"");
}

#[test]
fn split_keeps_empty_pieces() {
    let pieces = split_on_byte(b"1,,2", b',');
    assert_eq!(pieces, vec![b"1".to_vec(), b"".to_vec(), b"2".to_vec()]);
    let one = split_on_byte(b"", b',');
    assert_eq!(one, vec![b"".to_vec()]);
}
