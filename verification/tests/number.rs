use git_repos::number::{append_decimal, append_signed, parse_i32};

fn c(s: &str) -> Vec<char> {
    s.chars().collect()
}

fn decimal(n: u64) -> String {
    let mut s = String::new();
    append_decimal(&mut s, n);
    s
}

fn signed(v: i32) -> String {
    let mut s = String::new();
    append_signed(&mut s, v);
    s
}

#[test]
fn decimal_text_of_unsigned_numbers() {
    assert_eq!(decimal(0), "0");
    assert_eq!(decimal(7), "7");
    assert_eq!(decimal(10), "10");
    assert_eq!(decimal(1203), "1203");
    assert_eq!(decimal(u64::MAX), "18446744073709551615");
    let mut s = "n=".to_string();
    append_decimal(&mut s, 42);
    assert_eq!(s, "n=42");
}

#[test]
fn decimal_text_of_signed_numbers() {
    assert_eq!(signed(0), "0");
    assert_eq!(signed(15), "15");
    assert_eq!(signed(-15), "-15");
    assert_eq!(signed(i32::MAX), "2147483647");
    assert_eq!(signed(i32::MIN), "-2147483648");
}

#[test]
fn decimal_text_agrees_with_std() {
    for n in [0u64, 1, 9, 10, 11, 99, 100, 101, 999, 1000, 65535, 4294967296] {
        assert_eq!(decimal(n), n.to_string());
    }
    for v in [-1000, -101, -100, -99, -10, -9, -1, 0, 1, 9, 10, 99, 100] {
        assert_eq!(signed(v), v.to_string());
    }
}

#[test]
fn parse_reads_signed_decimal_numbers() {
    assert_eq!(parse_i32(&c("0")), Some(0));
    assert_eq!(parse_i32(&c("12")), Some(12));
    assert_eq!(parse_i32(&c("+12")), Some(12));
    assert_eq!(parse_i32(&c("-12")), Some(-12));
    assert_eq!(parse_i32(&c("007")), Some(7));
    assert_eq!(parse_i32(&c("-0")), Some(0));
    assert_eq!(parse_i32(&c("2147483647")), Some(i32::MAX));
    assert_eq!(parse_i32(&c("-2147483648")), Some(i32::MIN));
    assert_eq!(parse_i32(&c("0000000000000000000000001")), Some(1));
}

#[test]
fn parse_refuses_everything_else() {
    for s in [
        "", "+", "-", "a", "1a", "a1", " 1", "1 ", "1.0", "--1", "+-1", "1-", "2147483648",
        "-2147483649", "99999999999999999999", "-99999999999999999999", "\u{661}", "1_000",
        "0x10",
    ] {
        assert_eq!(parse_i32(&c(s)), None, "{:?}", s);
    }
}

#[test]
fn parse_agrees_with_std() {
    for s in [
        "0", "-0", "+0", "12", "-12", "+12", "", "x", "2147483647", "2147483648", "-2147483648",
        "-2147483649", "00", "+", "-", "1e3", "\u{663}",
    ] {
        assert_eq!(parse_i32(&c(s)), s.parse::<i32>().ok(), "{:?}", s);
    }
}
