use zero_bin::text::{contains, decimal, hexadecimal, parse_usize};

#[test]
fn numbers_in_decimal() {
    assert_eq!(decimal(0), "0");
    assert_eq!(decimal(10), "10");
    assert_eq!(decimal(907), "907");
    assert_eq!(decimal(u64::MAX), "18446744073709551615");
}

#[test]
fn numbers_in_hexadecimal() {
    assert_eq!(hexadecimal(0), "0");
    assert_eq!(hexadecimal(15), "f");
    assert_eq!(hexadecimal(16), "10");
    assert_eq!(hexadecimal(0xab_cdef), "abcdef");
    assert_eq!(hexadecimal(u64::MAX), format!("{:x}", u64::MAX));
}

#[test]
fn digits_read_back() {
    let numbers: [u64; 5] = [0, 9, 10, 123456789, u64::MAX];
    for n in numbers {
        assert_eq!(decimal(n).parse::<u64>(), Ok(n));
        assert_eq!(u64::from_str_radix(&hexadecimal(n), 16), Ok(n));
    }
}

#[test]
fn text_within_text() {
    let cases = [
        ("", ""), ("a", ""), ("", "a"), ("abc", "abc"), ("abc", "bc"), ("abc", "ac"), ("aab", "ab"),
        ("the AMQP one", "AMQP"), ("amqp", "AMQP"), ("h\u{e9}llo", "\u{e9}l"), ("abab", "abb"),
    ];
    for (text, pattern) in cases {
        assert_eq!(contains(text, pattern), text.contains(pattern));
    }
}

#[test]
fn unsigned_numbers_are_read() {
    let cases = [
        "0", "8", "+8", "007", "18446744073709551615", "18446744073709551616", "", "+", "++1", "-1", " 1", "1 ",
        "1_0", "0x10", "abc", "99999999999999999999999999", "\u{663}", "+0",
    ];
    for case in cases {
        assert_eq!(parse_usize(case), case.parse::<usize>().ok());
    }
}
