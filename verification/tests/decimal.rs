use wx_counter::api::decimal::{decimal, parse_i32};

#[test]
fn decimal_writes_as_the_standard_library_does() {
    for n in [0, 1, 9, 10, 11, 99, 100, 12345, -1, -10, -999, i32::MAX, i32::MIN, i32::MIN + 1] {
        assert_eq!(decimal(n), n.to_string());
    }
    assert_eq!(decimal(i32::MIN), "-2147483648");
    assert_eq!(decimal(i32::MAX), "2147483647");
    assert_eq!(decimal(-7), "-7");
    assert_eq!(decimal(1050), "1050");
}

#[test]
fn parse_reads_as_the_standard_library_does() {
    let texts = [
        "0", "7", "42", "-42", "+42", "007", "-0", "+0", "2147483647", "-2147483648",
        "2147483648", "-2147483649", "99999999999999999999", "-99999999999999999999", "", "+",
        "-", "--1", "+-1", "1-", " 1", "1 ", "1_000", "1.0", "0x1f", "١٢٣", "1é", "é1", "-é",
        "00000000000000000000001", "-00000000000002147483648", "4294967296",
    ];
    for text in texts {
        assert_eq!(parse_i32(text), text.parse::<i32>().ok(), "{:?}", text);
    }
}

#[test]
fn parse_exact_values() {
    assert_eq!(parse_i32("5"), Some(5));
    assert_eq!(parse_i32("-2147483648"), Some(i32::MIN));
    assert_eq!(parse_i32("2147483647"), Some(i32::MAX));
    assert_eq!(parse_i32("2147483648"), None);
    assert_eq!(parse_i32(""), None);
    assert_eq!(parse_i32("-"), None);
    assert_eq!(parse_i32("+15"), Some(15));
}

#[test]
fn what_is_written_is_read_back() {
    let mut n: i32 = i32::MIN;
    loop {
        assert_eq!(parse_i32(&decimal(n)), Some(n));
        match n.checked_add(7_654_321) {
            Some(next) => n = next,
            None => break,
        }
    }
    for n in -1000..1000 {
        assert_eq!(parse_i32(&decimal(n)), Some(n));
    }
}
