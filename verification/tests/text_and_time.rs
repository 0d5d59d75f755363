use async_acme::ip::IpAddr;
use async_acme::text::parse_decimal;
use async_acme::time::Duration;

#[test]
fn decimal_numbers_are_read() {
    assert_eq!(parse_decimal("0"), Some(0));
    assert_eq!(parse_decimal("12"), Some(12));
    assert_eq!(parse_decimal("+12"), Some(12));
    assert_eq!(parse_decimal("00000000000000000000000000007"), Some(7));
    assert_eq!(parse_decimal("18446744073709551615"), Some(u64::MAX));
}

#[test]
fn what_is_no_decimal_number_is_not_read() {
    for text in [
        "",
        "+",
        "-",
        "-0",
        "++1",
        "1 ",
        " 1",
        "1_000",
        "0x10",
        "18446744073709551616",
        "99999999999999999999999",
        "1\u{660}",
        "\u{661}",
    ] {
        assert_eq!(parse_decimal(text), None, "{text:?}");
    }
}

#[test]
fn reading_agrees_with_the_standard_library() {
    for text in ["0", "+0", "7", "007", "-7", "1e3", "18446744073709551615", "18446744073709551616"] {
        assert_eq!(parse_decimal(text), text.parse::<u64>().ok(), "{text:?}");
    }
}

#[test]
fn durations_are_normal() {
    assert_eq!(Duration::new(1, 2_500_000_000), Duration::new(3, 500_000_000));
    assert_eq!(Duration::new(3, 5).as_secs(), 3);
    assert_eq!(Duration::new(3, 5).subsec_nanos(), 5);
    assert!(Duration::zero().is_zero());
    assert!(!Duration::new(0, 1).is_zero());
}

#[test]
fn durations_are_halved() {
    assert_eq!(Duration::from_secs(7).half(), Duration::new(3, 500_000_000));
    assert_eq!(Duration::new(1, 1).half(), Duration::new(0, 500_000_000));
    assert_eq!(Duration::new(0, 1).half(), Duration::zero());
}

#[test]
fn durations_are_added_and_subtracted() {
    let a = Duration::new(2, 600_000_000);
    let b = Duration::new(1, 700_000_000);
    assert_eq!(a.saturating_add(b), Duration::new(4, 300_000_000));
    assert_eq!(a.saturating_sub(b), Duration::new(0, 900_000_000));
    assert_eq!(b.saturating_sub(a), Duration::zero());
    let longest = Duration::new(u64::MAX, 999_999_999);
    assert_eq!(longest.saturating_add(b), longest);
    assert_eq!(a.max(b), a);
    assert_eq!(b.max(a), a);
}

#[test]
fn addresses_of_version_4_are_written() {
    assert_eq!(IpAddr::V4([192, 0, 2, 1]).to_string(), "192.0.2.1");
    assert_eq!(IpAddr::V4([0, 10, 100, 255]).to_string(), "0.10.100.255");
}

#[test]
fn addresses_of_version_6_are_written() {
    let cases: [([u16; 8], &str); 10] = [
        ([0, 0, 0, 0, 0, 0, 0, 0], "::"),
        ([0, 0, 0, 0, 0, 0, 0, 1], "::1"),
        ([1, 0, 0, 0, 0, 0, 0, 0], "1::"),
        ([0x2001, 0xdb8, 0, 0, 0, 0, 0, 1], "2001:db8::1"),
        ([0x2001, 0xdb8, 0, 1, 1, 1, 1, 1], "2001:db8:0:1:1:1:1:1"),
        ([0x2001, 0, 0, 1, 0, 0, 0, 1], "2001:0:0:1::1"),
        ([0x2001, 0xdb8, 0, 0, 1, 0, 0, 1], "2001:db8::1:0:0:1"),
        ([1, 2, 3, 4, 5, 6, 7, 0xabcd], "1:2:3:4:5:6:7:abcd"),
        ([0, 0, 0, 0, 0, 0xffff, 0xc000, 0x0280], "::ffff:192.0.2.128"),
        ([0, 0, 0, 0, 0, 0, 0xc000, 0x0280], "::c000:280"),
    ];
    for (groups, text) in cases {
        assert_eq!(IpAddr::V6(groups).to_string(), text);
    }
}

#[test]
fn addresses_are_in_order() {
    assert!(IpAddr::V4([9, 0, 0, 0]) < IpAddr::V4([10, 0, 0, 0]));
    assert!(IpAddr::V4([255, 255, 255, 255]) < IpAddr::V6([0; 8]));
    assert!(IpAddr::V6([0, 0, 0, 0, 0, 0, 0, 2]) < IpAddr::V6([0, 0, 0, 0, 0, 0, 1, 0]));
}
