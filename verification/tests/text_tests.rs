use rind::addr::Ipv4Addr;
use rind::clock::Timestamp;
use rind::text::{
    char_is_space, chars_of, digit_of, parse_number, parse_u32, parse_usize, split_text, text_before,
    text_contains, text_eq, trim_text, u32_text,
};

#[test]
fn decimal_numbers_read_as_the_standard_library_reads_them() {
    let cases = [
        "0", "7", "007", "+7", "+0", "4294967295", "4294967296", "99999999999999999999", "", "+",
        "-", "-0", "-1", "1 ", " 1", "1_000", "0x10", "１２", "1+", "++1", "12a", "٣",
    ];
    for text in cases {
        assert_eq!(parse_u32(text), text.parse::<u32>().ok(), "{:?}", text);
        assert_eq!(parse_usize(text), text.parse::<usize>().ok(), "{:?}", text);
    }
    assert_eq!(parse_u32("4294967295"), Some(u32::MAX));
    assert_eq!(parse_number("255", 255), Some(255));
    assert_eq!(parse_number("256", 255), None);
    assert_eq!(parse_number("18446744073709551615", u64::MAX), Some(u64::MAX));
    assert_eq!(parse_number("18446744073709551616", u64::MAX), None);
}

#[test]
fn decimal_numbers_are_written_without_leading_zeros() {
    for n in [0u32, 1, 9, 10, 99, 100, 300, 604800, 4294967295] {
        assert_eq!(u32_text(n), n.to_string());
        assert_eq!(parse_u32(&u32_text(n)), Some(n));
    }
}

#[test]
fn digits_have_their_values() {
    assert_eq!(digit_of('0'), Some(0));
    assert_eq!(digit_of('9'), Some(9));
    assert_eq!(digit_of('a'), None);
    assert_eq!(digit_of('/'), None);
    assert_eq!(digit_of(':'), None);
    assert_eq!(digit_of('٣'), None);
}

#[test]
fn addresses_read_in_dotted_decimal() {
    let good = [
        ("1.2.3.4", (1u8, 2u8, 3u8, 4u8)),
        ("0.0.0.0", (0, 0, 0, 0)),
        ("255.255.255.255", (255, 255, 255, 255)),
        ("1.2.3.0", (1, 2, 3, 0)),
        ("93.184.216.34", (93, 184, 216, 34)),
        ("192.168.1.1", (192, 168, 1, 1)),
        ("10.0.0.1", (10, 0, 0, 1)),
    ];
    for (text, (a, b, c, d)) in good {
        assert_eq!(Ipv4Addr::parse(text), Some(Ipv4Addr::new(a, b, c, d)), "{:?}", text);
    }
    let bad = [
        "256.1.1.1", "1.2.3", "1.2.3.4.5", "01.2.3.4", "1.2.3.04", "1.2.3.00", "1..3.4", ".1.2.3",
        "1.2.3.", "", "1.2.3.4 ", " 1.2.3.4", "+1.2.3.4", "1.2.3.+4", "a.b.c.d", "1.2.3.1000",
        "0001.2.3.4", "1,2,3,4", "1.2.3.-4", "invalid-ip-address", "1.2.3.٤",
    ];
    for text in bad {
        assert_eq!(Ipv4Addr::parse(text), None, "{:?}", text);
    }
}

#[test]
fn addresses_are_written_in_dotted_decimal() {
    for (a, b, c, d) in [(0u8, 0u8, 0u8, 0u8), (1, 2, 3, 4), (93, 184, 216, 34), (255, 255, 255, 255), (10, 0, 100, 9)] {
        let ip = Ipv4Addr::new(a, b, c, d);
        assert_eq!(ip.to_text(), format!("{}.{}.{}.{}", a, b, c, d));
        assert_eq!(Ipv4Addr::parse(&ip.to_text()), Some(ip));
        assert_eq!(ip.octets(), [a, b, c, d]);
    }
}

#[test]
fn split_gives_the_pieces_between_separators() {
    let cases = ["", "a", "a:b", ":", "::", "a::b:", ":a", "no separator", "é:ü:€"];
    for text in cases {
        let expected: Vec<String> = text.split(':').map(|s| s.to_string()).collect();
        assert_eq!(split_text(text, ':'), expected, "{:?}", text);
    }
    assert_eq!(split_text("a\nb\n", '\n'), vec!["a", "b", ""]);
}

#[test]
fn trim_takes_off_white_space_as_the_standard_library_does() {
    let cases = [
        "", " ", "a", " a ", "\t a b \r\n", "\u{00A0}x\u{3000}", "\u{2003}", "x\u{200B}",
        "\u{0085}y\u{1680}", " \u{2028}z\u{2029}\u{202F}\u{205F}", "\u{000B}\u{000C}w", "\u{180E}v",
    ];
    for text in cases {
        assert_eq!(trim_text(text), text.trim(), "{:?}", text);
    }
    for code in 0u32..0x3100 {
        if let Some(c) = char::from_u32(code) {
            assert_eq!(char_is_space(c), c.is_whitespace(), "{:x}", code);
        }
    }
}

#[test]
fn texts_are_ordered_as_the_standard_library_orders_them() {
    let texts = ["", "a", "aa", "ab", "b", "B", "a-b", "é", "z", "zz", "550e", "550f", "€", "\u{10000}"];
    for a in texts {
        for b in texts {
            assert_eq!(text_before(a, b), a < b, "{:?} {:?}", a, b);
            assert_eq!(text_eq(a, b), a == b, "{:?} {:?}", a, b);
        }
    }
}

#[test]
fn search_finds_what_is_there() {
    let cases = [
        ("", "", true),
        ("abc", "", true),
        ("", "a", false),
        ("abc", "abc", true),
        ("abc", "abcd", false),
        ("xabcx", "abc", true),
        ("ababac", "abac", true),
        ("aaa", "aab", false),
        ("# DNS Records File - Enhanced UUID Format", "DNS Records File - Enhanced UUID Format", true),
        ("héllo", "llo", true),
    ];
    for (text, pattern, expected) in cases {
        assert_eq!(text_contains(text, pattern), expected, "{:?} {:?}", text, pattern);
        assert_eq!(text.contains(pattern), expected);
    }
}

#[test]
fn characters_of_a_text() {
    assert_eq!(chars_of("a€b"), vec!['a', '€', 'b']);
    assert_eq!(chars_of(""), Vec::<char>::new());
}

#[test]
fn instants_are_ordered_by_seconds_then_nanoseconds() {
    let a = Timestamp::new(1, 999_999_999);
    let b = Timestamp::new(2, 0);
    let c = Timestamp::new(2, 1);
    let d = Timestamp::new(-5, 7);
    assert!(a.before(&b) && b.before(&c) && d.before(&a));
    assert!(!b.before(&b) && b.at_or_before(&b));
    assert!(!c.at_or_before(&b));
    assert!(a < b && b < c && d < a);
    assert_eq!(a.later_of(b), b);
    assert_eq!(c.later_of(b), c);
    assert_eq!(b.later_of(b), b);
}

#[test]
fn the_clock_gives_the_present() {
    let now = Timestamp::now();
    // after 2020, with less than a second of nanoseconds
    assert!(now.secs > 1_577_836_800);
    assert!(now.nanos < 1_000_000_000);
}
