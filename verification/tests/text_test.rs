use voyage_core::addr::{IpAddr, Ipv4Addr, Ipv6Addr};
use voyage_core::error::VoyageError;
use voyage_core::text::{
    append_chars, char_ascii_lower, char_ascii_upper, char_is_whitespace, chars_contain, chars_end_with,
    chars_eq, chars_eq_ignore_case, chars_start_with, decimal_chars, digits_chars, lower_chars,
    parse_unsigned_chars, split_chars, strip_leading_chars, to_chars, to_string, trim_chars,
    upper_chars, NumberFault,
};

fn chars(s: &str) -> Vec<char> {
    s.chars().collect()
}

fn text(v: &[char]) -> String {
    v.iter().collect()
}

const SAMPLES: [&str; 16] = [
    "",
    " ",
    "a",
    "  a b  ",
    "\t\r\n x \u{b}\u{c}",
    "\u{85}x\u{a0}",
    "\u{1680}\u{2000}\u{200a}y\u{2028}\u{2029}\u{202f}\u{205f}\u{3000}",
    "\u{200b}z\u{200b}",
    "\u{1c}q\u{1f}",
    "a,b,,c,",
    ",",
    "..a..",
    "MiXeD-Case_09",
    "\u{e9}\u{c9}\u{130}\u{131}",
    "line1\nline2\r\n\nline4",
    "  \u{feff} ",
];

#[test]
fn strings_and_characters_convert_both_ways() {
    for s in SAMPLES.iter() {
        assert_eq!(to_chars(s), chars(s));
        assert_eq!(to_string(&chars(s)), *s);
    }
}

#[test]
fn white_space_is_that_of_unicode() {
    for code in 0..0x11_0000u32 {
        if let Some(c) = char::from_u32(code) {
            assert_eq!(char_is_whitespace(c), c.is_whitespace(), "U+{:04X}", code);
            assert_eq!(char_ascii_lower(c), c.to_ascii_lowercase(), "U+{:04X}", code);
            assert_eq!(char_ascii_upper(c), c.to_ascii_uppercase(), "U+{:04X}", code);
        }
    }
}

#[test]
fn trimming_and_case_are_those_of_the_standard_library() {
    for s in SAMPLES.iter() {
        assert_eq!(text(&trim_chars(&chars(s))), s.trim());
        assert_eq!(text(&lower_chars(&chars(s))), s.to_ascii_lowercase());
        assert_eq!(text(&upper_chars(&chars(s))), s.to_ascii_uppercase());
        assert_eq!(text(&strip_leading_chars(&chars(s), '.')), s.trim_start_matches('.'));
        for t in SAMPLES.iter() {
            assert_eq!(chars_eq(&chars(s), &chars(t)), s == t);
            assert_eq!(chars_eq_ignore_case(&chars(s), &chars(t)), s.eq_ignore_ascii_case(t));
            assert_eq!(chars_start_with(&chars(s), &chars(t)), s.starts_with(t));
            assert_eq!(chars_end_with(&chars(s), &chars(t)), s.ends_with(t));
            assert_eq!(chars_contain(&chars(s), &chars(t)), s.contains(t));
        }
    }
    assert!(chars_contain(&chars("abcabd"), &chars("abd")));
    assert!(!chars_contain(&chars("abcabd"), &chars("abe")));
    assert!(chars_eq_ignore_case(&chars("AbC"), &chars("aBc")));
    assert!(!chars_eq_ignore_case(&chars("AbC"), &chars("aBcd")));
}

#[test]
fn splitting_is_that_of_the_standard_library() {
    for s in SAMPLES.iter() {
        for sep in [',', '.', '\n', ' ', 'a'] {
            let ours: Vec<String> = split_chars(&chars(s), sep).iter().map(|p| text(p)).collect();
            let theirs: Vec<String> = s.split(sep).map(|p| p.to_string()).collect();
            assert_eq!(ours, theirs);
        }
    }
    let parts: Vec<String> = split_chars(&chars("a,b,,c,"), ',').iter().map(|p| text(p)).collect();
    assert_eq!(parts, vec!["a", "b", "", "c", ""]);
}

#[test]
fn unsigned_numbers_are_read_as_the_standard_library_reads_them() {
    let samples = [
        "", "+", "-", "0", "+0", "-0", "00", "007", "+007", "255", "256", "0255", "65535", "65536",
        "065535", "99999", "999999999999999999999999", "1a", "a1", "9999x", "99999x", "+-1", "++1",
        "1+", " 1", "1 ", "\u{661}", "12\u{ff11}", "4294967296", "300x",
    ];
    for s in samples.iter() {
        let expected16 = match s.parse::<u16>() {
            Ok(v) => Ok(v as u32),
            Err(e) => Err(e.to_string()),
        };
        let expected8 = match s.parse::<u8>() {
            Ok(v) => Ok(v as u32),
            Err(e) => Err(e.to_string()),
        };
        let ours16 = parse_unsigned_chars(&chars(s), 65535).map_err(|f| f.message().to_string());
        let ours8 = parse_unsigned_chars(&chars(s), 255).map_err(|f| f.message().to_string());
        assert_eq!(ours16, expected16, "{:?}", s);
        assert_eq!(ours8, expected8, "{:?}", s);
    }
    assert_eq!(parse_unsigned_chars(&chars("443"), 65535), Ok(443));
    assert_eq!(parse_unsigned_chars(&chars(""), 65535), Err(NumberFault::Empty));
    assert_eq!(parse_unsigned_chars(&chars("x"), 65535), Err(NumberFault::InvalidDigit));
    assert_eq!(parse_unsigned_chars(&chars("70000"), 65535), Err(NumberFault::TooLarge));
    assert_eq!(digits_chars(&chars(""), 255), Ok(0));
    assert_eq!(digits_chars(&chars("+1"), 255), Err(NumberFault::InvalidDigit));
    assert_eq!(digits_chars(&chars("255"), 255), Ok(255));
    assert_eq!(digits_chars(&chars("256"), 255), Err(NumberFault::TooLarge));
}

#[test]
fn dotted_addresses_are_read_strictly() {
    let good = [
        ("0.0.0.0", [0, 0, 0, 0]),
        ("255.255.255.255", [255, 255, 255, 255]),
        ("192.168.1.100", [192, 168, 1, 100]),
        ("1.2.3.4", [1, 2, 3, 4]),
        ("10.0.200.9", [10, 0, 200, 9]),
    ];
    for (s, o) in good.iter() {
        let addr = Ipv4Addr::parse(&chars(s)).unwrap();
        assert_eq!(addr.octets(), *o);
        assert_eq!(addr, Ipv4Addr::new(o[0], o[1], o[2], o[3]));
    }
    let bad = [
        "", ".", "...", "1", "1.2.3", "1.2.3.", ".1.2.3", "1.2.3.4.", "1.2.3.4.5", "1..3.4",
        "256.0.0.0", "0.0.0.256", "1.2.3.999", "01.2.3.4", "1.2.3.04", "00.0.0.0", "1.2.3.4 ",
        " 1.2.3.4", "1.2.3.a", "1.2.3.-4", "+1.2.3.4", "1.2.3.+4", "0x1.2.3.4", "1.2.3.0004",
        "1.2.3.\u{664}", "1,2,3,4", "::1", "1.2.3.4/8",
    ];
    for s in bad.iter() {
        assert_eq!(Ipv4Addr::parse(&chars(s)), None, "{:?}", s);
    }
}

#[test]
fn addresses_and_their_bits_go_together() {
    let addr = Ipv4Addr::new(192, 168, 1, 2);
    assert_eq!(addr.to_bits(), 0xC0A8_0102);
    assert_eq!(Ipv4Addr::from_bits(0xC0A8_0102), addr);
    assert_eq!(Ipv4Addr::from_bits(0x0102_03FF).octets(), [1, 2, 3, 255]);
    assert_eq!(Ipv4Addr::from_bits(0).octets(), [0, 0, 0, 0]);
    assert_eq!(Ipv4Addr::from_bits(u32::MAX).octets(), [255, 255, 255, 255]);
}

#[test]
fn errors_say_what_they_are() {
    assert_eq!(VoyageError::NotInitialized.message(), "Core not initialized");
    assert_eq!(VoyageError::AlreadyInitialized.message(), "Core already initialized");
    assert_eq!(VoyageError::LockError.message(), "Lock error");
    assert_eq!(VoyageError::InvalidPacket("a".into()).message(), "Invalid packet: a");
    assert_eq!(VoyageError::SocketError("b".into()).message(), "Socket error: b");
    assert_eq!(VoyageError::NatTableFull.message(), "NAT table full");
    assert_eq!(VoyageError::Connection("c".into()).message(), "Connection error: c");
    assert_eq!(VoyageError::Nat("d".into()).message(), "NAT error: d");
    assert_eq!(VoyageError::Rule("e".into()).message(), "Rule error: e");
    assert_eq!(VoyageError::Socks5Error("f".into()).message(), "SOCKS5 error: f");
    assert_eq!(VoyageError::IoError("g".into()).message(), "IO error: g");
    assert_eq!(VoyageError::ConfigError("".into()).message(), "Configuration error: ");
}

#[test]
fn ipv6_addresses_are_read_from_their_text() {
    let good: [(&str, [u16; 8]); 24] = [
        ("::", [0, 0, 0, 0, 0, 0, 0, 0]),
        ("::1", [0, 0, 0, 0, 0, 0, 0, 1]),
        ("1::", [1, 0, 0, 0, 0, 0, 0, 0]),
        ("1::2", [1, 0, 0, 0, 0, 0, 0, 2]),
        ("1:2::", [1, 2, 0, 0, 0, 0, 0, 0]),
        ("::1:2", [0, 0, 0, 0, 0, 0, 1, 2]),
        ("1:2:3:4:5:6:7:8", [1, 2, 3, 4, 5, 6, 7, 8]),
        ("1:2:3:4:5:6:7::", [1, 2, 3, 4, 5, 6, 7, 0]),
        ("::1:2:3:4:5:6:7", [0, 1, 2, 3, 4, 5, 6, 7]),
        ("1::2:3:4:5:6:7", [1, 0, 2, 3, 4, 5, 6, 7]),
        ("1:2:3::4:5:6:7", [1, 2, 3, 0, 4, 5, 6, 7]),
        ("2001:db8::ff00:42:8329", [0x2001, 0xdb8, 0, 0, 0, 0xff00, 0x42, 0x8329]),
        ("2001:0db8:0000:0000:0000:ff00:0042:8329", [0x2001, 0xdb8, 0, 0, 0, 0xff00, 0x42, 0x8329]),
        ("2001:DB8::Ff00:42:8329", [0x2001, 0xdb8, 0, 0, 0, 0xff00, 0x42, 0x8329]),
        ("ffff:ffff:ffff:ffff:ffff:ffff:ffff:ffff", [0xffff; 8]),
        ("0:0:0:0:0:0:0:0", [0; 8]),
        ("0000::", [0; 8]),
        ("::1.2.3.4", [0, 0, 0, 0, 0, 0, 0x0102, 0x0304]),
        ("::ffff:192.168.1.255", [0, 0, 0, 0, 0, 0xffff, 0xc0a8, 0x01ff]),
        ("1:2:3:4:5:6:1.2.3.4", [1, 2, 3, 4, 5, 6, 0x0102, 0x0304]),
        ("1:2:3:4:5::1.2.3.4", [1, 2, 3, 4, 5, 0, 0x0102, 0x0304]),
        ("::1:2:3:4:5:1.2.3.4", [0, 1, 2, 3, 4, 5, 0x0102, 0x0304]),
        ("64:ff9b::192.0.2.33", [0x64, 0xff9b, 0, 0, 0, 0, 0xc000, 0x0221]),
        ("fe80::a:B:c", [0xfe80, 0, 0, 0, 0, 0xa, 0xb, 0xc]),
    ];
    for (s, g) in good.iter() {
        let expected = Ipv6Addr::new(g[0], g[1], g[2], g[3], g[4], g[5], g[6], g[7]);
        assert_eq!(Ipv6Addr::parse(&chars(s)), Some(expected), "{:?}", s);
        assert_eq!(IpAddr::parse(&chars(s)), Some(IpAddr::V6(expected)), "{:?}", s);
    }
    let bad = [
        "", ":", ":::", "::::", "1", "1:", ":1", "1:2:3:4:5:6:7", "1:2:3:4:5:6:7:8:9",
        "1:2:3:4:5:6:7:8::", "::1:2:3:4:5:6:7:8", "1:2:3:4::5:6:7:8", "1::2::3", "1:::2", "1:2:::6:7:8",
        "1:2:3:4:5:6:7:", ":1:2:3:4:5:6:7", "00000::", "12345::", "::12345", "::00000", "::g",
        "::-1", "::+1", "g::", "1:2:3:4:5:1.2.3.4", "1:2:3:4:5:6:7:1.2.3.4", "1:2:3:4:5:6::1.2.3.4",
        "::1:2:3:4:5:6:1.2.3.4", "1.2.3.4::", "1.2.3.4::1", "::1.2.3.4:5", "::127.0.0.1:", "::1.2.3",
        "::1.2.3.4.5", "::1.2.3.256", "::01.2.3.4", "::1.2.3.04", "1:2:3:4:5:6:7:8.9.10.11",
        "::ffff:1.2.3.4 ", " ::1", "::1 ", "::1%eth0", "[::1]", "\u{ff11}::", "::\u{661}", "1.2.3.4",
    ];
    for s in bad.iter() {
        assert_eq!(Ipv6Addr::parse(&chars(s)), None, "{:?}", s);
    }
    assert_eq!(IpAddr::parse(&chars("1.2.3.4")), Some(IpAddr::V4(Ipv4Addr::new(1, 2, 3, 4))));
    assert_eq!(IpAddr::parse(&chars("1.2.3")), None);
    assert_eq!(IpAddr::parse(&chars("example.com")), None);
}

#[test]
fn numbers_are_written_in_decimal() {
    for n in [0usize, 1, 9, 10, 11, 99, 100, 101, 1205, 65535, 4_000_000_000, usize::MAX] {
        assert_eq!(text(&decimal_chars(n)), n.to_string());
    }
    let mut s = String::from("ab");
    append_chars(&mut s, &chars("c\u{e9}d"));
    append_chars(&mut s, &[]);
    assert_eq!(s, "abc\u{e9}d");
}
