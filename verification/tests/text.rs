use pedalboard_bridge::text;

#[test]
fn white_space_is_that_of_char() {
    for n in 0..=0x10FFFFu32 {
        if let Some(c) = char::from_u32(n) {
            assert_eq!(text::white_space(c), c.is_whitespace(), "{n:x}");
        }
    }
}

#[test]
fn trimming() {
    let samples = ["", " ", "a", " a ", "\t\r\na b\u{a0}\u{2003}", "\u{3000}x\u{85}", "\u{200b}x", "ß \u{1680}"];
    for s in samples {
        assert_eq!(text::trim(s), s.trim());
        assert_eq!(text::trim(&text::trim(s)), s.trim());
    }
    assert_eq!(text::trim_end_matches("a*b**", '*'), "a*b");
    assert_eq!(text::trim_end_matches("***", '*'), "");
    assert_eq!(text::trim_end_matches("resp 0\0\0", '\0'), "resp 0");
}

#[test]
fn comparing() {
    assert!(text::same("käse", "käse"));
    assert!(!text::same("käse", "kase"));
    assert!(text::starts_with("resp 0", "resp "));
    assert!(!text::starts_with("res", "resp "));
    assert!(text::starts_with("x", ""));
    let samples = ["", "a", "aab", "aaab", "system:capture_1", "captur", "ab", "ba"];
    for s in samples {
        for part in samples {
            assert_eq!(text::contains(s, part), s.contains(part), "{s} {part}");
        }
    }
}

#[test]
fn decimal_numbers_read_back() {
    for n in [0u64, 7, 10, 99, 100, 4294967295, u64::MAX] {
        let mut out = String::new();
        text::push_decimal(&mut out, n);
        assert_eq!(out, n.to_string());
    }
    for n in [0i32, -1, 42, -101, i32::MAX, i32::MIN] {
        let mut out = "x".to_string();
        text::push_decimal_int(&mut out, n);
        assert_eq!(out, format!("x{n}"));
        assert_eq!(text::parse_i32(&out[1..]), Some(n));
    }
}

#[test]
fn parsing_numbers() {
    let samples = [
        "", "0", "7", "007", "+5", "-5", "-0", "+", "-", "--1", "+-1", "1 ", " 1", "1a", "a", "٣", "4294967295", "4294967296",
        "2147483647", "2147483648", "-2147483648", "-2147483649", "99999999999999999999", "00000000000000000000001", "1_000",
    ];
    for s in samples {
        assert_eq!(text::parse_u32(s), s.parse::<u32>().ok(), "{s}");
        assert_eq!(text::parse_i32(s), s.parse::<i32>().ok(), "{s}");
    }
}

#[test]
fn splitting_into_lines() {
    let samples = ["", "\n", "a", "a\n", "a\nb", "a\r\nb\r\n", "\n\n", "a\r", "\r\n", "a\n\r\nb\r\r\n", "\r", "a\rb\nc"];
    for s in samples {
        let expected: Vec<&str> = s.lines().collect();
        assert_eq!(text::lines(s), expected, "{s:?}");
    }
}

#[test]
fn hex_dump() {
    assert_eq!(text::hex_encode(&[]), "");
    assert_eq!(text::hex_encode(&[0xF0, 0x00, 0x0A, 0x9b, 0xF7]), "f0000a9bf7");
    let all: Vec<u8> = (0..=255).collect();
    let expected: String = all.iter().map(|b| format!("{b:02x}")).collect();
    assert_eq!(text::hex_encode(&all), expected);
}
