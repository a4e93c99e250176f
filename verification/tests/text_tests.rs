use lada_gui::text::{
    chars_of, float_literal_ok, i32_to_string, is_whitespace_char, lines_chars, parse_u32,
    parse_u64, split_chars, str_contains, str_eq, trim_chars, u64_to_string,
};

#[test]
fn unsigned_parsing_follows_std() {
    for s in ["0", "+42", "", "+", "-1", "-0", "007", " 1", "1 ", "18446744073709551615", "18446744073709551616", "4294967295", "4294967296", "1_000", "١"] {
        assert_eq!(parse_u64(s), s.parse::<u64>().ok(), "{}", s);
        assert_eq!(parse_u32(s), s.parse::<u32>().ok(), "{}", s);
    }
}

#[test]
fn decimal_roundtrip() {
    for n in [0u64, 7, 10, 99, 100, 12345, u64::MAX] {
        assert_eq!(u64_to_string(n), n.to_string());
        assert_eq!(parse_u64(&u64_to_string(n)), Some(n));
    }
    for n in [0i32, -1, 125, i32::MIN, i32::MAX] {
        assert_eq!(i32_to_string(n), n.to_string());
    }
}

#[test]
fn float_literal_syntax_follows_std() {
    for s in ["0.58", ".5", "5.", ".", "", "1e5", "1E-5", "1e", "e5", "+1.5", "-2", "inf", "-INF", "Infinity", "infinit", "NaN", "nan1", "1.2.3", "12fps", " 1", "1_0", "0x10", "+", "1e+3", "1.e3", ".e3"] {
        let v = chars_of(s);
        assert_eq!(float_literal_ok(&v), s.parse::<f64>().is_ok(), "{}", s);
    }
}

#[test]
fn whitespace_and_trim_follow_std() {
    for c in ['\t', '\n', '\r', ' ', '\u{85}', '\u{a0}', '\u{2003}', '\u{3000}', 'a', '\u{200b}', '\u{feff}'] {
        assert_eq!(is_whitespace_char(c), c.is_whitespace(), "{:?}", c);
    }
    let s = "\u{3000} a b \r\n";
    let t: String = trim_chars(&chars_of(s)).into_iter().collect();
    assert_eq!(t, s.trim());
}

#[test]
fn split_and_lines_follow_std() {
    for s in ["", "a,b", ",", "a,,b,", "x"] {
        let ours: Vec<String> = split_chars(&chars_of(s), ',').into_iter().map(|v| v.into_iter().collect()).collect();
        let std: Vec<String> = s.split(',').map(|p| p.to_string()).collect();
        assert_eq!(ours, std);
    }
    for s in ["", "a", "a\n", "a\r\nb", "a\rb\r", "\n\n", "x\r\n\r\n"] {
        let ours: Vec<String> = lines_chars(&chars_of(s)).into_iter().map(|v| v.into_iter().collect()).collect();
        let std: Vec<String> = s.lines().map(|p| p.to_string()).collect();
        assert_eq!(ours, std, "{:?}", s);
    }
}

#[test]
fn equality_and_search() {
    assert!(str_eq("hevc_nvenc", "hevc_nvenc"));
    assert!(!str_eq("hevc_nvenc", "hevc_nvenC"));
    assert!(!str_eq("a", "ab"));
    assert!(str_contains("mount source path does not exist", "mount source path"));
    assert!(!str_contains("mount", "mount source path"));
    assert!(str_contains("x", ""));
}
