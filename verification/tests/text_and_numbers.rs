use bunchatools::number::{digit_of, parse_i64, parse_u64, u64_to_decimal};
use bunchatools::scan::{
    contains, find, is_space, split_char, split_lines, split_words, trim, trim_char,
};
use bunchatools::text::{
    after_last_char, before_first_char, followed_by, ends_with, slice_to_string, starts_with, str_eq,
    strip_prefix_of, to_chars, trim_leading_char,
};

#[test]
fn characters_and_slices() {
    assert_eq!(to_chars("héllo"), vec!['h', 'é', 'l', 'l', 'o']);
    assert_eq!(to_chars(""), Vec::<char>::new());
    assert_eq!(slice_to_string("héllo wörld", 1, 5), "éllo");
    assert_eq!(slice_to_string("abc", 3, 3), "");
    assert_eq!(followed_by("ab", "cd"), "abcd");
    assert!(str_eq("file", "file"));
    assert!(!str_eq("file", "files"));
    assert!(!str_eq("file", "fild"));
    assert!(str_eq("", ""));
}

#[test]
fn prefixes() {
    assert!(starts_with("docs/readme.md", "docs"));
    assert!(starts_with("docs", "docs"));
    assert!(starts_with("docs", ""));
    assert!(!starts_with("doc", "docs"));
    assert!(!starts_with("xdocs", "docs"));
    assert_eq!(strip_prefix_of("docs/readme.md", "docs"), Some("/readme.md".to_string()));
    assert_eq!(strip_prefix_of("docs", "docs"), Some(String::new()));
    assert_eq!(strip_prefix_of("src/readme.md", "docs"), None);
    assert_eq!(strip_prefix_of("é/x", "é"), Some("/x".to_string()));
}

#[test]
fn segments() {
    assert_eq!(after_last_char("a/b/c.txt", '/'), "c.txt");
    assert_eq!(after_last_char("c.txt", '/'), "c.txt");
    assert_eq!(after_last_char("a/b/", '/'), "");
    assert_eq!(after_last_char("", '/'), "");
    assert_eq!(before_first_char("root-1/docs/a", '/'), "root-1");
    assert_eq!(before_first_char("root", '/'), "root");
    assert_eq!(before_first_char("/root", '/'), "");
    assert_eq!(trim_leading_char("///a/b", '/'), "a/b");
    assert_eq!(trim_leading_char("a/b", '/'), "a/b");
    assert_eq!(trim_leading_char("///", '/'), "");
    assert!(ends_with("dir/", '/'));
    assert!(!ends_with("dir", '/'));
    assert!(!ends_with("", '/'));
}

#[test]
fn decimal_numerals() {
    assert_eq!(u64_to_decimal(0), "0");
    assert_eq!(u64_to_decimal(7), "7");
    assert_eq!(u64_to_decimal(10), "10");
    assert_eq!(u64_to_decimal(1234567890), "1234567890");
    assert_eq!(u64_to_decimal(u64::MAX), "18446744073709551615");
    for n in [0u64, 9, 10, 99, 100, 101, 65535, 4294967295, 1 << 40] {
        assert_eq!(u64_to_decimal(n), n.to_string());
    }
}

#[test]
fn digits_in_a_radix() {
    assert_eq!(digit_of('7', 10), Some(7));
    assert_eq!(digit_of('a', 10), None);
    assert_eq!(digit_of('a', 16), Some(10));
    assert_eq!(digit_of('F', 16), Some(15));
    assert_eq!(digit_of('g', 16), None);
    assert_eq!(digit_of('z', 36), Some(35));
    assert_eq!(digit_of('٣', 10), None);
    for c in ['0', '9', 'a', 'f', 'A', 'Z', 'z', '-', ' ', 'é'] {
        for radix in [2u32, 8, 10, 16, 36] {
            assert_eq!(digit_of(c, radix), c.to_digit(radix));
        }
    }
}

#[test]
fn unsigned_numbers_parse_as_the_standard_library_does() {
    let texts = [
        "0", "1", "+1", "65535", "65536", "4294967295", "4294967296", "", "+", "-1", " 1", "1 ",
        "00012", "+0", "12a", "a", "٣", "18446744073709551615", "18446744073709551616",
        "99999999999999999999999",
    ];
    for text in texts {
        assert_eq!(parse_u64(text, 10, 0xffff), text.parse::<u16>().ok().map(u64::from), "{:?}", text);
        assert_eq!(parse_u64(text, 10, 0xffff_ffff), text.parse::<u32>().ok().map(u64::from), "{:?}", text);
        assert_eq!(parse_u64(text, 10, u64::MAX), text.parse::<u64>().ok(), "{:?}", text);
    }
    for text in ["1F90", "1f90", "+ff", "FFFF", "10000", "g", "", "0x10"] {
        assert_eq!(parse_u64(text, 16, 0xffff), u16::from_str_radix(text, 16).ok().map(u64::from), "{:?}", text);
    }
    assert_eq!(parse_u64("1F90", 16, 0xffff), Some(8080));
}

#[test]
fn signed_numbers_parse_as_the_standard_library_does() {
    let texts = [
        "0", "-0", "+0", "1", "-1", "+1", "123456789", "-123456789", "9223372036854775807",
        "9223372036854775808", "-9223372036854775808", "-9223372036854775809", "", "-", "+",
        "-+1", "+-1", "--1", "1-", "12.5", " 1",
    ];
    for text in texts {
        assert_eq!(parse_i64(text), text.parse::<i64>().ok(), "{:?}", text);
    }
    assert_eq!(parse_i64("-9223372036854775808"), Some(i64::MIN));
}

#[test]
fn white_space_is_what_the_standard_library_says() {
    for code in 0..=0x10ffffu32 {
        if let Some(c) = char::from_u32(code) {
            assert_eq!(is_space(c), c.is_whitespace(), "U+{:04X}", code);
        }
    }
}

#[test]
fn trimming() {
    assert_eq!(trim("  a b \t\n"), "a b");
    assert_eq!(trim("a"), "a");
    assert_eq!(trim(" \u{a0}\u{3000} "), "");
    assert_eq!(trim(""), "");
    for text in ["", " ", "x", " x", "x ", "  x  y  ", "\r\nline\r\n", "\u{2003}wide\u{2003}"] {
        assert_eq!(trim(text), text.trim());
    }
    assert_eq!(trim_char("\"node\"", '"'), "node");
    assert_eq!(trim_char("\"\"", '"'), "");
    assert_eq!(trim_char("no\"de", '"'), "no\"de");
    for text in ["", "\"", "\"a", "a\"", "\"\"a\"\"", "a"] {
        assert_eq!(trim_char(text, '"'), text.trim_matches('"'));
    }
}

#[test]
fn finding() {
    assert_eq!(find("users:((\"node\",pid=12,fd=3))", "pid="), Some(15));
    assert_eq!(find("abc", ""), Some(0));
    assert_eq!(find("", ""), Some(0));
    assert_eq!(find("", "a"), None);
    assert_eq!(find("abc", "abcd"), None);
    assert_eq!(find("aab", "ab"), Some(1));
    assert_eq!(find("ééx", "x"), Some(2));
    assert!(contains("[download]  5% of 1MiB", "%"));
    assert!(!contains("[download] Destination", "%"));
    for (text, piece) in [("hello world", "o w"), ("aaa", "aa"), ("abc", "c"), ("abc", "d")] {
        assert_eq!(find(text, piece), text.find(piece));
        assert_eq!(contains(text, piece), text.contains(piece));
    }
}

#[test]
fn splitting() {
    for text in ["", " ", "a", " a  bb\tccc \n", "LISTEN 0 128 0.0.0.0:3000 0.0.0.0:*", "\u{3000}x\u{a0}y"] {
        let expected: Vec<String> = text.split_whitespace().map(str::to_string).collect();
        assert_eq!(split_words(text), expected, "{:?}", text);
    }
    for text in ["", ":", "a", "a:b", "a::b", ":a:", "00:01:23.45"] {
        let expected: Vec<String> = text.split(':').map(str::to_string).collect();
        assert_eq!(split_char(text, ':'), expected, "{:?}", text);
    }
    for text in ["", "\n", "a", "a\n", "a\nb", "a\r\nb\r\n", "a\rb", "a\r", "\r\n\r\n", "a\n\nb", "a\r\r\n"] {
        let expected: Vec<String> = text.lines().map(str::to_string).collect();
        assert_eq!(split_lines(text), expected, "{:?}", text);
    }
}
