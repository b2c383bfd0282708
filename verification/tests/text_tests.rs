use egg::text::{
    chars_of, contains_chars, decimal, is_whitespace_char, parse_u32_chars, replace_chars,
    split_lines, split_whitespace, string_of, trim_chars,
};

const SAMPLES: &[&str] = &[
    "",
    " ",
    "a",
    "  php   artisan queue:work\t--tries=3 \n",
    "x\u{3000}y\u{a0}z\u{2009}w\u{200b}v",
    "line one\r\nline two\n\nlast",
    "ends with newline\n",
    "\n",
    "cr only\r",
    "\u{85}next\u{2028}sep\u{feff}",
];

fn words(s: &str) -> Vec<String> {
    split_whitespace(&chars_of(s)).iter().map(|w| string_of(w)).collect()
}

#[test]
fn whitespace_agrees_with_std() {
    for code in 0u32..0x3100 {
        if let Some(c) = char::from_u32(code) {
            assert_eq!(is_whitespace_char(c), c.is_whitespace(), "U+{:04X}", code);
        }
    }
}

#[test]
fn split_whitespace_agrees_with_std() {
    for s in SAMPLES {
        let expected: Vec<String> = s.split_whitespace().map(|w| w.to_string()).collect();
        assert_eq!(words(s), expected, "{:?}", s);
    }
}

#[test]
fn trim_agrees_with_std() {
    for s in SAMPLES {
        assert_eq!(string_of(&trim_chars(&chars_of(s))), s.trim(), "{:?}", s);
    }
}

#[test]
fn lines_agree_with_std() {
    for s in SAMPLES {
        let expected: Vec<String> = s.lines().map(|l| l.to_string()).collect();
        let got: Vec<String> = split_lines(&chars_of(s)).iter().map(|l| string_of(l)).collect();
        assert_eq!(got, expected, "{:?}", s);
    }
}

#[test]
fn replace_agrees_with_std() {
    let cases = [
        ("aaaa", "aa", "b"),
        ("{A}{A}", "{A}", "x"),
        ("no match", "{B}", "y"),
        ("abcabc", "bca", "-"),
        ("", "{A}", "z"),
        ("{A", "{A}", "z"),
    ];
    for (s, pat, rep) in cases {
        let got = replace_chars(&chars_of(s), &chars_of(pat), &chars_of(rep));
        assert_eq!(string_of(&got), s.replace(pat, rep), "{:?}", (s, pat, rep));
    }
}

#[test]
fn contains_agrees_with_std() {
    let cases = [("php artisan x", "artisan"), ("artisa", "artisan"), ("", ""), ("abc", ""), ("", "a")];
    for (s, p) in cases {
        assert_eq!(contains_chars(&chars_of(s), &chars_of(p)), s.contains(p), "{:?}", (s, p));
    }
}

#[test]
fn parse_u32_agrees_with_std() {
    let cases = [
        "0", "5", "05", "+7", "+", "-1", "", "4294967295", "4294967296", "99999999999999999999x",
        "12a", " 1", "00000000000000000001",
    ];
    for s in cases {
        assert_eq!(parse_u32_chars(&chars_of(s)), s.parse::<u32>().ok(), "{:?}", s);
    }
}

#[test]
fn decimal_agrees_with_display() {
    for n in [0u64, 7, 10, 42, 100, 4096, 1234567890, u64::MAX] {
        assert_eq!(string_of(&decimal(n)), n.to_string());
    }
}

#[test]
fn decimal_parses_back() {
    for n in [0u32, 9, 10, 99, 100, 65535, u32::MAX] {
        assert_eq!(parse_u32_chars(&decimal(n as u64)), Some(n));
    }
}

#[test]
fn split_words_are_nonempty_without_whitespace() {
    for s in SAMPLES {
        for w in words(s) {
            assert!(!w.is_empty());
            assert!(!w.chars().any(|c| c.is_whitespace()));
        }
    }
}
