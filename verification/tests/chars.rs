use starsearch::chars::{
    back, begins_with, chars_of, holds_char, is_at, is_whitespace, read_size, replace_all,
    same_text, seek, skip, split_words, strip, text_of, CharClass,
};

fn strip_text(text: &str, class: CharClass) -> String {
    let chars = chars_of(text);
    let (from, to) = strip(&chars, class, 0, chars.len());
    text_of(&chars, from, to)
}

fn size_of(text: &str) -> u64 {
    let chars = chars_of(text);
    read_size(&chars, 0, chars.len())
}

const SAMPLES: [&str; 14] = [
    "",
    " ",
    "abc",
    "  abc  ",
    "\t a b \r\n",
    "\u{3000}wide\u{a0}",
    "\u{2003}\u{2009}x\u{205f}",
    "no-space",
    "a  b\tc\nd",
    " \u{85}next\u{2028}line\u{2029} ",
    "\u{1680}ogham\u{202f}",
    "x\u{200b}y",
    "   ",
    "tab\tseparated\tvalues",
];

#[test]
fn white_space_is_what_std_calls_white_space() {
    for code in 0..=0x10FFFFu32 {
        if let Some(c) = char::from_u32(code) {
            assert_eq!(is_whitespace(c), c.is_whitespace(), "U+{:04X}", code);
        }
    }
}

#[test]
fn chars_and_text_are_inverse() {
    for sample in SAMPLES {
        let chars = chars_of(sample);
        assert_eq!(chars, sample.chars().collect::<Vec<char>>());
        assert_eq!(text_of(&chars, 0, chars.len()), sample);
    }
    let chars = chars_of("héllo");
    assert_eq!(text_of(&chars, 1, 3), "él");
    assert_eq!(text_of(&chars, 2, 2), "");
}

#[test]
fn stripping_white_space_is_trim() {
    for sample in SAMPLES {
        assert_eq!(strip_text(sample, CharClass::Space), sample.trim());
    }
}

#[test]
fn stripping_one_character_is_trim_matches() {
    for sample in ["\"quoted\"", "\"\"x\"", "\"", "\"\"", "plain", "a\"b", "\"open", "close\"", ""] {
        assert_eq!(strip_text(sample, CharClass::Only('"')), sample.trim_matches('"'));
    }
}

#[test]
fn strip_stays_inside_its_bounds() {
    let chars = chars_of("  ab  cd  ");
    assert_eq!(strip(&chars, CharClass::Space, 4, 10), (6, 8));
    assert_eq!(strip(&chars, CharClass::Space, 0, 2), (2, 2));
    assert_eq!(strip(&chars, CharClass::Space, 3, 3), (3, 3));
}

#[test]
fn scans_find_the_first_and_the_last() {
    let chars = chars_of("aa\tb\tcc");
    assert_eq!(seek(&chars, CharClass::Only('\t'), 0, chars.len()), 2);
    assert_eq!(seek(&chars, CharClass::Only('\t'), 3, chars.len()), 4);
    assert_eq!(seek(&chars, CharClass::Only('\t'), 5, chars.len()), 7);
    assert_eq!(seek(&chars, CharClass::Only('\t'), 0, 2), 2);
    assert_eq!(skip(&chars, CharClass::Only('a'), 0, chars.len()), 2);
    assert_eq!(skip(&chars, CharClass::Only('a'), 0, 1), 1);
    assert_eq!(back(&chars, CharClass::Only('c'), 0, chars.len()), 5);
    assert_eq!(back(&chars, CharClass::Only('c'), 6, chars.len()), 6);
    assert!(holds_char(&chars, 'b', 0, chars.len()));
    assert!(!holds_char(&chars, 'b', 0, 3));
    assert!(!holds_char(&chars, 'z', 0, chars.len()));
}

#[test]
fn sizes_are_read_as_std_parses_them_without_commas() {
    let samples = [
        "0", "7", "007", "1,234", "1,234,567", ",", "", "+", "+5", ",+5", "+,5", "+5,", "5+", "-5",
        "12a", " 12", "12 ", "1.5", "18446744073709551615", "18446744073709551616",
        "99999999999999999999999", "18,446,744,073,709,551,615", "++1", "１２", "0x10", ",,,",
        "00000000000000000000000001",
    ];
    for sample in samples {
        let expected = sample.replace(',', "").parse::<u64>().unwrap_or(0);
        assert_eq!(size_of(sample), expected, "{:?}", sample);
    }
}

#[test]
fn size_is_read_between_bounds() {
    let chars = chars_of("ab123cd");
    assert_eq!(read_size(&chars, 2, 5), 123);
    assert_eq!(read_size(&chars, 2, 4), 12);
    assert_eq!(read_size(&chars, 1, 5), 0);
    assert_eq!(read_size(&chars, 3, 3), 0);
}

#[test]
fn words_are_split_as_std_splits_white_space() {
    for sample in SAMPLES {
        let expected: Vec<String> = sample.split_whitespace().map(|w| w.to_string()).collect();
        assert_eq!(split_words(sample), expected, "{:?}", sample);
    }
}

#[test]
fn replacing_is_what_std_replaces() {
    let cases = [
        ("ps cc", "ps", "photoshop"),
        ("maps", "ps", "photoshop"),
        ("psps", "ps", "x"),
        ("aaa", "aa", "b"),
        ("aaaa", "aa", "b"),
        ("微信 聊天 微信", "微信", "wechat"),
        ("nothing here", "zz", "y"),
        ("", "a", "b"),
        ("abc", "abc", ""),
        ("abcabc", "bc", "bcbc"),
        ("x", "xx", "y"),
        ("abc", "", "-"),
        ("", "", "-"),
        ("日本", "", "ab"),
        ("abc", "", ""),
    ];
    for (text, pattern, with) in cases {
        assert_eq!(replace_all(text, pattern, with), text.replace(pattern, with));
    }
}

#[test]
fn an_empty_pattern_occurs_before_every_character_and_at_the_end() {
    assert_eq!(replace_all("abc", "", "-"), "-a-b-c-");
    assert_eq!(replace_all("", "", "-"), "-");
}

#[test]
fn texts_are_compared_character_by_character() {
    assert!(same_text("", ""));
    assert!(same_text("exe", "exe"));
    assert!(same_text("日本", "日本"));
    assert!(!same_text("exe", "exf"));
    assert!(!same_text("exe", "ex"));
    assert!(!same_text("ex", "exe"));
    assert!(!same_text("", "a"));
    assert!(begins_with("photoshop", "photo"));
    assert!(begins_with("photoshop", ""));
    assert!(begins_with("photoshop", "photoshop"));
    assert!(!begins_with("photo", "photoshop"));
    assert!(!begins_with("photoshop", "shop"));
    let text = chars_of("abcabc");
    let part = chars_of("bc");
    assert!(is_at(&text, &part, 1));
    assert!(is_at(&text, &part, 4));
    assert!(!is_at(&text, &part, 0));
    assert!(!is_at(&text, &part, 5));
    assert!(!is_at(&text, &part, 6));
    assert!(!is_at(&text, &part, usize::MAX));
    assert!(is_at(&text, &Vec::new(), 6));
    assert!(!is_at(&text, &Vec::new(), 7));
}
