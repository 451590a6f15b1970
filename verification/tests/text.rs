use list_submit::text::{
    char_is_whitespace, contains, ends_with, is_number_text, parse_number, render_number, starts_with, stem_of_link,
    strip_suffix, take_after_first, trim,
};

#[test]
fn stem_of_link_takes_last_segment_up_to_first_dot() {
    assert_eq!(stem_of_link("/tasks/task/5365_du1.html"), "5365_du1");
    assert_eq!(stem_of_link("index.php/courses/details/12.html"), "12");
    assert_eq!(stem_of_link("plain"), "plain");
    assert_eq!(stem_of_link("a/b/"), "");
    assert_eq!(stem_of_link("a/b.tar.gz"), "b");
}

#[test]
fn parse_number_reads_unsigned_decimals() {
    assert_eq!(parse_number("0"), Some(0));
    assert_eq!(parse_number("+17"), Some(17));
    assert_eq!(parse_number("0042"), Some(42));
    assert_eq!(parse_number("4294967295"), Some(4294967295));
    assert_eq!(parse_number("4294967296"), None);
    assert_eq!(parse_number(""), None);
    assert_eq!(parse_number("+"), None);
    assert_eq!(parse_number("-1"), None);
    assert_eq!(parse_number("1 "), None);
    assert_eq!(parse_number("1_0"), None);
}

#[test]
fn parse_number_agrees_with_std() {
    for text in ["7", "+7", "007", "99999999999", "x", "", "+", "++1", "12a"] {
        assert_eq!(parse_number(text), text.parse::<u32>().ok());
    }
}

#[test]
fn render_number_writes_decimals() {
    assert_eq!(render_number(0), "0");
    assert_eq!(render_number(9), "9");
    assert_eq!(render_number(10), "10");
    assert_eq!(render_number(5365), "5365");
    assert_eq!(render_number(u32::MAX), "4294967295");
}

#[test]
fn trim_removes_white_space_at_both_ends() {
    assert_eq!(trim("  12 \n"), "12");
    assert_eq!(trim("\t a b \u{a0}"), "a b");
    assert_eq!(trim("   "), "");
    assert_eq!(trim(""), "");
    assert_eq!(trim("x"), "x");
}

#[test]
fn contains_finds_runs_of_characters() {
    assert!(contains("<a>Môj účet</a>", "Môj účet"));
    assert!(!contains("<a>Moj ucet</a>", "Môj účet"));
    assert!(contains("abc", ""));
    assert!(contains("", ""));
    assert!(!contains("ab", "abc"));
    assert!(contains("aab", "ab"));
}

#[test]
fn is_number_text_accepts_numbers_with_fractions() {
    for text in ["0", "7.5", "10", "-1", "+2.25", ".5", "5.", "1e3", "1E-3", "2.5e+10", "inf", "-Infinity", "NaN"] {
        assert!(is_number_text(text), "{text}");
    }
    for text in ["", ".", "+", "-", "e5", "1e", "1e+", "1.2.3", "7,5", " 1", "1 ", "1_0", "0x10", "in", "nanx", "--1", "1e5.0", "100%"] {
        assert!(!is_number_text(text), "{text}");
    }
}

#[test]
fn is_number_text_agrees_with_the_parser_of_std() {
    let pieces = ["", "+", "-", "0", "1", "12", ".", "e", "E", "e+", "e-", "inf", "INF", "Infinity", "nan", "NaN", "x", " ", "_", "9"];
    for a in pieces {
        for b in pieces {
            for c in pieces {
                for d in ["", "5", ".", "e"] {
                    let text = format!("{a}{b}{c}{d}");
                    assert_eq!(is_number_text(&text), text.parse::<f32>().is_ok(), "{text:?}");
                }
            }
        }
    }
}

#[test]
fn prefixes_suffixes_and_tails() {
    assert!(starts_with("# autor: x", "# autor"));
    assert!(!starts_with("# auto", "# autor"));
    assert!(starts_with("abc", ""));
    assert!(ends_with("MainTest.java", "Test.java"));
    assert!(!ends_with("Test.jav", "Test.java"));
    assert!(ends_with("abc", ""));
    assert_eq!(strip_suffix("100%", '%'), Some("100"));
    assert_eq!(strip_suffix("100%%", '%'), Some("100%"));
    assert_eq!(strip_suffix("100", '%'), None);
    assert_eq!(strip_suffix("", '%'), None);
    assert_eq!(take_after_first("a\nb\nc", '\n'), Some("b\nc"));
    assert_eq!(take_after_first("abc", '\n'), None);
    assert_eq!(take_after_first("abc\n", '\n'), Some(""));
}

#[test]
fn white_space_is_what_std_takes_for_it() {
    for code in 0..=0x10ffffu32 {
        if let Some(c) = char::from_u32(code) {
            assert_eq!(char_is_whitespace(c), c.is_whitespace(), "U+{code:04X}");
        }
    }
}

#[test]
fn trim_agrees_with_std() {
    for text in ["", " ", "a", " a", "a ", "\u{a0}a\u{3000}", "\t\r\n a b \n", "\u{200b}a", "\u{1680}\u{2028}x\u{205f}"] {
        assert_eq!(trim(text), text.trim(), "{text:?}");
    }
}
