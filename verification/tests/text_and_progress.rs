use heart::numbers::{i64_to_decimal, parse_i64, u64_to_decimal};
use heart::progress::{clean_progress_text, progress_message};
use heart::text::{chars_of, concat2, contains_text, join_texts, replace_text, string_of_chars, text_eq, text_lt};

#[test]
fn clean_progress_text_strips_escape_sequences() {
    let line = "\x1b[?25lpulling manifest \x1b[K\x1b[?25h";
    assert_eq!(clean_progress_text(line), "pulling manifest");
}

#[test]
fn clean_progress_text_keeps_progress_figures() {
    let line = "pulling 6a0746a1ec1a:  45% ▕████████      ▏ 912 MB/2.0 GB   35 MB/s     31s";
    assert_eq!(clean_progress_text(line), "pulling 6a0746a1ec1a: 45% 912 MB/2.0 GB 35 MB/s 31s");
}

#[test]
fn clean_progress_text_escape_separates_words() {
    assert_eq!(clean_progress_text("abc\x1b[2Kdef"), "abc def");
    assert_eq!(clean_progress_text("\x1b[1Gstart"), "start");
}

#[test]
fn clean_progress_text_collapses_whitespace() {
    assert_eq!(clean_progress_text("  a \t\n b\r\x0c c  "), "a b c");
    assert_eq!(clean_progress_text(""), "");
    assert_eq!(clean_progress_text("   "), "");
}

#[test]
fn clean_progress_text_drops_other_characters() {
    assert_eq!(clean_progress_text("[a]{b}!c?d=e#f"), "abcdef");
    assert_eq!(clean_progress_text("success ✓ (done)"), "success (done)");
}

#[test]
fn clean_progress_text_unterminated_escape() {
    assert_eq!(clean_progress_text("text\x1b[12;34"), "text");
    assert_eq!(clean_progress_text("lone \x1b escape"), "lone escape");
}

#[test]
fn clean_progress_text_is_idempotent() {
    let lines = [
        "\x1b[?25lpulling manifest \x1b[K\x1b[?25h",
        "  verifying   sha256 digest ",
        "a\x1b[Kb\tc",
    ];
    for line in lines.iter() {
        let once = clean_progress_text(line);
        let twice = clean_progress_text(&once);
        assert_eq!(once, twice);
    }
}

#[test]
fn progress_message_skips_empty_results() {
    assert_eq!(progress_message(""), None);
    assert_eq!(progress_message("\x1b[K"), None);
    assert_eq!(progress_message("!!!"), None);
    assert_eq!(progress_message("writing manifest"), Some("writing manifest".to_string()));
}

#[test]
fn replace_text_replaces_every_occurrence() {
    assert_eq!(replace_text("a{{x}}b{{x}}", "{{x}}", "1"), "a1b1");
    assert_eq!(replace_text("aaa", "aa", "b"), "ba");
    assert_eq!(replace_text("none here", "{{x}}", "1"), "none here");
    assert_eq!(replace_text("", "x", "y"), "");
}

#[test]
fn contains_text_finds_substrings() {
    assert!(contains_text("llama3.2:latest  a80c4f17acd5", "llama3.2"));
    assert!(!contains_text("mistral:latest", "llama3.2"));
    assert!(contains_text("abc", ""));
    assert!(!contains_text("ab", "abc"));
}

#[test]
fn join_texts_puts_separator_between() {
    let parts = vec!["one".to_string(), "two".to_string(), "three".to_string()];
    assert_eq!(join_texts(&parts, "\n"), "one\ntwo\nthree");
    assert_eq!(join_texts(&Vec::new(), "\n"), "");
    assert_eq!(join_texts(&vec!["solo".to_string()], ", "), "solo");
}

#[test]
fn text_helpers() {
    assert!(text_eq("same", "same"));
    assert!(!text_eq("same", "Same"));
    assert!(text_lt("1700000000000", "1700000000001"));
    assert!(text_lt("abc", "abd"));
    assert!(text_lt("ab", "abc"));
    assert!(!text_lt("abc", "abc"));
    assert!(text_lt("9", "a"));
    assert_eq!(concat2("foo", "bar"), "foobar");
    let chars = chars_of("héllo");
    assert_eq!(chars.len(), 5);
    assert_eq!(string_of_chars(&chars), "héllo");
}

#[test]
fn decimal_text_of_integers() {
    assert_eq!(i64_to_decimal(0), "0");
    assert_eq!(i64_to_decimal(1234567), "1234567");
    assert_eq!(i64_to_decimal(-42), "-42");
    assert_eq!(i64_to_decimal(i64::MIN), "-9223372036854775808");
    assert_eq!(i64_to_decimal(i64::MAX), "9223372036854775807");
    assert_eq!(u64_to_decimal(u64::MAX), "18446744073709551615");
}

#[test]
fn parse_i64_reads_as_std_does() {
    assert_eq!(parse_i64("0"), Some(0));
    assert_eq!(parse_i64("+17"), Some(17));
    assert_eq!(parse_i64("-17"), Some(-17));
    assert_eq!(parse_i64("007"), Some(7));
    assert_eq!(parse_i64("-9223372036854775808"), Some(i64::MIN));
    assert_eq!(parse_i64("9223372036854775807"), Some(i64::MAX));
    assert_eq!(parse_i64("9223372036854775808"), None);
    assert_eq!(parse_i64("-9223372036854775809"), None);
    assert_eq!(parse_i64(""), None);
    assert_eq!(parse_i64("-"), None);
    assert_eq!(parse_i64("+"), None);
    assert_eq!(parse_i64("12a"), None);
    assert_eq!(parse_i64(" 12"), None);
    for s in ["0", "+17", "-17", "007", "", "-", "12a", "99999999999999999999"] {
        assert_eq!(parse_i64(s), s.parse::<i64>().ok());
    }
}

#[test]
fn decimal_roundtrip() {
    for n in [0i64, 1, -1, 86399, -86400, 1_704_067_200, i64::MIN, i64::MAX] {
        assert_eq!(parse_i64(&i64_to_decimal(n)), Some(n));
        assert_eq!(i64_to_decimal(n), n.to_string());
    }
}

#[test]
fn clean_progress_text_is_single_spaced() {
    let lines = ["\t pulling   \x1b[K layer\n\n 3  ", "  ", "a\x1b[1Gb", "x  y\tz"];
    for line in lines.iter() {
        let out = clean_progress_text(line);
        assert!(!out.starts_with(' '));
        assert!(!out.ends_with(' '));
        assert!(!out.contains("  "));
        assert!(!out.contains('\t') && !out.contains('\n') && !out.contains('\x1b'));
    }
}

#[test]
fn clean_progress_text_drops_non_ascii_outright() {
    let lines = ["ab✓cd", "45% ▕████▏ 1 MB", "naïve café", "日本 語"];
    for line in lines.iter() {
        let ascii: String = line.chars().filter(|c| c.is_ascii()).collect();
        assert_eq!(clean_progress_text(line), clean_progress_text(&ascii));
    }
    assert_eq!(clean_progress_text("ab✓cd"), "abcd");
}
