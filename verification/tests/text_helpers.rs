use fastsave::decimal::{parse_u32_from, push_decimal};
use fastsave::lines::{holds_text, is_space, split_nonblank_lines, trim_chars};
use fastsave::text::{chars_of, push_all, same_text, starts_with, string_of, without_leading_dots};

fn chars(s: &str) -> Vec<char> {
    s.chars().collect()
}

fn text(v: &Vec<char>) -> String {
    v.iter().collect()
}

#[test]
fn chars_and_strings_convert_both_ways() {
    assert_eq!(chars_of("héllo ✓"), chars("héllo ✓"));
    assert_eq!(chars_of(""), Vec::<char>::new());
    assert_eq!(string_of(&chars("héllo ✓")), "héllo ✓");
    assert_eq!(string_of(&Vec::new()), "");
}

#[test]
fn starts_with_compares_prefixes() {
    assert!(starts_with(&chars("2024-05-01_sim_run3"), &chars("2024-05-01_sim_run")));
    assert!(starts_with(&chars("abc"), &chars("")));
    assert!(starts_with(&chars("abc"), &chars("abc")));
    assert!(!starts_with(&chars("abc"), &chars("abcd")));
    assert!(!starts_with(&chars("abc"), &chars("abd")));
}

#[test]
fn push_all_appends_in_order() {
    let mut out = chars("ab");
    push_all(&mut out, &chars("cd"));
    assert_eq!(text(&out), "abcd");
    push_all(&mut out, &Vec::new());
    assert_eq!(text(&out), "abcd");
}

#[test]
fn same_text_is_equality() {
    assert!(same_text("py", "py"));
    assert!(!same_text("py", "Py"));
    assert!(!same_text("py", "pyc"));
    assert!(same_text("", ""));
}

#[test]
fn leading_dots_are_stripped() {
    for s in ["py", ".py", "..py", "", ".", "...", "a.b", ".a.b."] {
        assert_eq!(without_leading_dots(s), s.trim_start_matches('.'));
    }
}

#[test]
fn decimal_notation_matches_display() {
    for n in [0u32, 1, 9, 10, 11, 99, 100, 101, 4096, 1_000_000, u32::MAX - 1, u32::MAX] {
        let mut out = chars("run");
        push_decimal(&mut out, n);
        assert_eq!(text(&out), format!("run{}", n));
    }
}

#[test]
fn parsing_matches_u32_from_str() {
    let cases = [
        "", "0", "1", "7", "007", "42", "+5", "+", "-1", "-0", "++1", "+-1", "1+", "12a", "a12",
        " 1", "1 ", "4294967295", "4294967296", "+4294967295", "00004294967295", "99999999999",
        "18446744073709551616", "１２", "1_000", "0x10", "٣",
    ];
    for s in cases {
        assert_eq!(parse_u32_from(&chars(s), 0), s.parse::<u32>().ok(), "parsing {:?}", s);
    }
}

#[test]
fn parsing_starts_at_the_given_position() {
    let entry = chars("2024-05-01_sim_run12");
    assert_eq!(parse_u32_from(&entry, 18), Some(12));
    assert_eq!(parse_u32_from(&entry, 19), Some(2));
    assert_eq!(parse_u32_from(&entry, 20), None);
    assert_eq!(parse_u32_from(&entry, 17), None);
}

#[test]
fn parsing_reads_back_what_was_written() {
    for n in [0u32, 5, 10, 123, 65_535, u32::MAX] {
        let mut out = Vec::new();
        push_decimal(&mut out, n);
        assert_eq!(parse_u32_from(&out, 0), Some(n));
    }
}

#[test]
fn white_space_is_what_char_says_it_is() {
    for code in 0u32..=0x10ffff {
        if let Some(c) = char::from_u32(code) {
            assert_eq!(is_space(c), c.is_whitespace(), "U+{:04X}", code);
        }
    }
}

#[test]
fn text_is_anything_but_white_space() {
    for s in ["", " ", "\n\t\r ", "\u{a0}\u{3000}", "a", "  a  ", "\u{200b}", " . "] {
        assert_eq!(holds_text(&chars(s)), !s.trim().is_empty(), "text in {:?}", s);
    }
}

#[test]
fn trimming_matches_str_trim() {
    let cases = [
        "", " ", "a", " a", "a ", "  a b  ", "\n\tmain\r\n", "\u{a0}x\u{3000}", " \u{200b} ",
        "\u{2028}line\u{2029}", "no-space", "   ",
    ];
    for s in cases {
        assert_eq!(text(&trim_chars(&chars(s))), s.trim(), "trimming {:?}", s);
    }
}

#[test]
fn nonblank_lines_match_str_lines() {
    let cases = [
        "", "a", "a\n", "a\nb", "a\n\nb\n", "\n", "\n\n", "a\r\nb\r\n", "a\r", "a\r\n", "\r\n",
        "\r", "a\r\r\nb", " M src/lib.rs\n?? new_file.txt", "x\n\r\ny", "\ra\n", " \n\t\n x \n",
        "  ", " a", "a \n \nb\u{a0}\n\u{3000}\n",
    ];
    for s in cases {
        let expected: Vec<String> = s
            .lines()
            .filter(|line| !line.trim().is_empty())
            .map(|line| line.to_string())
            .collect();
        assert_eq!(split_nonblank_lines(&chars(s)), expected, "lines of {:?}", s);
    }
}
