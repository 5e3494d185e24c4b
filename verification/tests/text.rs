use shiyue::number::{decimal_i64, decimal_u64, parse_i32, parse_i64, parse_natural};
use shiyue::text::{
    chars_of, contains_text, find_from, is_blank, is_before, join_texts, split_at_char,
    split_lines, split_words, string_of, trimmed, without_prefixes,
};

fn strings(parts: Vec<Vec<char>>) -> Vec<String> {
    parts.iter().map(|p| string_of(p)).collect()
}

#[test]
fn numbers_are_written_and_read_back() {
    for n in [0, 7, -7, 10, i64::MAX, i64::MIN] {
        assert_eq!(decimal_i64(n), n.to_string());
        assert_eq!(parse_i64(&n.to_string()), Some(n));
    }
    assert_eq!(decimal_u64(u64::MAX), u64::MAX.to_string());
}

#[test]
fn numbers_are_read_as_std_does() {
    for text in ["", "+", "-", "+5", "-0", "007", "9223372036854775808", " 1", "1a"] {
        assert_eq!(parse_i64(text), text.parse::<i64>().ok(), "{text:?}");
    }
    for text in ["2147483647", "2147483648", "-2147483648", "+1"] {
        assert_eq!(parse_i32(text), text.parse::<i32>().ok(), "{text:?}");
    }
    assert_eq!(parse_natural(&['2', '5', '5'], 255), Some(255));
    assert_eq!(parse_natural(&['2', '5', '6'], 255), None);
}

#[test]
fn texts_are_split_as_std_does() {
    for text in ["", " a  b\u{3000}c ", "a\tb\n", "\u{85}x", "one"] {
        let expected: Vec<String> = text.split_whitespace().map(|w| w.to_string()).collect();
        assert_eq!(strings(split_words(&chars_of(text))), expected);
        assert_eq!(trimmed(text), text.trim());
        assert_eq!(is_blank(text), text.trim().is_empty());
        let parts: Vec<String> = text.split('\n').map(|w| w.to_string()).collect();
        assert_eq!(strings(split_at_char(&chars_of(text), '\n')), parts);
    }
    for text in ["", "a", "a\n", "a\r\nb", "\n\n", "a\rb"] {
        let expected: Vec<String> = text.lines().map(|w| w.to_string()).collect();
        assert_eq!(strings(split_lines(&chars_of(text))), expected, "{text:?}");
    }
}

#[test]
fn substrings_are_found() {
    let text = chars_of("乡音让内容有乡音");
    assert_eq!(find_from(&text, &['乡', '音'], 0), Some(0));
    assert_eq!(find_from(&text, &['乡', '音'], 1), Some(6));
    assert_eq!(find_from(&text, &['无'], 0), None);
    assert!(contains_text(&text, "内容"));
    assert!(!contains_text(&text, "容内"));
}

#[test]
fn pieces_are_joined_and_cut() {
    assert_eq!(
        join_texts(&["a".to_string(), "b".to_string()], "，"),
        "a，b"
    );
    assert_eq!(join_texts(&[], "，"), "");
    assert_eq!(
        string_of(&without_prefixes(&chars_of("www.www.a"), "www.")),
        "www.www.a".trim_start_matches("www.")
    );
    assert!(is_before(&['a'], &['a', 'b']));
    assert!(is_before(&['a', 'z'], &['b']));
    assert!(!is_before(&['a'], &['a']));
}
