use vpn_bot::text::chars::{
    has_last_char, has_prefix, has_text, replace_text, strip_leading_char, strip_trailing_char,
    trim_text,
};
use vpn_bot::text::chunks::{split_long, split_text_chunks};
use vpn_bot::text::number::{i64_text, parse_i64, parse_u32, parse_u64, u64_text};
use vpn_bot::text::order::{is_text_le, sort_texts, sorted_positions};
use vpn_bot::text::split::{
    join_texts, split_at_char, split_lines, split_once_at, split_once_at_whitespace, split_words,
};

fn texts(items: &[&str]) -> Vec<String> {
    items.iter().map(|s| s.to_string()).collect()
}

#[test]
fn numbers_read_back() {
    for n in [0u64, 7, 10, 999, u64::MAX] {
        assert_eq!(u64_text(n), n.to_string());
        assert_eq!(parse_u64(&u64_text(n)), Some(n));
    }
    for n in [i64::MIN, -10, -1, 0, 1, i64::MAX] {
        assert_eq!(i64_text(n), n.to_string());
        assert_eq!(parse_i64(&i64_text(n)), Some(n));
    }
}

#[test]
fn numbers_are_parsed_like_in_std() {
    let samples = [
        "", "+", "-", "+5", "-5", "--5", "007", "1 ", " 1", "1_0", "٣", "18446744073709551615",
        "18446744073709551616", "9223372036854775807", "9223372036854775808",
        "-9223372036854775808", "-9223372036854775809", "4294967295", "4294967296", "-0",
    ];
    for s in samples {
        assert_eq!(parse_u64(s), s.parse::<u64>().ok(), "{s}");
        assert_eq!(parse_u32(s), s.parse::<u32>().ok(), "{s}");
        assert_eq!(parse_i64(s), s.parse::<i64>().ok(), "{s}");
    }
}

#[test]
fn whitespace_is_that_of_std() {
    for code in 0u32..0x3100 {
        if let Some(c) = char::from_u32(code) {
            let s = format!("{c}x{c}");
            assert_eq!(trim_text(&s), s.trim());
        }
    }
    assert_eq!(trim_text(" \u{2003} "), "");
}

#[test]
fn texts_are_searched_and_replaced() {
    assert_eq!(strip_leading_char("@@a@", '@'), "a@");
    assert_eq!(strip_trailing_char("/a//", '/'), "/a");
    assert!(has_prefix("абв", "аб") && !has_prefix("a", "ab") && has_prefix("a", ""));
    assert!(has_text("xabcx", "abc") && !has_text("ab", "abc") && has_text("", ""));
    assert!(has_last_char("a/", '/') && !has_last_char("", '/'));
    for (s, p, w) in [("aaa", "aa", "b"), ("abab", "ab", ""), ("ab", "c", "d"), ("", "a", "b")] {
        assert_eq!(replace_text(s, p, w), s.replace(p, w));
    }
}

#[test]
fn texts_are_split_like_in_std() {
    for s in ["", "a", "a:b", ":", "a:b:c", "::"] {
        let expected = s.split_once(':').map(|(a, b)| (a.to_string(), b.to_string()));
        assert_eq!(split_once_at(s, ':'), expected);
        assert_eq!(split_at_char(s, ':'), s.split(':').collect::<Vec<_>>());
    }
    for s in ["", "a b", " a\tb  c\u{2003}d ", "a\n", "\n\n", "a\r\nb\n", "a\rb"] {
        let expected = s
            .split_once(char::is_whitespace)
            .map(|(a, b)| (a.to_string(), b.to_string()));
        assert_eq!(split_once_at_whitespace(s), expected, "{s:?}");
        assert_eq!(split_words(s), s.split_whitespace().collect::<Vec<_>>(), "{s:?}");
        assert_eq!(split_lines(s), s.lines().collect::<Vec<_>>(), "{s:?}");
    }
    assert_eq!(join_texts(&texts(&["a", "", "b"]), ", "), "a, , b");
    assert_eq!(join_texts(&texts(&[]), ", "), "");
}

#[test]
fn texts_are_sorted_like_in_std() {
    let items = texts(&["б", "a", "", "ab", "a", "я", "Z", "\u{10000}", "\u{ffff}"]);
    let mut expected = items.clone();
    expected.sort();
    assert_eq!(sort_texts(&items), expected);
    let mut shuffled = items.clone();
    shuffled.reverse();
    assert_eq!(sort_texts(&shuffled), expected);
    let mut positions: Vec<usize> = (0..items.len()).collect();
    positions.sort_by_key(|i| items[*i].clone());
    assert_eq!(sorted_positions(&items), positions);
    assert!(is_text_le("a", "a") && is_text_le("", "a") && !is_text_le("b", "a"));
}

#[test]
fn chunks_lose_nothing_and_stay_short() {
    let text = "ааа\nбб\n\nвввв\nг\r\nд";
    for limit in 0usize..40 {
        let chunks = split_long(text, limit);
        let kept: String = chunks.concat().chars().filter(|c| *c != '\n').collect();
        assert_eq!(kept, "аааббввввгд");
        for chunk in &chunks {
            assert!(!chunk.is_empty());
            assert!(chunk.len() <= limit || text.lines().any(|l| l == chunk));
        }
    }
}

#[test]
fn short_texts_are_kept_whole() {
    assert_eq!(split_text_chunks("a\n\n", 3), texts(&["a\n\n"]));
    assert_eq!(split_text_chunks("", 0), texts(&[""]));
    assert_eq!(split_text_chunks("a\nb", 2), texts(&["a", "b"]));
    assert!(split_long("", 5).is_empty());
}
