use file_manager::tags::{contains_text, insert_sorted, text_less};
use file_manager::text::{
    chars_of, find_seq, is_whitespace_char, parse_usize, seq_contains, split_runs, string_of,
    sub_chars, text_contains, text_eq, text_starts_with,
};

#[test]
fn chars_and_strings_round_trip() {
    let cs = chars_of("a中b");
    assert_eq!(cs, vec!['a', '中', 'b']);
    assert_eq!(string_of(&cs), "a中b");
    assert_eq!(string_of(&sub_chars(&cs, 1, 3)), "中b");
}

#[test]
fn whitespace_is_unicode_white_space() {
    assert!(is_whitespace_char(' '));
    assert!(is_whitespace_char('\u{3000}'));
    assert!(is_whitespace_char('\n'));
    assert!(!is_whitespace_char('#'));
    assert!(!is_whitespace_char(','));
}

#[test]
fn split_into_runs() {
    let runs = split_runs(&chars_of("  a b,c  "), true);
    let texts: Vec<String> = runs.iter().map(string_of).collect();
    assert_eq!(texts, vec!["a".to_string(), "b".to_string(), "c".to_string()]);
    let runs = split_runs(&chars_of("b,c d"), false);
    let texts: Vec<String> = runs.iter().map(string_of).collect();
    assert_eq!(texts, vec!["b,c".to_string(), "d".to_string()]);
    assert!(split_runs(&chars_of("   "), false).is_empty());
}

#[test]
fn searching_text() {
    assert!(text_contains("hello world", "o w"));
    assert!(text_contains("abc", ""));
    assert!(!text_contains("abc", "abcd"));
    assert!(seq_contains(&chars_of("项目计划"), &chars_of("计划")));
    assert!(text_starts_with("https://x", "https://"));
    assert!(!text_starts_with("http", "https"));
    assert_eq!(find_seq(&chars_of("a://b://"), &chars_of("://")), Some(1));
    assert_eq!(find_seq(&chars_of("abc"), &chars_of("x")), None);
    assert!(text_eq("同", "同"));
    assert!(!text_eq("a", "b"));
}

#[test]
fn decimal_numbers() {
    assert_eq!(parse_usize("0"), Some(0));
    assert_eq!(parse_usize("42"), Some(42));
    assert_eq!(parse_usize("007"), Some(7));
    assert_eq!(parse_usize("+5"), Some(5));
    assert_eq!(parse_usize("+"), None);
    assert_eq!(parse_usize(""), None);
    assert_eq!(parse_usize("-1"), None);
    assert_eq!(parse_usize("1a"), None);
    assert_eq!(parse_usize("99999999999999999999999"), None);
}

#[test]
fn text_order_and_sorted_sets() {
    assert!(text_less("#a", "#b"));
    assert!(text_less("#a", "#ab"));
    assert!(!text_less("#b", "#a"));
    assert!(!text_less("x", "x"));
    let mut v: Vec<String> = Vec::new();
    insert_sorted(&mut v, "#b".to_string());
    insert_sorted(&mut v, "#a".to_string());
    insert_sorted(&mut v, "#b".to_string());
    assert_eq!(v, vec!["#a".to_string(), "#b".to_string()]);
    assert!(contains_text(&v, &"#a".to_string()));
    assert!(!contains_text(&v, &"#c".to_string()));
}
