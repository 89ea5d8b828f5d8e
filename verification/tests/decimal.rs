use lucid::chars::{chars_of, is_text, same_chars, skip_chars, split_chars, starts_with};
use lucid::decimal::{parse_u32, parse_u64, push_decimal, push_decimal_pad2};

fn chars(s: &str) -> Vec<char> {
    s.chars().collect()
}

#[test]
fn decimal_rendering() {
    let mut s = String::from("n=");
    push_decimal(&mut s, 0);
    assert_eq!(s, "n=0");
    let mut s = String::new();
    push_decimal(&mut s, u64::MAX);
    assert_eq!(s, "18446744073709551615");
    let mut s = String::new();
    push_decimal_pad2(&mut s, 7);
    push_decimal_pad2(&mut s, 42);
    push_decimal_pad2(&mut s, 123);
    assert_eq!(s, "0742123");
}

#[test]
fn parsing_like_str_parse() {
    for text in ["0", "+0", "007", "42", "+42", "18446744073709551615", "18446744073709551616", "", "+", "-1", "1_000", " 1", "1 ", "++1", "٣"] {
        assert_eq!(parse_u64(&chars(text)), text.parse::<u64>().ok(), "{text:?}");
        assert_eq!(parse_u32(&chars(text)), text.parse::<u32>().ok(), "{text:?}");
    }
    assert_eq!(parse_u32(&chars("4294967295")), Some(u32::MAX));
    assert_eq!(parse_u32(&chars("4294967296")), None);
}

#[test]
fn rendered_numbers_parse_back() {
    for n in [0u64, 9, 10, 99, 100, 123456789, u64::MAX] {
        let mut s = String::new();
        push_decimal(&mut s, n);
        assert_eq!(parse_u64(&chars(&s)), Some(n));
    }
}

#[test]
fn character_helpers() {
    assert_eq!(chars_of("a—b"), vec!['a', '—', 'b']);
    assert!(same_chars(&chars("abc"), &chars("abc")));
    assert!(!same_chars(&chars("abc"), &chars("abd")));
    assert!(!same_chars(&chars("ab"), &chars("abc")));
    assert!(is_text(&chars("quit"), "quit"));
    assert!(!is_text(&chars("quit"), "quits"));
    assert!(starts_with(&chars("dur:900"), &chars("dur:")));
    assert!(!starts_with(&chars("du"), &chars("dur:")));
    assert!(!starts_with(&chars("pomo:1"), &chars("dur:")));
    assert_eq!(skip_chars(&chars("dur:900"), 4), chars("900"));
    assert_eq!(skip_chars(&chars("ab"), 2), Vec::<char>::new());
}

#[test]
fn splitting_like_str_split() {
    for text in ["", ":", "a", "a:b", "1500:300:900:4", "::a::", "a:"] {
        let expected: Vec<Vec<char>> = text.split(':').map(|p| p.chars().collect()).collect();
        assert_eq!(split_chars(&chars(text), ':'), expected, "{text:?}");
    }
}
