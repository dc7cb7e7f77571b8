use typing_test::layout::{is_whitespace_char, split_into_lines, wrap, LayoutError};

fn chars(s: &str) -> Vec<char> {
    s.chars().collect()
}

fn lines_of(ls: &[Vec<char>]) -> Vec<String> {
    ls.iter().map(|l| l.iter().collect()).collect()
}

#[test]
fn wraps_greedily_at_width() {
    let ls = split_into_lines("the quick brown fox jumps", 15).unwrap();
    assert_eq!(ls, vec!["the quick brown".to_string(), "fox jumps".to_string()]);
}

#[test]
fn line_may_reach_width_exactly() {
    let ls = split_into_lines("ab cd ef", 5).unwrap();
    assert_eq!(ls, vec!["ab cd".to_string(), "ef".to_string()]);
    let ls = split_into_lines("ab cd ef", 4).unwrap();
    assert_eq!(ls, vec!["ab".to_string(), "cd".to_string(), "ef".to_string()]);
}

#[test]
fn whitespace_only_text_is_rejected() {
    assert_eq!(split_into_lines("", 10), Err(LayoutError::EmptyText));
    assert_eq!(split_into_lines(" \t\n  ", 10), Err(LayoutError::EmptyText));
    assert_eq!(wrap(&chars("   "), 3), Err(LayoutError::EmptyText));
}

#[test]
fn long_word_stands_alone() {
    let ls = split_into_lines("a verylongword b c", 5).unwrap();
    assert_eq!(
        ls,
        vec!["a".to_string(), "verylongword".to_string(), "b c".to_string()]
    );
}

#[test]
fn first_word_longer_than_width_gives_no_empty_line() {
    let ls = split_into_lines("enormous x", 3).unwrap();
    assert_eq!(ls, vec!["enormous".to_string(), "x".to_string()]);
}

#[test]
fn width_zero_puts_each_word_on_its_line() {
    let ls = split_into_lines("a b c", 0).unwrap();
    assert_eq!(ls, vec!["a".to_string(), "b".to_string(), "c".to_string()]);
}

#[test]
fn lines_fit_when_width_covers_longest_word() {
    let text = "lorem ipsum dolor sit amet consectetur adipiscing elit sed do eiusmod";
    for w in 11..40 {
        let ls = split_into_lines(text, w).unwrap();
        for l in &ls {
            assert!(l.chars().count() <= w);
            assert!(!l.is_empty());
        }
    }
}

#[test]
fn joined_lines_give_normalised_text() {
    let text = "  hello \t  world\n\nfoo   bar baz  ";
    for w in 1..20 {
        let ls = wrap(&chars(text), w).unwrap();
        assert_eq!(lines_of(&ls).join(" "), "hello world foo bar baz");
    }
}

#[test]
fn wrap_is_deterministic() {
    let text = chars("one two three four five six seven");
    assert_eq!(wrap(&text, 9), wrap(&text, 9));
}

#[test]
fn unicode_whitespace_separates_words() {
    let ls = split_into_lines("a\u{3000}b\u{a0}c", 10).unwrap();
    assert_eq!(ls, vec!["a b c".to_string()]);
    assert!(is_whitespace_char('\u{2003}'));
    assert!(is_whitespace_char('\n'));
    assert!(!is_whitespace_char('x'));
    assert!(!is_whitespace_char('\u{200b}'));
}

#[test]
fn lines_count_characters_not_bytes() {
    let ls = split_into_lines("éé éé", 5).unwrap();
    assert_eq!(ls, vec!["éé éé".to_string()]);
}

#[test]
fn whitespace_set_matches_std() {
    for code in 0u32..=0x10ffff {
        if let Some(c) = char::from_u32(code) {
            assert_eq!(is_whitespace_char(c), c.is_whitespace(), "U+{:04X}", code);
        }
    }
}
