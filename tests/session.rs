use typing_test::session::{Intent, Key, Session, Style, SKIPPED_SPACE};

fn lines(ls: &[&str]) -> Vec<Vec<char>> {
    ls.iter().map(|l| l.chars().collect()).collect()
}

fn glyph(c: char, style: Style) -> Intent {
    Intent::Glyph { code: c as u32, style }
}

#[test]
fn correct_character_advances_in_line() {
    let mut s = Session::new(lines(&["ab", "cd"]), 10, 10);
    let r = s.type_char('a');
    assert_eq!(r, vec![glyph('a', Style::Correct)]);
    assert_eq!((s.line, s.col), (0, 1));
}

#[test]
fn wrong_character_shows_typed_glyph() {
    let mut s = Session::new(lines(&["ab"]), 10, 10);
    let r = s.type_char('x');
    assert_eq!(r, vec![glyph('x', Style::Incorrect)]);
}

#[test]
fn wrong_character_on_space_shows_block() {
    let mut s = Session::new(lines(&["a b"]), 10, 10);
    s.type_char('a');
    let r = s.type_char('x');
    assert_eq!(
        r,
        vec![Intent::Glyph { code: SKIPPED_SPACE, style: Style::Incorrect }]
    );
    assert_eq!(SKIPPED_SPACE, '\u{2588}' as u32);
}

#[test]
fn end_of_line_moves_to_next_line_centred() {
    // screen 10 x 10, two lines: top row (10 - 2) / 2 = 4
    let mut s = Session::new(lines(&["ab", "cdef"]), 10, 10);
    s.type_char('a');
    let r = s.type_char('b');
    assert_eq!(
        r,
        vec![glyph('b', Style::Correct), Intent::MoveTo { col: 3, row: 5 }]
    );
    assert_eq!((s.line, s.col), (1, 0));
}

#[test]
fn last_character_completes_session() {
    let mut s = Session::new(lines(&["a"]), 10, 10);
    assert!(!s.is_complete());
    let r = s.type_char('a');
    assert_eq!(r, vec![glyph('a', Style::Correct)]);
    assert!(s.is_complete());
    assert_eq!((s.line, s.col), (1, 0));
}

#[test]
fn backspace_at_origin_does_nothing() {
    let mut s = Session::new(lines(&["ab"]), 10, 10);
    let r = s.backspace();
    assert!(r.is_empty());
    assert_eq!((s.line, s.col), (0, 0));
}

#[test]
fn backspace_within_line_redraws_untyped() {
    // line "abc" centred in 11 columns starts at 4; one line in 5 rows: row 2
    let mut s = Session::new(lines(&["abc"]), 11, 5);
    s.type_char('x');
    let r = s.backspace();
    let at = Intent::MoveTo { col: 4, row: 2 };
    assert_eq!(r, vec![at, glyph('a', Style::Untyped), at]);
    assert_eq!((s.line, s.col), (0, 0));
}

#[test]
fn backspace_across_line_boundary() {
    let mut s = Session::new(lines(&["ab", "cd"]), 10, 10);
    s.type_char('a');
    s.type_char('b');
    let r = s.backspace();
    let at = Intent::MoveTo { col: 5, row: 4 };
    assert_eq!(r, vec![at, glyph('b', Style::Untyped), at]);
    assert_eq!((s.line, s.col), (0, 1));
}

#[test]
fn backspace_undoes_each_character() {
    let text = lines(&["hello there", "general", "k"]);
    let mut s = Session::new(text.clone(), 40, 20);
    while !s.is_complete() {
        let before = (s.line, s.col);
        let mut probe = Session::new(text.clone(), 40, 20);
        probe.line = before.0;
        probe.col = before.1;
        probe.type_char('z');
        probe.backspace();
        assert_eq!((probe.line, probe.col), before);
        s.type_char('q');
    }
}

#[test]
fn replay_is_deterministic() {
    let text = lines(&["the quick", "brown fox"]);
    let keys = vec![
        Key::Char('t'),
        Key::Char('x'),
        Key::Backspace,
        Key::Char('h'),
        Key::Char('e'),
        Key::Char(' '),
        Key::Char('q'),
        Key::Char('u'),
        Key::Char('i'),
        Key::Char('c'),
        Key::Char('k'),
        Key::Backspace,
        Key::Char('k'),
        Key::Char('b'),
    ];
    let mut a = Session::new(text.clone(), 30, 12);
    let mut b = Session::new(text, 30, 12);
    let ra = a.replay(&keys);
    let rb = b.replay(&keys);
    assert_eq!(ra, rb);
    assert_eq!((a.line, a.col), (b.line, b.col));
    assert_eq!((a.line, a.col), (1, 1));
}

#[test]
fn typing_after_completion_changes_nothing() {
    let mut s = Session::new(lines(&["a"]), 10, 10);
    s.press(Key::Char('a'));
    let r = s.press(Key::Char('b'));
    assert!(r.is_empty());
    assert!(s.is_complete());
}

#[test]
fn start_screen_draws_every_line() {
    let s = Session::new(lines(&["ab", "c"]), 6, 4);
    let r = s.start_intents();
    assert_eq!(
        r,
        vec![
            Intent::Clear,
            Intent::MoveTo { col: 2, row: 1 },
            glyph('a', Style::Untyped),
            glyph('b', Style::Untyped),
            Intent::MoveTo { col: 2, row: 2 },
            glyph('c', Style::Untyped),
            Intent::MoveTo { col: 2, row: 1 },
        ]
    );
}

#[test]
fn overlong_line_starts_at_left_edge() {
    let s = Session::new(lines(&["abcdef"]), 4, 0);
    let r = s.start_intents();
    assert_eq!(r[1], Intent::MoveTo { col: 0, row: 0 });
}
