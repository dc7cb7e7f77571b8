use typing_test::driver::{Driver, Event, Status};
use typing_test::layout::{split_into_lines, LayoutError};
use typing_test::metrics::compute;
use typing_test::session::{Intent, Key};

fn chars(s: &str) -> Vec<char> {
    s.chars().collect()
}

fn shown(d: &Driver) -> Vec<String> {
    d.session.lines.iter().map(|l| l.iter().collect()).collect()
}

#[test]
fn driver_rejects_empty_text() {
    assert!(matches!(Driver::new(chars("  \n "), 80, 24), Err(LayoutError::EmptyText)));
}

#[test]
fn driver_wraps_to_half_the_width() {
    let d = Driver::new(chars("the quick brown fox jumps"), 30, 24).unwrap();
    assert_eq!(shown(&d), vec!["the quick brown", "fox jumps"]);
    assert_eq!(d.status, Status::Running);
}

#[test]
fn resize_mid_session_resets_cursor_and_rewraps() {
    let text = "the quick brown fox jumps over the lazy dog";
    let mut d = Driver::new(chars(text), 40, 24).unwrap();
    for c in "the quick brown fox".chars() {
        d.handle(Event::Key(Key::Char(c)));
    }
    assert!(d.session.line > 0 || d.session.col > 0);
    let step = d.handle(Event::Resize(20, 10));
    assert_eq!((d.session.line, d.session.col), (0, 0));
    assert_eq!(step.status, Status::Running);
    assert_eq!(step.intents[0], Intent::Clear);
    let expected = split_into_lines(text, 10).unwrap();
    assert_eq!(shown(&d), expected);
    assert_eq!(shown(&d).join(" "), text);
    assert_eq!(step.intents, d.session.start_intents());
}

#[test]
fn typing_every_character_completes() {
    let mut d = Driver::new(chars("ab cd"), 6, 10).unwrap();
    let mut last = Status::Running;
    for c in "abcd".chars() {
        last = d.handle(Event::Key(Key::Char(c))).status;
    }
    assert_eq!(last, Status::Completed);
    assert_eq!(d.status, Status::Completed);
}

#[test]
fn escape_and_unknown_events_abort() {
    let mut d = Driver::new(chars("ab"), 80, 24).unwrap();
    let s = d.handle(Event::Escape);
    assert_eq!(s.status, Status::Aborted);
    assert!(s.intents.is_empty());
    let mut d = Driver::new(chars("ab"), 80, 24).unwrap();
    assert_eq!(d.handle(Event::Other).status, Status::Aborted);
}

#[test]
fn focus_switches_blinking_and_paste_is_ignored() {
    let mut d = Driver::new(chars("ab"), 80, 24).unwrap();
    assert_eq!(d.handle(Event::FocusGained).blink, Some(true));
    assert_eq!(d.handle(Event::FocusLost).blink, Some(false));
    let s = d.handle(Event::Paste);
    assert_eq!(s.blink, None);
    assert_eq!(s.status, Status::Running);
    assert_eq!(d.handle(Event::OtherKey).status, Status::Running);
    assert_eq!((d.session.line, d.session.col), (0, 0));
}

#[test]
fn timeout_mid_text_reports_typed_prefix() {
    let mut d = Driver::new(chars("the quick brown fox jumps"), 30, 24).unwrap();
    for c in "the quick brown fox ".chars() {
        if c != ' ' || d.session.col > 0 {
            d.handle(Event::Key(Key::Char(c)));
        }
    }
    assert_eq!((d.session.line, d.session.col), (1, 4));
    let o = d.finish(6000);
    let m = compute(&o);
    assert_eq!(m.words_typed, 4);
    assert_eq!(m.chars_typed, 19);
    assert!(m.chars_typed < 24);
    assert_eq!(m.pure_wpm_centi, 4000);
    assert_eq!(m.raw_wpm_centi, 3800);
}
