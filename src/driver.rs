//! The decisions of the session loop: what each terminal event does to the
//! session and what is to be drawn. The loop itself, which waits for events
//! and draws, lives with the terminal.
use vstd::prelude::*;
use crate::layout::{join, law_wrap_round_trip, normalize, words, wrap, wrapped, LayoutError};
use crate::metrics::TypingOutcome;
use crate::session::{key_step, start_screen, Intent, Key, Session};

verus! {

/// An event from the terminal.
#[derive(Debug, Clone, Copy, PartialEq, Eq, Structural)]
pub enum Event {
    /// The screen now has this width and height.
    Resize(u16, u16),
    /// A character or a backspace.
    Key(Key),
    /// The cancel key.
    Escape,
    /// The terminal gained focus.
    FocusGained,
    /// The terminal lost focus.
    FocusLost,
    /// Text was pasted.
    Paste,
    /// Any other key.
    OtherKey,
    /// Any other event.
    Other,
}

/// Where the session stands.
#[derive(Debug, Clone, Copy, PartialEq, Eq, Structural)]
pub enum Status {
    Running,
    /// Every line was typed.
    Completed,
    /// The user cancelled.
    Aborted,
}

/// What the loop is to do after one event.
pub struct Step {
    /// What to draw, in order.
    pub intents: Vec<Intent>,
    /// Whether to switch cursor blinking on or off, if at all.
    pub blink: Option<bool>,
    /// Where the session stands now.
    pub status: Status,
}

/// The width that text is wrapped to on a screen `width` cells wide.
pub open spec fn wrap_width(width: u16) -> nat {
    (width / 2) as nat
}

/// The source text, the live session and where it stands.
pub struct Driver {
    pub text: Vec<char>,
    pub session: Session,
    pub status: Status,
}

impl Driver {
    /// The session holds the text wrapped for its screen, and it is running
    /// exactly while some line is left to type.
    pub open spec fn wf(&self) -> bool {
        &&& self.session.wf()
        &&& self.session.text() == wrapped(self.text@, wrap_width(self.session.width))
        &&& (self.status == Status::Running ==> !self.session.done())
        &&& (self.status == Status::Completed ==> self.session.done())
    }

    /// A running session over `text` on a `width` by `height` screen, with
    /// the cursor on the first character. Fails on a text with no word.
    pub fn new(text: Vec<char>, width: u16, height: u16) -> (r: Result<Driver, LayoutError>)
        ensures
            r is Err <==> words(text@).len() == 0,
            r matches Ok(d) ==> {
                &&& d.wf()
                &&& d.text@ == text@
                &&& d.status == Status::Running
                &&& d.session.line == 0 && d.session.col == 0
                &&& d.session.width == width && d.session.height == height
            },
    {
        match wrap(&text, (width / 2) as usize) {
            Err(e) => Err(e),
            Ok(lines) => {
                let session = Session::new(lines, width, height);
                Ok(Driver { text, session, status: Status::Running })
            },
        }
    }

    /// Reacts to one event. A resize wraps the text anew for the new width
    /// and starts over from the first character; a key goes to the session,
    /// which completes once every line is typed; the cancel key and unknown
    /// events end the session; a change of focus switches cursor blinking;
    /// a paste or another key does nothing.
    pub fn handle(&mut self, ev: Event) -> (r: Step)
        requires
            old(self).wf(),
            old(self).status == Status::Running,
        ensures
            final(self).wf(),
            final(self).text == old(self).text,
            r.status == final(self).status,
            match ev {
                Event::Resize(w, h) => {
                    &&& final(self).session.width == w && final(self).session.height == h
                    &&& final(self).session.line == 0 && final(self).session.col == 0
                    &&& join(final(self).session.text()) == normalize(old(self).text@)
                    &&& r.intents@ == start_screen(final(self).session.text(), w as int, h as int)
                    &&& r.blink is None
                    &&& r.status == Status::Running
                },
                Event::Key(k) => {
                    &&& final(self).session.lines == old(self).session.lines
                    &&& final(self).session.width == old(self).session.width
                    &&& final(self).session.height == old(self).session.height
                    &&& (final(self).session.line as int, final(self).session.col as int, r.intents@)
                        == key_step(
                        old(self).session.text(),
                        old(self).session.width as int,
                        old(self).session.height as int,
                        old(self).session.line as int,
                        old(self).session.col as int,
                        k,
                    )
                    &&& r.blink is None
                    &&& r.status == if final(self).session.done() {
                        Status::Completed
                    } else {
                        Status::Running
                    }
                },
                _ => {
                    &&& final(self).session == old(self).session
                    &&& r.intents@.len() == 0
                    &&& r.blink == match ev {
                        Event::FocusGained => Some(true),
                        Event::FocusLost => Some(false),
                        _ => None::<bool>,
                    }
                    &&& r.status == match ev {
                        Event::Escape | Event::Other => Status::Aborted,
                        _ => Status::Running,
                    }
                },
            },
    {
        match ev {
            Event::Resize(w, h) => {
                let ghost old_text = self.session.text();
                match wrap(&self.text, (w / 2) as usize) {
                    Err(_) => {
                        assert(old_text.len() > 0);
                        Step { intents: Vec::new(), blink: None, status: self.status }
                    },
                    Ok(lines) => {
                        self.session = Session::new(lines, w, h);
                        proof {
                            law_wrap_round_trip(self.text@, wrap_width(w));
                        }
                        let intents = self.session.start_intents();
                        Step { intents, blink: None, status: Status::Running }
                    },
                }
            },
            Event::Key(k) => {
                let intents = self.session.press(k);
                if self.session.is_complete() {
                    self.status = Status::Completed;
                }
                Step { intents, blink: None, status: self.status }
            },
            Event::Escape | Event::Other => {
                self.status = Status::Aborted;
                Step { intents: Vec::new(), blink: None, status: Status::Aborted }
            },
            Event::FocusGained => Step { intents: Vec::new(), blink: Some(true), status: self.status },
            Event::FocusLost => Step { intents: Vec::new(), blink: Some(false), status: self.status },
            Event::Paste | Event::OtherKey => Step {
                intents: Vec::new(),
                blink: None,
                status: self.status,
            },
        }
    }

    /// Ends the session, however it ended, with what was typed by then.
    pub fn finish(self, elapsed_ms: u64) -> (r: TypingOutcome)
        requires
            self.wf(),
        ensures
            r.wf(),
            r.lines == self.session.lines,
            r.line == self.session.line,
            r.col == self.session.col,
            r.elapsed_ms == elapsed_ms,
    {
        TypingOutcome {
            lines: self.session.lines,
            line: self.session.line,
            col: self.session.col,
            elapsed_ms,
        }
    }
}

} // verus!
