//! The keystroke state machine of a typing session and the render intents
//! that each transition produces.
use vstd::prelude::*;
use crate::layout::{all_nonempty, total_len, view_lines};

verus! {

/// How a glyph is to be styled.
#[derive(Debug, Clone, Copy, PartialEq, Eq, Structural)]
pub enum Style {
    /// Not typed yet, or typed and then taken back.
    Untyped,
    /// Typed as expected.
    Correct,
    /// Typed wrongly.
    Incorrect,
}

/// One instruction to the terminal surface.
#[derive(Debug, Clone, Copy, PartialEq, Eq, Structural)]
pub enum Intent {
    /// Clear the whole screen.
    Clear,
    /// Move the terminal cursor to a cell.
    MoveTo { col: usize, row: usize },
    /// Print the character whose Unicode scalar value is `code` at the
    /// terminal cursor, which then moves right.
    Glyph { code: u32, style: Style },
}

/// A keystroke that the session reacts to.
#[derive(Debug, Clone, Copy, PartialEq, Eq, Structural)]
pub enum Key {
    /// A typed character.
    Char(char),
    /// Take back the last typed character.
    Backspace,
}

/// The glyph (a full block) drawn for a wrong keystroke where a space was
/// expected.
pub const SKIPPED_SPACE: u32 = 0x2588;

/// Where something `used` cells long starts when centred in `total` cells.
pub open spec fn offset(total: int, used: int) -> int {
    if used <= total {
        (total - used) / 2
    } else {
        0
    }
}

/// Cell `idx` of something `used` cells long, centred in `total` cells.
pub fn centred(total: u16, used: usize, idx: usize) -> (r: usize)
    requires
        idx < used,
    ensures
        r == offset(total as int, used as int) + idx,
{
    if used <= total as usize {
        (total as usize - used) / 2 + idx
    } else {
        idx
    }
}

/// The cursor `(line, col)` addresses a character of `ls`, or is the
/// end-of-session position `(ls.len(), 0)`.
pub open spec fn cursor_ok(ls: Seq<Seq<char>>, line: int, col: int) -> bool {
    (0 <= line < ls.len() && 0 <= col < ls[line].len()) || (line == ls.len() && col == 0)
}

/// The cursor after one character is typed at `(line, col)`.
pub open spec fn next_pos(ls: Seq<Seq<char>>, line: int, col: int) -> (int, int) {
    if col + 1 >= ls[line].len() {
        (line + 1, 0)
    } else {
        (line, col + 1)
    }
}

/// The cursor after a backspace at `(line, col)`.
pub open spec fn prev_pos(ls: Seq<Seq<char>>, line: int, col: int) -> (int, int) {
    if col > 0 {
        (line, col - 1)
    } else if line > 0 {
        (line - 1, ls[line - 1].len() - 1)
    } else {
        (0, 0)
    }
}

/// The screen cell of character `(line, col)` of `ls` laid out centred on a
/// `width` by `height` screen.
pub open spec fn cell(ls: Seq<Seq<char>>, width: int, height: int, line: int, col: int) -> Intent {
    Intent::MoveTo {
        col: (offset(width, ls[line].len() as int) + col) as usize,
        row: (offset(height, ls.len() as int) + line) as usize,
    }
}

/// The feedback glyph for `typed` where `expected` was due.
pub open spec fn feedback(expected: char, typed: char) -> Intent {
    if typed == expected {
        Intent::Glyph { code: typed as u32, style: Style::Correct }
    } else if expected == ' ' {
        Intent::Glyph { code: SKIPPED_SPACE, style: Style::Incorrect }
    } else {
        Intent::Glyph { code: typed as u32, style: Style::Incorrect }
    }
}

/// What is drawn when `typed` is typed at `(line, col)`: its feedback glyph,
/// then, where the cursor moves on to a next line, a move to that line.
pub open spec fn char_intents(
    ls: Seq<Seq<char>>,
    width: int,
    height: int,
    line: int,
    col: int,
    typed: char,
) -> Seq<Intent> {
    let g = feedback(ls[line][col], typed);
    let (l2, c2) = next_pos(ls, line, col);
    if l2 != line && l2 < ls.len() {
        seq![g, cell(ls, width, height, l2, 0)]
    } else {
        seq![g]
    }
}

/// What is drawn on a backspace at `(line, col)`: nothing at the origin,
/// else the character stepped back onto, redrawn untyped, with the terminal
/// cursor left on it.
pub open spec fn back_intents(
    ls: Seq<Seq<char>>,
    width: int,
    height: int,
    line: int,
    col: int,
) -> Seq<Intent> {
    if line == 0 && col == 0 {
        seq![]
    } else {
        let (l2, c2) = prev_pos(ls, line, col);
        let at = cell(ls, width, height, l2, c2);
        seq![at, Intent::Glyph { code: ls[l2][c2] as u32, style: Style::Untyped }, at]
    }
}

/// The cursor and the intents after `key` at `(line, col)`. A character
/// typed once the session is complete changes nothing.
pub open spec fn key_step(
    ls: Seq<Seq<char>>,
    width: int,
    height: int,
    line: int,
    col: int,
    key: Key,
) -> (int, int, Seq<Intent>) {
    match key {
        Key::Char(c) => if line < ls.len() {
            let (l2, c2) = next_pos(ls, line, col);
            (l2, c2, char_intents(ls, width, height, line, col, c))
        } else {
            (line, col, seq![])
        },
        Key::Backspace => {
            let (l2, c2) = prev_pos(ls, line, col);
            (l2, c2, back_intents(ls, width, height, line, col))
        },
    }
}

/// The cursor and all intents after `keys`, one after the other, from
/// `(line, col)`.
pub open spec fn replay_keys(
    ls: Seq<Seq<char>>,
    width: int,
    height: int,
    line: int,
    col: int,
    keys: Seq<Key>,
) -> (int, int, Seq<Intent>)
    decreases keys.len(),
{
    if keys.len() == 0 {
        (line, col, seq![])
    } else {
        let (l1, c1, i1) = replay_keys(ls, width, height, line, col, keys.drop_last());
        let (l2, c2, i2) = key_step(ls, width, height, l1, c1, keys.last());
        (l2, c2, i1 + i2)
    }
}

/// The glyphs of line `l`, untyped.
pub open spec fn line_glyphs(l: Seq<char>) -> Seq<Intent>
    decreases l.len(),
{
    if l.len() == 0 {
        seq![]
    } else {
        line_glyphs(l.drop_last()).push(Intent::Glyph { code: l.last() as u32, style: Style::Untyped })
    }
}

/// The first `k` lines of `ls`, each drawn untyped from its first cell.
pub open spec fn draw_lines(ls: Seq<Seq<char>>, width: int, height: int, k: int) -> Seq<Intent>
    decreases k,
{
    if k <= 0 {
        seq![]
    } else {
        draw_lines(ls, width, height, k - 1) + seq![cell(ls, width, height, k - 1, 0)]
            + line_glyphs(ls[k - 1])
    }
}

/// The whole screen at the start of a session: cleared, every line drawn
/// untyped, and the terminal cursor on the first character.
pub open spec fn start_screen(ls: Seq<Seq<char>>, width: int, height: int) -> Seq<Intent> {
    seq![Intent::Clear] + draw_lines(ls, width, height, ls.len() as int) + seq![
        cell(ls, width, height, 0, 0),
    ]
}

/// Typing a character and then taking it back with a backspace leaves the
/// cursor where it was before the character.
pub proof fn law_backspace_undoes_char(ls: Seq<Seq<char>>, line: int, col: int)
    requires
        0 <= line < ls.len(),
        0 <= col < ls[line].len(),
    ensures
        ({
            let (l1, c1) = next_pos(ls, line, col);
            prev_pos(ls, l1, c1) == (line, col)
        }),
{
}

/// Replaying the same keys from the same state always gives the same cursor
/// and the same intents.
pub proof fn law_replay_deterministic(a: Session, b: Session, keys: Seq<Key>)
    requires
        a.text() == b.text(),
        a.width == b.width,
        a.height == b.height,
        a.line == b.line,
        a.col == b.col,
    ensures
        a.replay_model(keys) == b.replay_model(keys),
{
}

/// The wrapped lines of a session, its cursor and its screen size.
pub struct Session {
    pub lines: Vec<Vec<char>>,
    pub line: usize,
    pub col: usize,
    pub width: u16,
    pub height: u16,
}

impl Session {
    /// The lines as character sequences.
    pub open spec fn text(&self) -> Seq<Seq<char>> {
        view_lines(self.lines@)
    }

    /// At least one line, none empty, the character count within `usize`,
    /// and the cursor on a character or at the end.
    pub open spec fn wf(&self) -> bool {
        &&& self.lines.len() > 0
        &&& all_nonempty(self.text())
        &&& total_len(self.text()) <= usize::MAX
        &&& cursor_ok(self.text(), self.line as int, self.col as int)
    }

    /// Every line has been typed.
    pub open spec fn done(&self) -> bool {
        self.line == self.lines.len()
    }

    /// A session over `lines` on a `width` by `height` screen, with the
    /// cursor on the first character.
    pub fn new(lines: Vec<Vec<char>>, width: u16, height: u16) -> (r: Session)
        requires
            lines.len() > 0,
            all_nonempty(view_lines(lines@)),
            total_len(view_lines(lines@)) <= usize::MAX,
        ensures
            r.wf(),
            r.lines@ == lines@,
            r.line == 0 && r.col == 0,
            r.width == width && r.height == height,
    {
        let r = Session { lines, line: 0, col: 0, width, height };
        assert(r.text()[0].len() > 0);
        r
    }

    /// The cursor and all intents after `keys` from this state.
    pub open spec fn replay_model(&self, keys: Seq<Key>) -> (int, int, Seq<Intent>) {
        replay_keys(
            self.text(),
            self.width as int,
            self.height as int,
            self.line as int,
            self.col as int,
            keys,
        )
    }

    /// Whether every line has been typed.
    pub fn is_complete(&self) -> (r: bool)
        ensures
            r == self.done(),
    {
        self.line == self.lines.len()
    }

    /// Reacts to the character `c` typed at the cursor: draws its feedback
    /// and moves the cursor one character on, to the next line after the
    /// last character of a line.
    pub fn type_char(&mut self, c: char) -> (r: Vec<Intent>)
        requires
            old(self).wf(),
            !old(self).done(),
        ensures
            final(self).wf(),
            final(self).lines == old(self).lines,
            final(self).width == old(self).width,
            final(self).height == old(self).height,
            (final(self).line as int, final(self).col as int) == next_pos(
                old(self).text(),
                old(self).line as int,
                old(self).col as int,
            ),
            r@ == char_intents(
                old(self).text(),
                old(self).width as int,
                old(self).height as int,
                old(self).line as int,
                old(self).col as int,
                c,
            ),
    {
        let ghost ls = self.text();
        let li = self.line;
        let expected = self.lines[li][self.col];
        let g = if c == expected {
            Intent::Glyph { code: c as u32, style: Style::Correct }
        } else if expected == ' ' {
            Intent::Glyph { code: SKIPPED_SPACE, style: Style::Incorrect }
        } else {
            Intent::Glyph { code: c as u32, style: Style::Incorrect }
        };
        let mut r: Vec<Intent> = Vec::new();
        r.push(g);
        assert(ls[li as int].len() > 0);
        if self.col >= self.lines[li].len() - 1 {
            self.line = li + 1;
            self.col = 0;
            if self.line < self.lines.len() {
                let len = self.lines[self.line].len();
                assert(ls[self.line as int].len() > 0);
                let x = centred(self.width, len, 0);
                let y = centred(self.height, self.lines.len(), self.line);
                r.push(Intent::MoveTo { col: x, row: y });
            }
        } else {
            self.col = self.col + 1;
        }
        assert(r@ =~= char_intents(
            ls,
            self.width as int,
            self.height as int,
            li as int,
            old(self).col as int,
            c,
        ));
        r
    }

    /// Reacts to a backspace: nothing at the first character, else the
    /// cursor steps back one character, to the last character of the line
    /// before from the start of a line, and that character is redrawn untyped.
    pub fn backspace(&mut self) -> (r: Vec<Intent>)
        requires
            old(self).wf(),
        ensures
            final(self).wf(),
            final(self).lines == old(self).lines,
            final(self).width == old(self).width,
            final(self).height == old(self).height,
            (final(self).line as int, final(self).col as int) == prev_pos(
                old(self).text(),
                old(self).line as int,
                old(self).col as int,
            ),
            r@ == back_intents(
                old(self).text(),
                old(self).width as int,
                old(self).height as int,
                old(self).line as int,
                old(self).col as int,
            ),
    {
        let ghost ls = self.text();
        let mut r: Vec<Intent> = Vec::new();
        if self.line == 0 && self.col == 0 {
            return r;
        }
        if self.col > 0 {
            self.col = self.col - 1;
        } else {
            self.line = self.line - 1;
            assert(ls[self.line as int].len() > 0);
            self.col = self.lines[self.line].len() - 1;
        }
        let len = self.lines[self.line].len();
        let x = centred(self.width, len, self.col);
        let y = centred(self.height, self.lines.len(), self.line);
        let at = Intent::MoveTo { col: x, row: y };
        r.push(at);
        let ch = self.lines[self.line][self.col];
        assert(ch == ls[self.line as int][self.col as int]);
        r.push(Intent::Glyph { code: ch as u32, style: Style::Untyped });
        r.push(at);
        assert(ls[self.line as int] == self.lines@[self.line as int]@);
        assert(prev_pos(ls, old(self).line as int, old(self).col as int) == (
        self.line as int,
        self.col as int,
        ));
        assert(at == cell(ls, self.width as int, self.height as int, self.line as int, self.col as int));
        assert(r@ =~= back_intents(
            ls,
            self.width as int,
            self.height as int,
            old(self).line as int,
            old(self).col as int,
        ));
        r
    }

    /// Reacts to one keystroke as `type_char` and `backspace` do; a
    /// character typed once every line is typed changes nothing.
    pub fn press(&mut self, key: Key) -> (r: Vec<Intent>)
        requires
            old(self).wf(),
        ensures
            final(self).wf(),
            final(self).lines == old(self).lines,
            final(self).width == old(self).width,
            final(self).height == old(self).height,
            (final(self).line as int, final(self).col as int, r@) == key_step(
                old(self).text(),
                old(self).width as int,
                old(self).height as int,
                old(self).line as int,
                old(self).col as int,
                key,
            ),
    {
        match key {
            Key::Char(c) => if self.is_complete() {
                Vec::new()
            } else {
                self.type_char(c)
            },
            Key::Backspace => self.backspace(),
        }
    }

    /// Reacts to `keys` one after the other, and returns all intents in
    /// order.
    pub fn replay(&mut self, keys: &Vec<Key>) -> (r: Vec<Intent>)
        requires
            old(self).wf(),
        ensures
            final(self).wf(),
            final(self).lines == old(self).lines,
            final(self).width == old(self).width,
            final(self).height == old(self).height,
            (final(self).line as int, final(self).col as int, r@) == old(self).replay_model(
                keys@,
            ),
    {
        let mut r: Vec<Intent> = Vec::new();
        let mut k: usize = 0;
        while k < keys.len()
            invariant
                k <= keys.len(),
                self.wf(),
                self.lines == old(self).lines,
                self.width == old(self).width,
                self.height == old(self).height,
                (self.line as int, self.col as int, r@) == old(self).replay_model(
                    keys@.take(k as int),
                ),
            decreases keys.len() - k,
        {
            let ghost r0 = r@;
            let mut step = self.press(keys[k]);
            r.append(&mut step);
            proof {
                assert(keys@.take(k as int + 1).drop_last() =~= keys@.take(k as int));
                assert(keys@.take(k as int + 1).last() == keys@[k as int]);
            }
            k = k + 1;
        }
        assert(keys@.take(k as int) =~= keys@);
        r
    }

    /// The whole screen at the start of the session.
    pub fn start_intents(&self) -> (r: Vec<Intent>)
        requires
            self.wf(),
        ensures
            r@ == start_screen(self.text(), self.width as int, self.height as int),
    {
        let ghost ls = self.text();
        let ghost w = self.width as int;
        let ghost h = self.height as int;
        let mut r: Vec<Intent> = Vec::new();
        r.push(Intent::Clear);
        let n = self.lines.len();
        let mut i: usize = 0;
        while i < n
            invariant
                n == self.lines.len(),
                self.wf(),
                ls == self.text(),
                w == self.width as int,
                h == self.height as int,
                i <= n,
                r@ == seq![Intent::Clear] + draw_lines(ls, w, h, i as int),
            decreases n - i,
        {
            let line = &self.lines[i];
            assert(ls[i as int].len() > 0);
            let x = centred(self.width, line.len(), 0);
            let y = centred(self.height, n, i);
            let ghost r0 = r@;
            r.push(Intent::MoveTo { col: x, row: y });
            let mut k: usize = 0;
            while k < line.len()
                invariant
                    i < n,
                    n == ls.len(),
                    k <= line.len(),
                    line@ == ls[i as int],
                    r@ == r0 + seq![cell(ls, w, h, i as int, 0)] + line_glyphs(line@.take(k as int)),
                decreases line.len() - k,
            {
                r.push(Intent::Glyph { code: line[k] as u32, style: Style::Untyped });
                assert(line@.take(k as int + 1).drop_last() =~= line@.take(k as int));
                assert(line@.take(k as int + 1).last() == line@[k as int]);
                assert(line_glyphs(line@.take(k as int + 1)) == line_glyphs(line@.take(k as int)).push(
                    Intent::Glyph { code: line@[k as int] as u32, style: Style::Untyped },
                ));
                k = k + 1;
                assert(r@ =~= r0 + seq![cell(ls, w, h, i as int, 0)] + line_glyphs(line@.take(k as int)));
            }
            assert(line@.take(k as int) =~= line@);
            i = i + 1;
            assert(r@ =~= seq![Intent::Clear] + draw_lines(ls, w, h, i as int));
        }
        assert(ls[0].len() > 0);
        let x = centred(self.width, self.lines[0].len(), 0);
        let y = centred(self.height, n, 0);
        r.push(Intent::MoveTo { col: x, row: y });
        assert(r@ =~= start_screen(ls, w, h));
        r
    }
}

} // verus!
