//! The figures reported once a session is over.
use vstd::prelude::*;
use crate::layout::{
    is_whitespace_char, is_ws, lemma_words_end, lemma_words_len, total_len, view_lines, words,
};
use crate::session::cursor_ok;

verus! {

/// The number of words over all of `ls`.
pub open spec fn total_words(ls: Seq<Seq<char>>) -> nat
    decreases ls.len(),
{
    if ls.len() == 0 {
        0
    } else {
        total_words(ls.drop_last()) + words(ls.last()).len()
    }
}

/// Words typed when the session stopped at `(line, col)`: every word of the
/// lines before, and the words of the typed part of the cursor's line.
pub open spec fn typed_words(ls: Seq<Seq<char>>, line: int, col: int) -> int {
    total_words(ls.take(line)) + if line < ls.len() {
        words(ls[line].take(col)).len() as int
    } else {
        0
    }
}

/// Characters typed when the session stopped at `(line, col)`.
pub open spec fn typed_chars(ls: Seq<Seq<char>>, line: int, col: int) -> int {
    total_len(ls.take(line)) + col
}

/// `count` units over `ms` milliseconds, times `scale`, rounded to the
/// nearest whole number, halves up; zero for a session of no measurable
/// length.
pub open spec fn rate(count: int, scale: int, ms: int) -> int {
    if ms == 0 {
        0
    } else {
        (2 * count * scale + ms) / (2 * ms)
    }
}

/// Hundredths of a word per minute for each word per millisecond.
pub const PURE_SCALE: u128 = 6_000_000;

/// Hundredths of a word per minute for each character per millisecond, at
/// five characters a word.
pub const RAW_SCALE: u128 = 1_200_000;

/// The lines, the final cursor and the time of a session that is over.
pub struct TypingOutcome {
    pub lines: Vec<Vec<char>>,
    pub line: usize,
    pub col: usize,
    pub elapsed_ms: u64,
}

impl TypingOutcome {
    /// The lines as character sequences.
    pub open spec fn text(&self) -> Seq<Seq<char>> {
        view_lines(self.lines@)
    }

    /// The cursor addresses a character or the end, and the character count
    /// fits in `usize`.
    pub open spec fn wf(&self) -> bool {
        &&& total_len(self.text()) <= usize::MAX
        &&& cursor_ok(self.text(), self.line as int, self.col as int)
    }
}

/// The report of a session. Rates are in hundredths of a word per minute.
#[derive(Debug, Clone, Copy, PartialEq, Eq, Structural)]
pub struct Metrics {
    pub elapsed_secs: u64,
    pub words_typed: usize,
    pub chars_typed: usize,
    pub pure_wpm_centi: u128,
    pub raw_wpm_centi: u128,
}

/// The number of words among the first `end` characters of `s`.
pub fn count_words(s: &Vec<char>, end: usize) -> (r: usize)
    requires
        end <= s.len(),
    ensures
        r == words(s@.take(end as int)).len(),
{
    let mut cnt: usize = 0;
    let mut i: usize = 0;
    while i < end
        invariant
            i <= end <= s.len(),
            cnt == words(s@.take(i as int)).len(),
            cnt <= i,
        decreases end - i,
    {
        let ghost s1 = s@.take(i as int + 1);
        assert(s1.drop_last() =~= s@.take(i as int));
        assert(s1.last() == s@[i as int]);
        proof {
            if i > 0 {
                assert(s1[i - 1] == s@[i - 1]);
                if !is_ws(s@[i - 1]) {
                    let p = s@.take(i as int);
                    assert(p.last() == s@[i - 1]);
                    lemma_words_end(p);
                }
            }
        }
        let c = s[i];
        if !is_whitespace_char(c) && (i == 0 || is_whitespace_char(s[i - 1])) {
            cnt = cnt + 1;
        }
        i = i + 1;
    }
    cnt
}

/// Words over lines are no more than characters over them.
pub proof fn lemma_total_words(ls: Seq<Seq<char>>)
    ensures
        total_words(ls) <= total_len(ls),
    decreases ls.len(),
{
    if ls.len() > 0 {
        lemma_total_words(ls.drop_last());
        lemma_words_len(ls.last());
    }
}

/// The characters of the first `k` lines are no more than those of all.
pub proof fn lemma_total_len_prefix(ls: Seq<Seq<char>>, k: int)
    requires
        0 <= k <= ls.len(),
    ensures
        total_len(ls.take(k)) <= total_len(ls),
    decreases ls.len() - k,
{
    if k == ls.len() {
        assert(ls.take(k) =~= ls);
    } else {
        lemma_total_len_prefix(ls, k + 1);
        assert(ls.take(k + 1).drop_last() =~= ls.take(k));
    }
}

/// A cursor inside the text counts strictly fewer characters than the whole
/// text: a session stopped early, by time or by hand, is never credited with
/// all of it.
pub proof fn law_partial_outcome(ls: Seq<Seq<char>>, line: int, col: int)
    requires
        cursor_ok(ls, line, col),
        line < ls.len(),
    ensures
        0 <= typed_chars(ls, line, col) < total_len(ls),
        typed_chars(ls, line, col) < typed_chars(ls, ls.len() as int, 0),
{
    lemma_total_len_prefix(ls, line + 1);
    assert(ls.take(line + 1).drop_last() =~= ls.take(line));
    assert(ls.take(ls.len() as int) =~= ls);
}

/// Counts what was typed up to the cursor and the two rates.
pub fn compute(outcome: &TypingOutcome) -> (m: Metrics)
    requires
        outcome.wf(),
    ensures
        m.elapsed_secs == outcome.elapsed_ms / 1000,
        m.words_typed == typed_words(outcome.text(), outcome.line as int, outcome.col as int),
        m.chars_typed == typed_chars(outcome.text(), outcome.line as int, outcome.col as int),
        m.pure_wpm_centi == rate(m.words_typed as int, PURE_SCALE as int, outcome.elapsed_ms as int),
        m.raw_wpm_centi == rate(m.chars_typed as int, RAW_SCALE as int, outcome.elapsed_ms as int),
{
    let ghost ls = outcome.text();
    let mut words_typed: usize = 0;
    let mut chars_typed: usize = 0;
    let mut i: usize = 0;
    while i < outcome.line
        invariant
            ls == outcome.text(),
            outcome.wf(),
            i <= outcome.line,
            words_typed == total_words(ls.take(i as int)),
            chars_typed == total_len(ls.take(i as int)),
        decreases outcome.line - i,
    {
        proof {
            assert(ls.take(i as int + 1).drop_last() =~= ls.take(i as int));
            lemma_total_len_prefix(ls, i as int + 1);
            lemma_total_words(ls.take(i as int + 1));
        }
        let l = &outcome.lines[i];
        assert(ls.take(i as int + 1).last() == l@);
        assert(l@.take(l.len() as int) =~= l@);
        words_typed = words_typed + count_words(l, l.len());
        chars_typed = chars_typed + l.len();
        i = i + 1;
    }
    if outcome.line < outcome.lines.len() {
        let l = &outcome.lines[outcome.line];
        proof {
            let line = outcome.line as int;
            lemma_total_len_prefix(ls, line + 1);
            assert(ls.take(line + 1).drop_last() =~= ls.take(line));
            assert(ls.take(line + 1).last() == l@);
            lemma_total_words(ls.take(line));
            lemma_words_len(l@.take(outcome.col as int));
        }
        words_typed = words_typed + count_words(l, outcome.col);
        chars_typed = chars_typed + outcome.col;
    }
    let ms = outcome.elapsed_ms as u128;
    let (pure, raw) = if ms == 0 {
        (0u128, 0u128)
    } else {
        proof {
            lemma_rate_fits(words_typed as int, PURE_SCALE as int, ms as int);
            lemma_rate_fits(chars_typed as int, RAW_SCALE as int, ms as int);
        }
        (
            (2 * (words_typed as u128) * PURE_SCALE + ms) / (2 * ms),
            (2 * (chars_typed as u128) * RAW_SCALE + ms) / (2 * ms),
        )
    };
    Metrics {
        elapsed_secs: outcome.elapsed_ms / 1000,
        words_typed,
        chars_typed,
        pure_wpm_centi: pure,
        raw_wpm_centi: raw,
    }
}

/// The sums of a rate stay within `u128`.
proof fn lemma_rate_fits(count: int, scale: int, ms: int)
    requires
        0 <= count <= 0xffff_ffff_ffff_ffff,
        0 <= scale <= 6_000_000,
        0 < ms <= 0xffff_ffff_ffff_ffff,
    ensures
        0 <= 2 * count * scale + ms <= 0xffff_ffff_ffff_ffff_ffff_ffff_ffff_ffff,
        2 * count <= 0x2_0000_0000_0000_0000,
        2 * count * scale <= 0x2_0000_0000_0000_0000 * 6_000_000,
{
    assert(0 <= 2 * count * scale <= 0x2_0000_0000_0000_0000 * 6_000_000) by (nonlinear_arith)
        requires
            0 <= count <= 0xffff_ffff_ffff_ffff,
            0 <= scale <= 6_000_000,
    ;
}

} // verus!
