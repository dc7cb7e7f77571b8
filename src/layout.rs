//! Greedy word wrap of a source text into display lines.
use vstd::prelude::*;

verus! {

/// Whether `c` is a Unicode `White_Space` character, the set that
/// `char::is_whitespace` and `str::split_whitespace` use.
pub open spec fn is_ws(c: char) -> bool {
    c == ' ' || ('\t' <= c && c <= '\r') || c == '\u{85}' || c == '\u{a0}' || c == '\u{1680}'
        || ('\u{2000}' <= c && c <= '\u{200a}') || c == '\u{2028}' || c == '\u{2029}'
        || c == '\u{202f}' || c == '\u{205f}' || c == '\u{3000}'
}

/// Decides `is_ws`.
pub fn is_whitespace_char(c: char) -> (r: bool)
    ensures
        r == is_ws(c),
{
    c == ' ' || ('\t' <= c && c <= '\r') || c == '\u{85}' || c == '\u{a0}' || c == '\u{1680}'
        || ('\u{2000}' <= c && c <= '\u{200a}') || c == '\u{2028}' || c == '\u{2029}'
        || c == '\u{202f}' || c == '\u{205f}' || c == '\u{3000}'
}

/// The maximal runs of non-whitespace characters of `s`, in order.
pub open spec fn words(s: Seq<char>) -> Seq<Seq<char>>
    decreases s.len(),
{
    if s.len() == 0 {
        seq![]
    } else {
        let p = words(s.drop_last());
        let c = s.last();
        if is_ws(c) {
            p
        } else if s.len() >= 2 && !is_ws(s[s.len() - 2]) {
            p.update(p.len() - 1, p.last().push(c))
        } else {
            p.push(seq![c])
        }
    }
}

/// The lines `ls` joined by single spaces.
pub open spec fn join(ls: Seq<Seq<char>>) -> Seq<char>
    decreases ls.len(),
{
    if ls.len() == 0 {
        seq![]
    } else if ls.len() == 1 {
        ls[0]
    } else {
        join(ls.drop_last()) + seq![' '] + ls.last()
    }
}

/// `s` trimmed, with every inner run of whitespace collapsed to one space.
pub open spec fn normalize(s: Seq<char>) -> Seq<char> {
    join(words(s))
}

/// The number of characters over all of `ls`.
pub open spec fn total_len(ls: Seq<Seq<char>>) -> nat
    decreases ls.len(),
{
    if ls.len() == 0 {
        0
    } else {
        total_len(ls.drop_last()) + ls.last().len()
    }
}

/// Adds word `w` to the lines `ls`: onto the last line after a space when
/// that line stays within `width`, else onto a new line of its own.
pub open spec fn place(ls: Seq<Seq<char>>, w: Seq<char>, width: nat) -> Seq<Seq<char>> {
    if ls.len() == 0 {
        seq![w]
    } else if ls.last().len() + 1 + w.len() > width {
        ls.push(w)
    } else {
        ls.update(ls.len() - 1, ls.last() + seq![' '] + w)
    }
}

/// The words `ws` laid out greedily, one after the other.
pub open spec fn wrap_words(ws: Seq<Seq<char>>, width: nat) -> Seq<Seq<char>>
    decreases ws.len(),
{
    if ws.len() == 0 {
        seq![]
    } else {
        place(wrap_words(ws.drop_last(), width), ws.last(), width)
    }
}

/// The display lines of source text `s` at wrap width `width`.
pub open spec fn wrapped(s: Seq<char>, width: nat) -> Seq<Seq<char>> {
    wrap_words(words(s), width)
}

/// The character sequences held by `v`.
pub open spec fn view_lines(v: Seq<Vec<char>>) -> Seq<Seq<char>> {
    v.map_values(|l: Vec<char>| l@)
}

/// Every element of `ls` holds at least one character.
pub open spec fn all_nonempty(ls: Seq<Seq<char>>) -> bool {
    forall|i: int| 0 <= i < ls.len() ==> #[trigger] ls[i].len() > 0
}

/// The character sequences held by the strings `v`.
pub open spec fn view_strings(v: Seq<String>) -> Seq<Seq<char>> {
    v.map_values(|l: String| l@)
}

/// Why a text cannot be laid out.
#[derive(Debug, Clone, Copy, PartialEq, Eq, Structural)]
pub enum LayoutError {
    /// The text holds nothing but whitespace.
    EmptyText,
}

/// The characters of `text`, in order.
pub fn chars_of(text: &str) -> (r: Vec<char>)
    ensures
        r@ == text@,
{
    let mut r: Vec<char> = Vec::new();
    for c in it: text.chars()
        invariant
            it.seq() == text@,
            r@ == text@.take(it.index() as int),
    {
        r.push(c);
        assert(r@ =~= text@.take(it.index() as int + 1));
    }
    assert(r@ =~= text@);
    r
}

/// The words of `text`, each as its own vector of characters.
pub fn split_words(text: &Vec<char>) -> (r: Vec<Vec<char>>)
    ensures
        view_lines(r@) == words(text@),
        all_nonempty(view_lines(r@)),
        total_len(view_lines(r@)) + r.len() <= text.len() + 1,
{
    let n = text.len();
    let mut ws: Vec<Vec<char>> = Vec::new();
    let mut cur: Vec<char> = Vec::new();
    let mut i: usize = 0;
    while i < n
        invariant
            n == text.len(),
            i <= n,
            cur.len() > 0 <==> (i > 0 && !is_ws(text@[i - 1])),
            cur.len() > 0 ==> words(text@.take(i as int)) == view_lines(ws@).push(cur@),
            cur.len() == 0 ==> words(text@.take(i as int)) == view_lines(ws@),
            total_len(words(text@.take(i as int))) + words(text@.take(i as int)).len() <= i + (
            if cur.len() > 0 {
                1int
            } else {
                0int
            }),
            all_nonempty(words(text@.take(i as int))),
        decreases n - i,
    {
        let c = text[i];
        let ghost w = words(text@.take(i as int));
        let ghost s1 = text@.take(i as int + 1);
        assert(s1.drop_last() =~= text@.take(i as int));
        assert(s1.last() == c);
        if i > 0 {
            assert(s1[i - 1] == text@[i - 1]);
        }
        let ghost dv = view_lines(ws@);
        if is_whitespace_char(c) {
            if cur.len() > 0 {
                let ghost cv = cur@;
                ws.push(cur);
                cur = Vec::new();
                assert(view_lines(ws@) =~= dv.push(cv));
            }
        } else {
            let ghost cv = cur@;
            cur.push(c);
            proof {
                if cv.len() > 0 {
                    assert(dv.push(cv).update(dv.len() as int, cv.push(c)) =~= dv.push(cur@));
                }
                let w1 = words(s1);
                if cur.len() > 1 {
                    assert(w1 == w.update(w.len() - 1, w.last().push(c)));
                    assert(w1.drop_last() =~= w.drop_last());
                } else {
                    assert(cur@ =~= seq![c]);
                    assert(w1 == w.push(seq![c]));
                    assert(w1.drop_last() =~= w);
                }
            }
        }
        i = i + 1;
    }
    assert(text@.take(n as int) =~= text@);
    if cur.len() > 0 {
        let ghost dv = view_lines(ws@);
        let ghost cv = cur@;
        ws.push(cur);
        assert(view_lines(ws@) =~= dv.push(cv));
    }
    ws
}

/// Appends the characters of `src` to `dst`.
pub fn append_chars(dst: &mut Vec<char>, src: &Vec<char>)
    ensures
        final(dst)@ == old(dst)@ + src@,
{
    let mut k: usize = 0;
    while k < src.len()
        invariant
            k <= src.len(),
            dst@ == old(dst)@ + src@.take(k as int),
        decreases src.len() - k,
    {
        dst.push(src[k]);
        k = k + 1;
        assert(dst@ =~= old(dst)@ + src@.take(k as int));
    }
    assert(src@.take(k as int) =~= src@);
}

/// Lays out `text` in lines of at most `width` characters, greedily: each
/// word goes onto the current line after a single space while that line
/// stays within `width`, else it starts a new line. A word longer than
/// `width` stands alone on its line. Fails on a text with no word.
pub fn wrap(text: &Vec<char>, width: usize) -> (r: Result<Vec<Vec<char>>, LayoutError>)
    ensures
        r is Err <==> words(text@).len() == 0,
        r matches Err(e) ==> e == LayoutError::EmptyText,
        r matches Ok(ls) ==> view_lines(ls@) == wrapped(text@, width as nat),
        r matches Ok(ls) ==> ls.len() > 0 && all_nonempty(view_lines(ls@)),
        r matches Ok(ls) ==> total_len(view_lines(ls@)) <= text.len(),
{
    let ws = split_words(text);
    if ws.len() == 0 {
        return Err(LayoutError::EmptyText);
    }
    let ghost wv = view_lines(ws@);
    let mut lines: Vec<Vec<char>> = Vec::new();
    let mut cur: Vec<char> = Vec::new();
    append_chars(&mut cur, &ws[0]);
    proof {
        assert(wv.take(1).drop_last() =~= wv.take(0));
        assert(wrap_words(wv.take(0), width as nat) =~= Seq::<Seq<char>>::empty());
        assert(wv.take(1).last() == wv[0]);
        assert(cur@ =~= wv[0]);
        assert(wrap_words(wv.take(1), width as nat) =~= view_lines(lines@).push(cur@));
        lemma_wrap_size(wv.take(1), width as nat);
    }
    let mut j: usize = 1;
    while j < ws.len()
        invariant
            wv == view_lines(ws@),
            wv == words(text@),
            all_nonempty(wv),
            total_len(wv) + wv.len() <= text.len() + 1,
            1 <= j <= ws.len(),
            wrap_words(wv.take(j as int), width as nat) == view_lines(lines@).push(cur@),
            cur.len() > 0,
        decreases ws.len() - j,
    {
        let ghost lv = view_lines(lines@).push(cur@);
        let ghost t1 = wv.take(j as int + 1);
        assert(t1.drop_last() =~= wv.take(j as int));
        assert(t1.last() == ws@[j as int]@);
        let word = &ws[j];
        if cur.len() >= width || word.len() > width - cur.len() - 1 {
            let ghost ld = view_lines(lines@);
            let ghost cv = cur@;
            lines.push(cur);
            cur = Vec::new();
            append_chars(&mut cur, word);
            assert(view_lines(lines@) =~= ld.push(cv));
            assert(view_lines(lines@).push(cur@) =~= lv.push(word@));
        } else {
            let ghost cv = cur@;
            cur.push(' ');
            append_chars(&mut cur, word);
            assert(cur@ =~= cv + seq![' '] + word@);
            assert(view_lines(lines@).push(cur@) =~= lv.update(lv.len() - 1, cv + seq![' '] + word@));
        }
        j = j + 1;
    }
    assert(wv.take(j as int) =~= wv);
    proof {
        lemma_wrap_size(wv, width as nat);
        lemma_wrap_nonempty(wv, width as nat);
    }
    let ghost ld = view_lines(lines@);
    let ghost cv = cur@;
    lines.push(cur);
    assert(view_lines(lines@) =~= ld.push(cv));
    Ok(lines)
}

/// Laying out words keeps their characters and adds one space between two
/// words that share a line.
pub proof fn lemma_wrap_size(ws: Seq<Seq<char>>, width: nat)
    ensures
        total_len(wrap_words(ws, width)) + wrap_words(ws, width).len() <= total_len(ws) + ws.len(),
        ws.len() > 0 ==> wrap_words(ws, width).len() > 0,
    decreases ws.len(),
{
    if ws.len() > 0 {
        let p = ws.drop_last();
        let w = ws.last();
        lemma_wrap_size(p, width);
        let l = wrap_words(p, width);
        if l.len() == 0 {
            assert(seq![w].drop_last() =~= Seq::<Seq<char>>::empty());
        } else if l.last().len() + 1 + w.len() > width {
            assert(l.push(w).drop_last() =~= l);
        } else {
            let l1 = l.update(l.len() - 1, l.last() + seq![' '] + w);
            assert(l1.drop_last() =~= l.drop_last());
        }
    }
}

/// Every line of a layout of non-empty words is non-empty.
pub proof fn lemma_wrap_nonempty(ws: Seq<Seq<char>>, width: nat)
    requires
        all_nonempty(ws),
    ensures
        all_nonempty(wrap_words(ws, width)),
    decreases ws.len(),
{
    if ws.len() > 0 {
        let p = ws.drop_last();
        assert(all_nonempty(p)) by {
            assert forall|i: int| 0 <= i < p.len() implies #[trigger] p[i].len() > 0 by {
                assert(p[i] == ws[i]);
            }
        }
        lemma_wrap_nonempty(p, width);
        assert(ws.last() == ws[ws.len() - 1]);
    }
}

/// Each line of `ls` fits in `width` or is one of the words `ws`.
pub open spec fn lines_fit(ls: Seq<Seq<char>>, ws: Seq<Seq<char>>, width: nat) -> bool {
    forall|i: int|
        0 <= i < ls.len() ==> #[trigger] ls[i].len() <= width || exists|j: int|
            0 <= j < ws.len() && ls[i] == #[trigger] ws[j]
}

/// Each word of `ws` longer than `width` is a whole line of `ls`.
pub open spec fn long_words_alone(ls: Seq<Seq<char>>, ws: Seq<Seq<char>>, width: nat) -> bool {
    forall|j: int|
        0 <= j < ws.len() && #[trigger] ws[j].len() > width ==> exists|i: int|
            0 <= i < ls.len() && #[trigger] ls[i] == ws[j]
}

/// Joining the laid-out lines gives back the words joined.
pub proof fn lemma_join_wrap(ws: Seq<Seq<char>>, width: nat)
    ensures
        join(wrap_words(ws, width)) == join(ws),
    decreases ws.len(),
{
    if ws.len() > 0 {
        let p = ws.drop_last();
        let w = ws.last();
        lemma_join_wrap(p, width);
        lemma_wrap_size(p, width);
        let l = wrap_words(p, width);
        if l.len() == 0 {
            assert(p.len() == 0);
            assert(ws.len() == 1);
        } else {
            assert(p.len() > 0);
            if l.last().len() + 1 + w.len() > width {
                assert(l.push(w).drop_last() =~= l);
            } else {
                let l1 = l.update(l.len() - 1, l.last() + seq![' '] + w);
                if l.len() == 1 {
                    assert(join(l1) =~= join(l) + seq![' '] + w);
                } else {
                    assert(l1.drop_last() =~= l.drop_last());
                    assert(join(l1) =~= join(l) + seq![' '] + w);
                }
            }
        }
    }
}

/// Greedy layout keeps every line within `width` unless it is one word, and
/// puts every word longer than `width` alone on a line.
pub proof fn lemma_wrap_fit(ws: Seq<Seq<char>>, width: nat)
    ensures
        lines_fit(wrap_words(ws, width), ws, width),
        long_words_alone(wrap_words(ws, width), ws, width),
    decreases ws.len(),
{
    if ws.len() > 0 {
        let p = ws.drop_last();
        let w = ws.last();
        let n = ws.len() - 1;
        assert(w == ws[n]);
        lemma_wrap_fit(p, width);
        let l = wrap_words(p, width);
        let l1 = wrap_words(ws, width);
        assert forall|i: int| 0 <= i < l1.len() implies #[trigger] l1[i].len() <= width || exists|
            j: int,
        | 0 <= j < ws.len() && l1[i] == #[trigger] ws[j] by {
            if i < l.len() && l1[i] == l[i] && l[i].len() > width {
                let j = choose|j: int| 0 <= j < p.len() && l[i] == #[trigger] p[j];
                assert(ws[j] == p[j]);
            } else if l1[i] == w {
                assert(l1[i] == ws[n]);
            }
        }
        assert forall|j: int| 0 <= j < ws.len() && #[trigger] ws[j].len() > width implies exists|
            i: int,
        | 0 <= i < l1.len() && #[trigger] l1[i] == ws[j] by {
            if j < n {
                assert(p[j] == ws[j]);
                let i = choose|i: int| 0 <= i < l.len() && #[trigger] l[i] == p[j];
                assert(l1[i] == l[i]);
            } else {
                let i = l1.len() - 1;
                assert(l1[i] == w);
            }
        }
    }
}

/// Joining the lines of a layout with single spaces gives back the text
/// with its whitespace normalised, at every width.
pub proof fn law_wrap_round_trip(text: Seq<char>, width: nat)
    ensures
        join(wrapped(text, width)) == normalize(text),
{
    lemma_join_wrap(words(text), width);
}

/// Where no word is longer than `width`, no line is either; a word longer
/// than `width` is a whole line of its own.
pub proof fn law_wrap_width(text: Seq<char>, width: nat)
    ensures
        (forall|j: int| 0 <= j < words(text).len() ==> #[trigger] words(text)[j].len() <= width)
            ==> forall|i: int|
            0 <= i < wrapped(text, width).len() ==> #[trigger] wrapped(text, width)[i].len()
                <= width,
        long_words_alone(wrapped(text, width), words(text), width),
{
    let ws = words(text);
    let ls = wrapped(text, width);
    lemma_wrap_fit(ws, width);
    if forall|j: int| 0 <= j < ws.len() ==> #[trigger] ws[j].len() <= width {
        assert forall|i: int| 0 <= i < ls.len() implies #[trigger] ls[i].len() <= width by {
            if ls[i].len() > width {
                let j = choose|j: int| 0 <= j < ws.len() && ls[i] == #[trigger] ws[j];
            }
        }
    }
}

/// Every whitespace character of `t` is a single space with non-whitespace
/// on both sides: `t` has no leading or trailing whitespace and no run of it.
pub open spec fn is_normalized(t: Seq<char>) -> bool {
    forall|i: int|
        0 <= i < t.len() && #[trigger] is_ws(t[i]) ==> t[i] == ' ' && 0 < i < t.len() - 1
            && !is_ws(t[i - 1]) && !is_ws(t[i + 1])
}

/// Each of `ws` is non-empty and free of whitespace.
pub open spec fn solid_words(ws: Seq<Seq<char>>) -> bool {
    forall|k: int|
        0 <= k < ws.len() ==> #[trigger] ws[k].len() > 0 && forall|j: int|
            0 <= j < ws[k].len() ==> !is_ws(#[trigger] ws[k][j])
}

/// A text that ends in a non-whitespace character has a word.
pub proof fn lemma_words_end(s: Seq<char>)
    requires
        s.len() > 0,
        !is_ws(s.last()),
    ensures
        words(s).len() > 0,
    decreases s.len(),
{
    if s.len() >= 2 && !is_ws(s[s.len() - 2]) {
        let p = s.drop_last();
        assert(p.last() == s[s.len() - 2]);
        lemma_words_end(p);
    }
}

/// Words are no more than characters.
pub proof fn lemma_words_len(s: Seq<char>)
    ensures
        words(s).len() <= s.len(),
    decreases s.len(),
{
    if s.len() > 0 {
        let p = s.drop_last();
        lemma_words_len(p);
        if s.len() >= 2 && !is_ws(s[s.len() - 2]) {
            assert(p.last() == s[s.len() - 2]);
            lemma_words_end(p);
        }
    }
}

/// The words of a text are non-empty and hold no whitespace.
pub proof fn lemma_words_solid(s: Seq<char>)
    ensures
        solid_words(words(s)),
    decreases s.len(),
{
    if s.len() > 0 {
        let p = s.drop_last();
        lemma_words_solid(p);
        let wp = words(p);
        let c = s.last();
        if !is_ws(c) {
            if s.len() >= 2 && !is_ws(s[s.len() - 2]) {
                assert(p.last() == s[s.len() - 2]);
                lemma_words_end(p);
                let last = wp.last().push(c);
                assert forall|j: int| 0 <= j < last.len() implies !is_ws(#[trigger] last[j]) by {
                    if j < last.len() - 1 {
                        assert(last[j] == wp[wp.len() - 1][j]);
                    }
                }
            } else {
                assert(seq![c][0] == c);
            }
        }
    }
}

/// Words that are non-empty and free of whitespace join into a normalised
/// text that is empty only when there is no word.
proof fn lemma_join_normalized(ws: Seq<Seq<char>>)
    requires
        solid_words(ws),
    ensures
        is_normalized(join(ws)),
        ws.len() > 0 ==> join(ws).len() > 0,
    decreases ws.len(),
{
    if ws.len() == 1 {
        assert(ws[0].len() > 0);
        assert forall|i: int| 0 <= i < join(ws).len() implies !is_ws(#[trigger] join(ws)[i]) by {
            assert(join(ws)[i] == ws[0][i]);
        }
    } else if ws.len() > 1 {
        let p = ws.drop_last();
        let w = ws.last();
        assert(solid_words(p)) by {
            assert forall|k: int| 0 <= k < p.len() implies #[trigger] p[k].len() > 0 && forall|
                j: int,
            | 0 <= j < p[k].len() ==> !is_ws(#[trigger] p[k][j]) by {
                assert(p[k] == ws[k]);
            }
        }
        lemma_join_normalized(p);
        let a = join(p);
        let t = join(ws);
        assert(w == ws[ws.len() - 1]);
        assert(w.len() > 0);
        assert(t == a + seq![' '] + w);
        assert(!is_ws(a[a.len() - 1]));
        assert forall|i: int| 0 <= i < t.len() && #[trigger] is_ws(t[i]) implies t[i] == ' ' && 0
            < i < t.len() - 1 && !is_ws(t[i - 1]) && !is_ws(t[i + 1]) by {
            if i < a.len() {
                assert(t[i] == a[i]);
                assert(t[i - 1] == a[i - 1]);
                assert(t[i + 1] == a[i + 1]);
            } else if i == a.len() {
                assert(t[i - 1] == a[a.len() - 1]);
                assert(t[i + 1] == w[0]);
            } else {
                assert(t[i] == w[i - a.len() - 1]);
            }
        }
    }
}

/// The normal form of a text has no leading or trailing whitespace, and
/// every whitespace character in it is a single space between two
/// non-whitespace characters.
pub proof fn law_normalize_shape(s: Seq<char>)
    ensures
        is_normalized(normalize(s)),
{
    lemma_words_solid(s);
    lemma_join_normalized(words(s));
}

/// Relies on `String`'s `FromIterator<&char>` (`collect`): the string holds
/// the characters in order.
#[verifier::external_body]
fn string_of(cs: &Vec<char>) -> (r: String)
    ensures
        r@ == cs@,
{
    cs.iter().collect()
}

/// Lays out `text` as `wrap` does, in lines of at most `length_of_line`
/// characters, each line a `String`. Fails on a text with no word.
pub fn split_into_lines(text: &str, length_of_line: usize) -> (r: Result<
    Vec<String>,
    LayoutError,
>)
    ensures
        r is Err <==> words(text@).len() == 0,
        r matches Err(e) ==> e == LayoutError::EmptyText,
        r matches Ok(ls) ==> view_strings(ls@) == wrapped(text@, length_of_line as nat),
{
    let cs = chars_of(text);
    match wrap(&cs, length_of_line) {
        Err(e) => Err(e),
        Ok(ls) => {
            let mut out: Vec<String> = Vec::new();
            let mut k: usize = 0;
            while k < ls.len()
                invariant
                    k <= ls.len(),
                    view_strings(out@) == view_lines(ls@).take(k as int),
                decreases ls.len() - k,
            {
                let ghost ov = out@;
                let line = string_of(&ls[k]);
                out.push(line);
                assert(out@ == ov.push(line));
                assert(view_strings(out@) =~= view_strings(ov).push(ls@[k as int]@));
                k = k + 1;
                assert(view_strings(out@) =~= view_lines(ls@).take(k as int));
            }
            assert(view_lines(ls@).take(k as int) =~= view_lines(ls@));
            Ok(out)
        },
    }
}

} // verus!
