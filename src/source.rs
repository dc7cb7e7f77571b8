//! A practice text drawn at random from a word list.
use vstd::prelude::*;
use vstd::string::StringExecFns;
use rand::seq::IteratorRandom;
use crate::layout::view_strings;

verus! {

/// The words of `list` at positions `picks`, each followed by one space.
pub open spec fn picked_text(list: Seq<Seq<char>>, picks: Seq<usize>) -> Seq<char>
    decreases picks.len(),
{
    if picks.len() == 0 {
        seq![]
    } else {
        picked_text(list, picks.drop_last()) + list[picks.last() as int] + seq![' ']
    }
}

/// Every pick addresses a word of a list `n` long.
pub open spec fn picks_in(picks: Seq<usize>, n: usize) -> bool {
    forall|k: int| 0 <= k < picks.len() ==> #[trigger] picks[k] < n
}

/// Relies on rand's `IteratorRandom::choose` over the range `0..n`, with the
/// thread-local generator: on a range of exact size it returns `None` when the
/// range is empty, and otherwise one of its elements.
#[verifier::external_body]
fn pick_index(n: usize) -> (r: Option<usize>)
    ensures
        r is None <==> n == 0,
        r matches Some(k) ==> k < n,
{
    (0..n).choose(&mut rand::thread_rng())
}

/// Appends word `w` of `list` and one space to `out`.
fn push_word(out: &mut String, list: &Vec<String>, w: usize)
    requires
        w < list.len(),
    ensures
        final(out)@ == old(out)@ + list@[w as int]@ + seq![' '],
{
    out.append(list[w].as_str());
    proof {
        reveal_strlit(" ");
    }
    out.append(" ");
}

/// The words of `list` at positions `picks`, each followed by one space.
pub fn join_picked(list: &Vec<String>, picks: &Vec<usize>) -> (r: String)
    requires
        picks_in(picks@, list.len()),
    ensures
        r@ == picked_text(view_strings(list@), picks@),
{
    let mut out = String::new();
    let mut k: usize = 0;
    while k < picks.len()
        invariant
            k <= picks.len(),
            picks_in(picks@, list.len()),
            out@ == picked_text(view_strings(list@), picks@.take(k as int)),
        decreases picks.len() - k,
    {
        assert(picks@[k as int] < list.len());
        push_word(&mut out, list, picks[k]);
        assert(picks@.take(k as int + 1).drop_last() =~= picks@.take(k as int));
        k = k + 1;
    }
    assert(picks@.take(k as int) =~= picks@);
    out
}

/// `amount_of_words` words drawn at random from `list`, each followed by one
/// space.
pub fn get_text(amount_of_words: usize, list: &Vec<String>) -> (r: String)
    requires
        list.len() > 0,
    ensures
        exists|picks: Seq<usize>|
            #![trigger picked_text(view_strings(list@), picks)]
            picks.len() == amount_of_words && picks_in(picks, list.len()) && r@ == picked_text(
                view_strings(list@),
                picks,
            ),
{
    let mut out = String::new();
    let ghost mut picks: Seq<usize> = seq![];
    let mut k: usize = 0;
    while k < amount_of_words
        invariant
            list.len() > 0,
            k <= amount_of_words,
            picks.len() == k,
            picks_in(picks, list.len()),
            out@ == picked_text(view_strings(list@), picks),
        decreases amount_of_words - k,
    {
        match pick_index(list.len()) {
            Some(w) => {
                push_word(&mut out, list, w);
                proof {
                    assert(picks.push(w).drop_last() =~= picks);
                    picks = picks.push(w);
                }
            },
            None => {},
        }
        k = k + 1;
    }
    out
}

} // verus!
