//! What holds of the filter for every input.

use crate::classify::{has_han, pure_english};
use crate::engine::{engine_matches, MatcherSetup};
use crate::filter::{
    candidates_of, emit_test, emits, emitted, lemma_emitted_push, list_test, listed, lists,
};
use crate::readings::askable;
use crate::text::{lemma_trimmed_end, lemma_trimmed_end_idempotent, trimmed_end, white_space};
use vstd::prelude::*;

verus! {

/// Whether `picks` rises strictly from each entry to the next.
pub open spec fn rising(picks: Seq<int>) -> bool {
    forall|a: int, b: int| 0 <= a < b < picks.len() ==> picks[a] < picks[b]
}

/// Whether `out` is `items` thinned by `keep` and nothing else: `picks` names,
/// in rising order, exactly the positions of `items` that `keep` accepts, and
/// `out` holds the items at those positions, one for one.
pub open spec fn selects(
    items: Seq<Seq<char>>,
    keep: spec_fn(Seq<char>) -> bool,
    picks: Seq<int>,
    out: Seq<Seq<char>>,
) -> bool {
    &&& picks.len() == out.len()
    &&& rising(picks)
    &&& forall|k: int|
        0 <= k < picks.len() ==> 0 <= #[trigger] picks[k] < items.len() && keep(items[picks[k]])
            && out[k] == items[picks[k]]
    &&& forall|i: int| 0 <= i < items.len() && keep(items[i]) ==> #[trigger] picks.contains(i)
}

/// Filtering keeps the accepted items, each once and at its place among the
/// others: the result is read off the input at rising positions, and no
/// accepted position is left out.
pub proof fn lemma_filter_selects(items: Seq<Seq<char>>, keep: spec_fn(Seq<char>) -> bool) -> (picks:
    Seq<int>)
    ensures
        selects(items, keep, picks, items.filter(keep)),
    decreases items.len(),
{
    reveal(Seq::filter);
    if items.len() == 0 {
        Seq::empty()
    } else {
        let front = items.drop_last();
        let last = items.len() - 1;
        let before = lemma_filter_selects(front, keep);
        let out_before = front.filter(keep);
        if keep(items.last()) {
            let picks = before.push(last);
            let out = items.filter(keep);
            assert(out == out_before.push(items.last()));
            assert forall|k: int| 0 <= k < picks.len() implies 0 <= #[trigger] picks[k]
                < items.len() && keep(items[picks[k]]) && out[k] == items[picks[k]] by {
                if k < before.len() {
                    assert(picks[k] == before[k]);
                    assert(items[before[k]] == front[before[k]]);
                }
            }
            assert forall|a: int, b: int| 0 <= a < b < picks.len() implies picks[a] < picks[b] by {
                assert(picks[a] == before[a]);
                if b < before.len() {
                    assert(picks[b] == before[b]);
                }
            }
            assert forall|i: int| 0 <= i < items.len() && keep(items[i]) implies #[trigger] picks.contains(
                i,
            ) by {
                if i < last {
                    assert(front[i] == items[i]);
                    assert(before.contains(i));
                    let k = choose|k: int| 0 <= k < before.len() && before[k] == i;
                    assert(picks[k] == i);
                } else {
                    assert(picks[before.len() as int] == i);
                }
            }
            picks
        } else {
            let picks = before;
            let out = items.filter(keep);
            assert(out == out_before);
            assert forall|k: int| 0 <= k < picks.len() implies 0 <= #[trigger] picks[k]
                < items.len() && keep(items[picks[k]]) && out[k] == items[picks[k]] by {
                assert(items[before[k]] == front[before[k]]);
            }
            assert forall|i: int| 0 <= i < items.len() && keep(items[i]) implies #[trigger] picks.contains(
                i,
            ) by {
                assert(front[i] == items[i]);
            }
            picks
        }
    }
}

/// The output of standard-input mode holds the emitted candidates in the
/// order of the input, each as often as it came: nothing is reordered,
/// dropped or merged.
pub proof fn lemma_emitted_in_input_order(setup: MatcherSetup, lines: Seq<Seq<char>>)
    ensures
        exists|picks: Seq<int>|
            selects(candidates_of(lines), emit_test(setup), picks, emitted(setup, lines)),
{
    let picks = lemma_filter_selects(candidates_of(lines), emit_test(setup));
    assert(selects(candidates_of(lines), emit_test(setup), picks, emitted(setup, lines)));
}

/// The listing of directory mode holds the listed names in the order of the
/// input, each as often as it came.
pub proof fn lemma_listed_in_input_order(setup: MatcherSetup, names: Seq<Seq<char>>)
    ensures
        exists|picks: Seq<int>| selects(names, list_test(setup), picks, listed(setup, names)),
{
    let picks = lemma_filter_selects(names, list_test(setup));
    assert(selects(names, list_test(setup), picks, listed(setup, names)));
}

/// Filtering the output again changes nothing: what was emitted once is
/// emitted again, as it is.
pub proof fn lemma_emitted_idempotent(setup: MatcherSetup, lines: Seq<Seq<char>>)
    ensures
        emitted(setup, emitted(setup, lines)) == emitted(setup, lines),
    decreases lines.len(),
{
    if lines.len() == 0 {
        assert(lines == Seq::<Seq<char>>::empty());
        lemma_emitted_push(setup, Seq::empty(), Seq::empty());
    } else {
        let front = lines.drop_last();
        let line = lines.last();
        assert(lines == front.push(line));
        lemma_emitted_push(setup, front, line);
        lemma_emitted_idempotent(setup, front);
        if emits(setup, trimmed_end(line)) {
            lemma_trimmed_end_idempotent(line);
            lemma_emitted_push(setup, emitted(setup, front), trimmed_end(line));
        }
    }
}

/// Every emitted candidate is a line of the input cut at its end only: it
/// is a prefix of that line, what was cut is white space, and it does not
/// end in white space. It is no pure-English path, the matcher can be asked
/// about it, and it accepts it.
pub proof fn lemma_emitted_candidate(setup: MatcherSetup, lines: Seq<Seq<char>>, k: int)
    requires
        0 <= k < emitted(setup, lines).len(),
    ensures
        !pure_english(emitted(setup, lines)[k]),
        askable(setup, emitted(setup, lines)[k]),
        engine_matches(setup, emitted(setup, lines)[k]),
        exists|i: int|
            0 <= i < lines.len() && emitted(setup, lines)[k] == trimmed_end(#[trigger] lines[i]),
        emitted(setup, lines)[k].len() > 0 ==> !white_space(emitted(setup, lines)[k].last()),
{
    let picks = lemma_filter_selects(candidates_of(lines), emit_test(setup));
    let i = picks[k];
    assert(candidates_of(lines)[i] == trimmed_end(lines[i]));
    assert(emit_test(setup)(candidates_of(lines)[i]));
    lemma_trimmed_end(lines[i]);
}

/// A pure-English path is never emitted, whatever the matcher says of it.
pub proof fn lemma_pure_english_suppressed(setup: MatcherSetup, lines: Seq<Seq<char>>, i: int)
    requires
        0 <= i < lines.len(),
        pure_english(trimmed_end(lines[i])),
    ensures
        !emits(setup, trimmed_end(lines[i])),
{
}

/// Every listed name holds a Han character, and the matcher accepts it.
pub proof fn lemma_listed_name(setup: MatcherSetup, names: Seq<Seq<char>>, k: int)
    requires
        0 <= k < listed(setup, names).len(),
    ensures
        has_han(listed(setup, names)[k]),
        lists(setup, listed(setup, names)[k]),
        names.contains(listed(setup, names)[k]),
{
    let picks = lemma_filter_selects(names, list_test(setup));
    let i = picks[k];
    assert(list_test(setup)(names[i]));
    assert(names[i] == listed(setup, names)[k]);
}

} // verus!
