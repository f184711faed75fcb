//! Which candidates the matcher can be asked about.
//!
//! With the word dictionary loaded, the engine compares the query with the
//! readings that the romanizer gives for the candidate, and that comparison
//! is sound for ASCII readings only. A few readings of the dictionary hold
//! an ideographic comma. Whether a candidate brings up one of them is a
//! question for the romanizer, which is asked at every character of the
//! candidate before the matcher is.

use crate::engine::{readings_at, MatcherSetup, RomanizerSources};
use vstd::prelude::*;
use vstd::utf8::{encode_utf8, is_ascii_chars, is_char_boundary};

verus! {

/// Whether every reading is made of ASCII characters.
pub open spec fn all_ascii(readings: Seq<Seq<char>>) -> bool {
    forall|k: int| 0 <= k < readings.len() ==> is_ascii_chars(#[trigger] readings[k])
}

/// Whether every reading of what stands in `text` at byte offset `at` is
/// ASCII.
pub open spec fn readings_ascii_at(sources: RomanizerSources, text: Seq<char>, at: int) -> bool {
    all_ascii(readings_at(sources, text, at))
}

/// Whether every reading is ASCII at every byte offset of `text` at which a
/// character starts.
pub open spec fn readings_comparable(sources: RomanizerSources, text: Seq<char>) -> bool {
    forall|at: int|
        0 <= at < encode_utf8(text).len() && is_char_boundary(encode_utf8(text), at)
            ==> #[trigger] readings_ascii_at(sources, text, at)
}

/// Whether a matcher with the given setup can be asked about `candidate`.
/// It can where the query is empty or the setup has no word dictionary, and
/// else where the search is anchored and the readings of the candidate are
/// comparable.
pub open spec fn askable(setup: MatcherSetup, candidate: Seq<char>) -> bool {
    ||| setup.query.len() == 0
    ||| match setup.romaji {
        Some(sources) => sources.word ==> setup.starts_with && readings_comparable(
            sources,
            candidate,
        ),
        None => true,
    }
}

/// Tests whether every string of `readings` is made of ASCII characters.
pub fn are_all_ascii(readings: &Vec<String>) -> (r: bool)
    ensures
        r == all_ascii(crate::text::texts(readings@)),
{
    let ghost views = crate::text::texts(readings@);
    let mut k: usize = 0;
    while k < readings.len()
        invariant
            k <= readings.len(),
            views == crate::text::texts(readings@),
            forall|j: int| 0 <= j < k ==> is_ascii_chars(#[trigger] views[j]),
        decreases readings.len() - k,
    {
        assert(views[k as int] == readings@[k as int]@);
        if !readings[k].as_str().is_ascii() {
            return false;
        }
        k = k + 1;
    }
    true
}

/// Without a word dictionary every candidate can be asked about, and so can
/// every candidate where the query is empty.
pub proof fn lemma_askable_without_words(setup: MatcherSetup, candidate: Seq<char>)
    requires
        setup.query.len() == 0 || setup.romaji is None || !setup.romaji->0.word,
    ensures
        askable(setup, candidate),
{
}

} // verus!
