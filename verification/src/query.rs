//! Which queries the matching engine can be built for.
//!
//! The engine folds the case of the query and then walks the query and its
//! folded form side by side, byte offset for byte offset. For a handful of
//! characters the folded character takes a different number of bytes in
//! UTF-8, so every character behind one of them stands at another offset in
//! the folded form, and the engine's builder panics. Such a character is
//! harmless only as the last one of the query.

use vstd::prelude::*;

verus! {

/// Whether simple case folding maps `c` to a character whose UTF-8 encoding
/// has another length than that of `c`.
pub open spec fn fold_changes_length(c: char) -> bool {
    ||| c == '\u{17f}'
    ||| c == '\u{23a}'
    ||| c == '\u{23e}'
    ||| '\u{1c80}' <= c <= '\u{1c87}'
    ||| c == '\u{1e9e}'
    ||| c == '\u{1fbe}'
    ||| c == '\u{1fd3}'
    ||| c == '\u{1fe3}'
    ||| c == '\u{2126}'
    ||| '\u{212a}' <= c <= '\u{212b}'
    ||| c == '\u{2c62}'
    ||| c == '\u{2c64}'
    ||| '\u{2c6d}' <= c <= '\u{2c70}'
    ||| '\u{2c7e}' <= c <= '\u{2c7f}'
    ||| c == '\u{a78d}'
    ||| '\u{a7aa}' <= c <= '\u{a7ae}'
    ||| '\u{a7b0}' <= c <= '\u{a7b2}'
    ||| c == '\u{a7c5}'
    ||| c == '\u{a7cb}'
    ||| c == '\u{a7dc}'
}

/// Whether a matcher can be built for `query`: no character but the last
/// changes its length when its case is folded.
pub open spec fn query_supported(query: Seq<char>) -> bool {
    forall|i: int| 0 <= i < query.len() - 1 ==> !fold_changes_length(#[trigger] query[i])
}

/// Tests whether folding the case of `c` changes the length of its encoding.
pub fn is_fold_length_changing(c: char) -> (r: bool)
    ensures
        r == fold_changes_length(c),
{
    if '\u{17f}' > c {
        false
    } else if c <= '\u{23e}' {
        c == '\u{17f}' || c == '\u{23a}' || c == '\u{23e}'
    } else if c <= '\u{212b}' {
        ('\u{1c80}' <= c && c <= '\u{1c87}') || c == '\u{1e9e}' || c == '\u{1fbe}' || c
            == '\u{1fd3}' || c == '\u{1fe3}' || c == '\u{2126}' || c == '\u{212a}' || c
            == '\u{212b}'
    } else if c <= '\u{2c7f}' {
        c == '\u{2c62}' || c == '\u{2c64}' || ('\u{2c6d}' <= c && c <= '\u{2c70}') || c
            == '\u{2c7e}' || c == '\u{2c7f}'
    } else {
        c == '\u{a78d}' || ('\u{a7aa}' <= c && c <= '\u{a7ae}') || ('\u{a7b0}' <= c && c
            <= '\u{a7b2}') || c == '\u{a7c5}' || c == '\u{a7cb}' || c == '\u{a7dc}'
    }
}

/// Tests whether a matcher can be built for `query`.
pub fn query_is_supported(query: &str) -> (ok: bool)
    ensures
        ok == query_supported(query@),
{
    let mut last_changes = false;
    for c in it: query.chars()
        invariant
            it.seq() == query@,
            forall|i: int| 0 <= i < it.index() - 1 ==> !fold_changes_length(#[trigger] query@[i]),
            last_changes == (it.index() > 0 && fold_changes_length(query@[it.index() - 1])),
    {
        if last_changes {
            assert(fold_changes_length(query@[it.index() - 1]));
            return false;
        }
        last_changes = is_fold_length_changing(c);
    }
    true
}

/// A query of ASCII characters is supported, and so is the empty query.
pub proof fn lemma_ascii_query_supported(query: Seq<char>)
    requires
        forall|i: int| 0 <= i < query.len() ==> #[trigger] query[i] <= '\u{7f}',
    ensures
        query_supported(query),
{
}

} // verus!
