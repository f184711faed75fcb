//! Character-level text operations: white space, trimming and splitting.
//!
//! Everything here is stated over `Seq<char>`, the view of `str` and `String`.

use vstd::prelude::*;

verus! {

/// The characters that count as white space: those with the Unicode property
/// `White_Space`.
pub open spec fn white_space(c: char) -> bool {
    ||| '\u{9}' <= c <= '\u{d}'
    ||| c == ' '
    ||| c == '\u{85}'
    ||| c == '\u{a0}'
    ||| c == '\u{1680}'
    ||| '\u{2000}' <= c <= '\u{200a}'
    ||| c == '\u{2028}'
    ||| c == '\u{2029}'
    ||| c == '\u{202f}'
    ||| c == '\u{205f}'
    ||| c == '\u{3000}'
}

/// Tests whether `c` is white space.
pub fn is_white_space(c: char) -> (r: bool)
    ensures
        r == white_space(c),
{
    ('\u{9}' <= c && c <= '\u{d}') || c == ' ' || c == '\u{85}' || c == '\u{a0}' || c == '\u{1680}'
        || ('\u{2000}' <= c && c <= '\u{200a}') || c == '\u{2028}' || c == '\u{2029}' || c
        == '\u{202f}' || c == '\u{205f}' || c == '\u{3000}'
}

/// How many white-space characters `s` ends with.
pub open spec fn trailing_space(s: Seq<char>) -> nat
    decreases s.len(),
{
    if s.len() > 0 && white_space(s.last()) {
        1 + trailing_space(s.drop_last())
    } else {
        0
    }
}

/// How many white-space characters `s` starts with.
pub open spec fn leading_space(s: Seq<char>) -> nat
    decreases s.len(),
{
    if s.len() > 0 && white_space(s.first()) {
        1 + leading_space(s.drop_first())
    } else {
        0
    }
}

/// `s` without its trailing white space.
pub open spec fn trimmed_end(s: Seq<char>) -> Seq<char> {
    s.take(s.len() - trailing_space(s))
}

/// `s` without its leading white space.
pub open spec fn trimmed_start(s: Seq<char>) -> Seq<char> {
    s.skip(leading_space(s) as int)
}

/// `s` without its leading and trailing white space.
pub open spec fn trimmed(s: Seq<char>) -> Seq<char> {
    trimmed_start(trimmed_end(s))
}

/// `trailing_space(s)` is the length of the longest white-space suffix of `s`:
/// it is the one `n` for which the last `n` characters are white space and the
/// character before them, if there is one, is not.
pub proof fn lemma_trailing_space(s: Seq<char>, n: int)
    requires
        0 <= n <= s.len(),
        forall|i: int| s.len() - n <= i < s.len() ==> white_space(#[trigger] s[i]),
        n < s.len() ==> !white_space(s[s.len() - n - 1]),
    ensures
        trailing_space(s) == n,
    decreases s.len(),
{
    if n > 0 {
        let rest = s.drop_last();
        assert(white_space(s[s.len() - 1]));
        assert forall|i: int| rest.len() - (n - 1) <= i < rest.len() implies white_space(
            #[trigger] rest[i],
        ) by {
            assert(rest[i] == s[i]);
        }
        lemma_trailing_space(rest, n - 1);
    }
}

/// `leading_space(s)` is the length of the longest white-space prefix of `s`.
pub proof fn lemma_leading_space(s: Seq<char>, n: int)
    requires
        0 <= n <= s.len(),
        forall|i: int| 0 <= i < n ==> white_space(#[trigger] s[i]),
        n < s.len() ==> !white_space(s[n]),
    ensures
        leading_space(s) == n,
    decreases s.len(),
{
    if n > 0 {
        let rest = s.drop_first();
        assert(white_space(s[0]));
        assert forall|i: int| 0 <= i < n - 1 implies white_space(#[trigger] rest[i]) by {
            assert(rest[i] == s[i + 1]);
        }
        lemma_leading_space(rest, n - 1);
    }
}

/// The trailing white space of `s` is a suffix of `s` made of white space
/// only, and what stands before it does not end in white space.
pub proof fn lemma_trailing_space_bounds(s: Seq<char>)
    ensures
        trailing_space(s) <= s.len(),
        forall|i: int| s.len() - trailing_space(s) <= i < s.len() ==> white_space(#[trigger] s[i]),
        trailing_space(s) < s.len() ==> !white_space(s[s.len() - trailing_space(s) - 1]),
    decreases s.len(),
{
    if s.len() > 0 && white_space(s.last()) {
        let rest = s.drop_last();
        lemma_trailing_space_bounds(rest);
        assert forall|i: int| s.len() - trailing_space(s) <= i < s.len() implies white_space(
            #[trigger] s[i],
        ) by {
            if i < s.len() - 1 {
                assert(rest[i] == s[i]);
            }
        }
        if trailing_space(s) < s.len() {
            assert(rest[rest.len() - trailing_space(rest) - 1] == s[s.len() - trailing_space(s)
                - 1]);
        }
    }
}

/// The leading white space of `s` is a prefix of `s` made of white space only,
/// and what follows it does not start with white space.
pub proof fn lemma_leading_space_bounds(s: Seq<char>)
    ensures
        leading_space(s) <= s.len(),
        forall|i: int| 0 <= i < leading_space(s) ==> white_space(#[trigger] s[i]),
        leading_space(s) < s.len() ==> !white_space(s[leading_space(s) as int]),
    decreases s.len(),
{
    if s.len() > 0 && white_space(s.first()) {
        let rest = s.drop_first();
        lemma_leading_space_bounds(rest);
        assert forall|i: int| 0 <= i < leading_space(s) implies white_space(#[trigger] s[i]) by {
            if i > 0 {
                assert(rest[i - 1] == s[i]);
            }
        }
        if leading_space(s) < s.len() {
            assert(rest[leading_space(rest) as int] == s[leading_space(s) as int]);
        }
    }
}

/// Trimming the end touches nothing but trailing white space: the result is a
/// prefix of `s`, every character of `s` behind it is white space, and the
/// result does not end in white space.
pub proof fn lemma_trimmed_end(s: Seq<char>)
    ensures
        trimmed_end(s).len() <= s.len(),
        trimmed_end(s) == s.take(trimmed_end(s).len() as int),
        forall|i: int| trimmed_end(s).len() <= i < s.len() ==> white_space(#[trigger] s[i]),
        trimmed_end(s).len() > 0 ==> !white_space(trimmed_end(s).last()),
{
    lemma_trailing_space_bounds(s);
}

/// Trimming the end twice is trimming it once.
pub proof fn lemma_trimmed_end_idempotent(s: Seq<char>)
    ensures
        trimmed_end(trimmed_end(s)) == trimmed_end(s),
{
    lemma_trimmed_end(s);
    lemma_trailing_space(trimmed_end(s), 0);
}

/// The characters of `s`, in order, as a vector that can be indexed in constant time.
pub fn chars_of(s: &str) -> (v: Vec<char>)
    ensures
        v@ == s@,
{
    let mut v: Vec<char> = Vec::new();
    for c in it: s.chars()
        invariant
            it.seq() == s@,
            v@ == s@.take(it.index() as int),
    {
        v.push(c);
    }
    assert(v@ == s@);
    v
}

/// `s` without its trailing white space. Leading and interior white space
/// stays.
pub fn trim_end(s: &str) -> (r: &str)
    ensures
        r@ == trimmed_end(s@),
{
    let total: usize = s.unicode_len();
    let mut keep: usize = 0;
    let mut seen: usize = 0;
    for c in it: s.chars()
        invariant
            it.seq() == s@,
            total == s@.len(),
            seen == it.index(),
            keep <= seen <= s@.len(),
            forall|i: int| keep <= i < seen ==> white_space(#[trigger] s@[i]),
            keep > 0 ==> !white_space(s@[keep - 1]),
    {
        seen = seen + 1;
        if !is_white_space(c) {
            keep = seen;
        }
    }
    proof {
        lemma_trailing_space(s@, s@.len() - keep);
    }
    s.substring_char(0, keep)
}

/// The characters `chars[from..to]` without leading and trailing white space.
pub fn trim_range(chars: &Vec<char>, from: usize, to: usize) -> (r: Vec<char>)
    requires
        from <= to <= chars.len(),
    ensures
        r@ == trimmed(chars@.subrange(from as int, to as int)),
{
    let mut last: usize = to;
    while last > from && is_white_space(chars[last - 1])
        invariant
            from <= last <= to <= chars.len(),
            forall|i: int| last <= i < to ==> white_space(#[trigger] chars@[i]),
        decreases last,
    {
        last = last - 1;
    }
    let mut first: usize = from;
    while first < last && is_white_space(chars[first])
        invariant
            from <= first <= last <= chars.len(),
            forall|i: int| from <= i < first ==> white_space(#[trigger] chars@[i]),
        decreases last - first,
    {
        first = first + 1;
    }
    let mut r: Vec<char> = Vec::new();
    let mut i: usize = first;
    while i < last
        invariant
            first <= i <= last <= chars.len(),
            r@ == chars@.subrange(first as int, i as int),
        decreases last - i,
    {
        r.push(chars[i]);
        i = i + 1;
    }
    proof {
        let piece = chars@.subrange(from as int, to as int);
        lemma_trailing_space(piece, to - last);
        let head = trimmed_end(piece);
        assert(head == chars@.subrange(from as int, last as int));
        lemma_leading_space(head, first - from);
        assert(trimmed_start(head) == chars@.subrange(first as int, last as int));
    }
    r
}

/// The position of the first `sep` in `s`, or the length of `s` where `s`
/// holds none.
pub open spec fn first_index_of(s: Seq<char>, sep: char) -> int
    decreases s.len(),
{
    if s.len() == 0 || s.first() == sep {
        0
    } else {
        1 + first_index_of(s.drop_first(), sep)
    }
}

/// The pieces of `s` between occurrences of `sep`, in order. There is always
/// at least one piece; a piece may be empty.
pub open spec fn split_on(s: Seq<char>, sep: char) -> Seq<Seq<char>>
    decreases s.len(),
{
    let k = first_index_of(s, sep);
    if 0 <= k < s.len() {
        seq![s.take(k)] + split_on(s.skip(k + 1), sep)
    } else {
        seq![s]
    }
}

/// The pieces of `s` between occurrences of `sep`, each without its leading
/// and trailing white space.
pub open spec fn trimmed_pieces(s: Seq<char>, sep: char) -> Seq<Seq<char>> {
    split_on(s, sep).map_values(|piece: Seq<char>| trimmed(piece))
}

/// The views of the strings of `v`.
pub open spec fn texts(v: Seq<String>) -> Seq<Seq<char>> {
    v.map_values(|s: String| s@)
}

/// The views of the vectors of `v`.
pub open spec fn views(v: Seq<Vec<char>>) -> Seq<Seq<char>> {
    v.map_values(|t: Vec<char>| t@)
}

/// `first_index_of(s, sep)` is the one position `k` before which no `sep`
/// stands and at which, if it is inside `s`, one does.
pub proof fn lemma_first_index_of(s: Seq<char>, sep: char, k: int)
    requires
        0 <= k <= s.len(),
        forall|i: int| 0 <= i < k ==> #[trigger] s[i] != sep,
        k < s.len() ==> s[k] == sep,
    ensures
        first_index_of(s, sep) == k,
    decreases s.len(),
{
    if k > 0 {
        let rest = s.drop_first();
        assert(s[0] != sep);
        assert forall|i: int| 0 <= i < k - 1 implies #[trigger] rest[i] != sep by {
            assert(rest[i] == s[i + 1]);
        }
        lemma_first_index_of(rest, sep, k - 1);
    }
}

/// Where `s[pos]` is the first `sep` at or after `start`, the pieces from
/// `start` on are the piece `s[start..pos]` and then the pieces from `pos + 1`
/// on.
pub proof fn lemma_pieces_step(s: Seq<char>, sep: char, start: int, pos: int)
    requires
        0 <= start <= pos < s.len(),
        forall|i: int| start <= i < pos ==> #[trigger] s[i] != sep,
        s[pos] == sep,
    ensures
        trimmed_pieces(s.skip(start), sep) == seq![trimmed(s.subrange(start, pos))]
            + trimmed_pieces(s.skip(pos + 1), sep),
{
    let rest = s.skip(start);
    let k = pos - start;
    lemma_first_index_of(rest, sep, k);
    assert(rest.take(k) == s.subrange(start, pos));
    assert(rest.skip(k + 1) == s.skip(pos + 1));
    let trim = |piece: Seq<char>| trimmed(piece);
    assert((seq![rest.take(k)] + split_on(rest.skip(k + 1), sep)).map_values(trim) == seq![
        trimmed(rest.take(k)),
    ] + split_on(rest.skip(k + 1), sep).map_values(trim));
}

/// Where no `sep` stands at or after `start`, what is left is one piece.
pub proof fn lemma_pieces_last(s: Seq<char>, sep: char, start: int)
    requires
        0 <= start <= s.len(),
        forall|i: int| start <= i < s.len() ==> #[trigger] s[i] != sep,
    ensures
        trimmed_pieces(s.skip(start), sep) == seq![trimmed(s.subrange(start, s.len() as int))],
{
    let rest = s.skip(start);
    lemma_first_index_of(rest, sep, rest.len() as int);
    assert(rest == s.subrange(start, s.len() as int));
    let trim = |piece: Seq<char>| trimmed(piece);
    assert(seq![rest].map_values(trim) == seq![trimmed(rest)]);
}

/// Splits `chars` at every `sep` and trims each piece, as `str::split`
/// followed by `str::trim` does.
pub fn split_trimmed(chars: &Vec<char>, sep: char) -> (tokens: Vec<Vec<char>>)
    ensures
        views(tokens@) == trimmed_pieces(chars@, sep),
{
    let n: usize = chars.len();
    let mut tokens: Vec<Vec<char>> = Vec::new();
    let mut start: usize = 0;
    let mut pos: usize = 0;
    assert(chars@.skip(0) == chars@);
    assert(views(tokens@) == Seq::<Seq<char>>::empty());
    while pos < n
        invariant
            n == chars.len(),
            start <= pos <= n,
            forall|i: int| start <= i < pos ==> #[trigger] chars@[i] != sep,
            trimmed_pieces(chars@, sep) == views(tokens@) + trimmed_pieces(
                chars@.skip(start as int),
                sep,
            ),
        decreases n - pos,
    {
        if chars[pos] == sep {
            let token = trim_range(chars, start, pos);
            proof {
                lemma_pieces_step(chars@, sep, start as int, pos as int);
                assert(views(tokens@.push(token)) == views(tokens@).push(token@));
            }
            tokens.push(token);
            start = pos + 1;
        }
        pos = pos + 1;
    }
    let token = trim_range(chars, start, n);
    proof {
        lemma_pieces_last(chars@, sep, start as int);
        assert(views(tokens@.push(token)) == views(tokens@).push(token@));
    }
    tokens.push(token);
    tokens
}

} // verus!
