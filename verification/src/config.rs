//! Resolution of the matching mode from the value of the environment
//! variable `PINYIN_COMP_MODE`.
//!
//! The value is a comma-separated list of tokens. Surrounding white space of
//! a token is ignored; unrecognized tokens are skipped without error.

use crate::notation::{PinyinNotationSet, ShuangpinScheme};
use crate::text::{chars_of, split_on, split_trimmed, trimmed, trimmed_pieces, views};
use vstd::prelude::*;

verus! {

/// How Japanese text is matched.
#[derive(Clone, Copy, Debug, PartialEq, Eq)]
pub enum RomajiMode {
    /// No romaji matching.
    Disabled,
    /// Kana and single kanji are romanized; no word dictionary is loaded.
    Fast,
    /// Kana and single kanji are romanized, and so are the words of the
    /// dictionary.
    Full,
}

/// What the mode value selects: the pinyin notations and the romaji mode.
#[derive(Clone, Copy, Debug, PartialEq, Eq)]
pub struct ModeSelection {
    pub notation: PinyinNotationSet,
    pub romaji: RomajiMode,
}

/// The tokens of a mode value: its comma-separated pieces, each trimmed.
pub open spec fn mode_tokens(value: Seq<char>) -> Seq<Seq<char>> {
    trimmed_pieces(value, ',')
}

/// The double-pinyin scheme that a token names, if it names one.
pub open spec fn scheme_named(token: Seq<char>) -> Option<ShuangpinScheme> {
    if token == "ShuangpinAbc"@ {
        Some(ShuangpinScheme::Abc)
    } else if token == "ShuangpinJiajia"@ {
        Some(ShuangpinScheme::Jiajia)
    } else if token == "ShuangpinMicrosoft"@ {
        Some(ShuangpinScheme::Microsoft)
    } else if token == "ShuangpinThunisoft"@ {
        Some(ShuangpinScheme::Thunisoft)
    } else if token == "ShuangpinXiaohe"@ {
        Some(ShuangpinScheme::Xiaohe)
    } else if token == "ShuangpinZrm"@ {
        Some(ShuangpinScheme::Zrm)
    } else {
        None
    }
}

/// The scheme named by the first token that names one.
pub open spec fn first_scheme(tokens: Seq<Seq<char>>) -> Option<ShuangpinScheme>
    decreases tokens.len(),
{
    if tokens.len() == 0 {
        None
    } else if scheme_named(tokens.first()) is Some {
        scheme_named(tokens.first())
    } else {
        first_scheme(tokens.drop_first())
    }
}

/// The notations that the tokens ask for, before any default applies.
pub open spec fn requested_notation(tokens: Seq<Seq<char>>) -> PinyinNotationSet {
    PinyinNotationSet {
        ascii: tokens.contains("Quanpin"@),
        ascii_first_letter: false,
        shuangpin: first_scheme(tokens),
    }
}

/// The defaults: an empty set becomes full pinyin, and full pinyin standing
/// alone is joined by initials-only pinyin.
pub open spec fn with_defaults(requested: PinyinNotationSet) -> PinyinNotationSet {
    let filled = if requested.spec_is_empty() {
        PinyinNotationSet { ascii: true, ..requested }
    } else {
        requested
    };
    if filled.spec_is_ascii_only() {
        PinyinNotationSet { ascii_first_letter: true, ..filled }
    } else {
        filled
    }
}

/// The notation set that a list of tokens selects.
pub open spec fn notation_of_tokens(tokens: Seq<Seq<char>>) -> PinyinNotationSet {
    with_defaults(requested_notation(tokens))
}

/// The romaji mode that a list of tokens selects: full if any token asks for
/// it, else fast if any token asks for romaji, else none.
pub open spec fn romaji_of_tokens(tokens: Seq<Seq<char>>) -> RomajiMode {
    if tokens.contains("RomajiFull"@) {
        RomajiMode::Full
    } else if tokens.contains("Romaji"@) {
        RomajiMode::Fast
    } else {
        RomajiMode::Disabled
    }
}

/// The notation set that a mode value selects.
pub open spec fn resolved_notation(value: Seq<char>) -> PinyinNotationSet {
    notation_of_tokens(mode_tokens(value))
}

/// The romaji mode that a mode value selects.
pub open spec fn resolved_romaji(value: Seq<char>) -> RomajiMode {
    romaji_of_tokens(mode_tokens(value))
}

/// The mode value that the environment holds: the value of the variable, or
/// the empty value where the variable is not set.
pub open spec fn value_of_variable(variable: Option<&str>) -> Seq<char> {
    match variable {
        Some(value) => value@,
        None => Seq::empty(),
    }
}

/// What a mode value selects.
pub open spec fn resolved_mode(value: Seq<char>) -> ModeSelection {
    ModeSelection { notation: resolved_notation(value), romaji: resolved_romaji(value) }
}

/// Whether `token` spells `word`.
pub fn token_is(token: &Vec<char>, word: &str) -> (r: bool)
    ensures
        r == (token@ == word@),
{
    let mut i: usize = 0;
    for c in it: word.chars()
        invariant
            it.seq() == word@,
            i == it.index(),
            i <= token.len(),
            token@.take(i as int) == word@.take(i as int),
    {
        if i >= token.len() || token[i] != c {
            proof {
                if i < token.len() {
                    assert(token@[i as int] != word@[i as int]);
                }
            }
            return false;
        }
        assert(token@.take(i + 1) == token@.take(i as int).push(token@[i as int]));
        assert(word@.take(i + 1) == word@.take(i as int).push(word@[i as int]));
        i = i + 1;
    }
    proof {
        assert(word@.take(i as int) == word@);
        if i == token.len() {
            assert(token@.take(i as int) == token@);
        }
    }
    i == token.len()
}

/// The double-pinyin scheme that `token` names, if it names one.
pub fn scheme_of_token(token: &Vec<char>) -> (r: Option<ShuangpinScheme>)
    ensures
        r == scheme_named(token@),
{
    if token_is(token, "ShuangpinAbc") {
        Some(ShuangpinScheme::Abc)
    } else if token_is(token, "ShuangpinJiajia") {
        Some(ShuangpinScheme::Jiajia)
    } else if token_is(token, "ShuangpinMicrosoft") {
        Some(ShuangpinScheme::Microsoft)
    } else if token_is(token, "ShuangpinThunisoft") {
        Some(ShuangpinScheme::Thunisoft)
    } else if token_is(token, "ShuangpinXiaohe") {
        Some(ShuangpinScheme::Xiaohe)
    } else if token_is(token, "ShuangpinZrm") {
        Some(ShuangpinScheme::Zrm)
    } else {
        None
    }
}

/// Splits a mode value into its tokens.
pub fn tokens_of_mode(value: &str) -> (tokens: Vec<Vec<char>>)
    ensures
        views(tokens@) == mode_tokens(value@),
{
    let chars = chars_of(value);
    split_trimmed(&chars, ',')
}

/// Applies the defaults to a requested notation set.
pub fn apply_defaults(requested: PinyinNotationSet) -> (r: PinyinNotationSet)
    ensures
        r == with_defaults(requested),
        r.is_complete(),
{
    let mut notation = requested;
    if notation.is_empty() {
        notation.ascii = true;
    }
    if notation.is_ascii_only() {
        notation.ascii_first_letter = true;
    }
    notation
}

/// The notation set that `tokens` select.
pub fn pinyin_notation_of(tokens: &Vec<Vec<char>>) -> (r: PinyinNotationSet)
    ensures
        r == notation_of_tokens(views(tokens@)),
        r.is_complete(),
{
    let ghost texts = views(tokens@);
    let mut notation = PinyinNotationSet::empty();
    let mut i: usize = 0;
    assert(texts.skip(0) == texts);
    while i < tokens.len()
        invariant
            i <= tokens.len(),
            texts == views(tokens@),
            !notation.ascii_first_letter,
            notation.ascii == texts.take(i as int).contains("Quanpin"@),
            first_scheme(texts) == (if notation.shuangpin is Some {
                notation.shuangpin
            } else {
                first_scheme(texts.skip(i as int))
            }),
        decreases tokens.len() - i,
    {
        let token = &tokens[i];
        proof {
            assert(texts[i as int] == token@);
            assert(texts.take(i + 1) == texts.take(i as int).push(token@));
            assert(texts.skip(i as int).first() == token@);
            assert(texts.skip(i as int).drop_first() == texts.skip(i + 1));
            lemma_contains_push(texts.take(i as int), token@, "Quanpin"@);
        }
        if token_is(token, "Quanpin") {
            notation.ascii = true;
        }
        if notation.shuangpin.is_none() {
            notation.shuangpin = scheme_of_token(token);
        }
        i = i + 1;
    }
    proof {
        assert(texts.take(i as int) == texts);
        assert(texts.skip(i as int).len() == 0);
    }
    apply_defaults(notation)
}

/// The romaji mode that `tokens` select.
pub fn romaji_mode_of(tokens: &Vec<Vec<char>>) -> (r: RomajiMode)
    ensures
        r == romaji_of_tokens(views(tokens@)),
{
    let ghost texts = views(tokens@);
    let mut fast = false;
    let mut i: usize = 0;
    while i < tokens.len()
        invariant
            i <= tokens.len(),
            texts == views(tokens@),
            !texts.take(i as int).contains("RomajiFull"@),
            fast == texts.take(i as int).contains("Romaji"@),
        decreases tokens.len() - i,
    {
        let token = &tokens[i];
        proof {
            assert(texts[i as int] == token@);
            assert(texts.take(i + 1) == texts.take(i as int).push(token@));
            lemma_contains_push(texts.take(i as int), token@, "RomajiFull"@);
            lemma_contains_push(texts.take(i as int), token@, "Romaji"@);
        }
        if token_is(token, "RomajiFull") {
            proof {
                assert(texts[i as int] == "RomajiFull"@);
            }
            return RomajiMode::Full;
        }
        if token_is(token, "Romaji") {
            fast = true;
        }
        i = i + 1;
    }
    proof {
        assert(texts.take(i as int) == texts);
    }
    if fast {
        RomajiMode::Fast
    } else {
        RomajiMode::Disabled
    }
}

/// Resolves the pinyin notation set from the value of `PINYIN_COMP_MODE`; an
/// unset variable counts as the empty value.
pub fn parse_pinyin_notation(value: &str) -> (r: PinyinNotationSet)
    ensures
        r == resolved_notation(value@),
        r.is_complete(),
{
    let tokens = tokens_of_mode(value);
    pinyin_notation_of(&tokens)
}

/// Resolves the romaji mode from the value of `PINYIN_COMP_MODE`; an unset
/// variable counts as the empty value.
pub fn parse_romaji_mode(value: &str) -> (r: RomajiMode)
    ensures
        r == resolved_romaji(value@),
{
    let tokens = tokens_of_mode(value);
    romaji_mode_of(&tokens)
}

/// Resolves both the notation set and the romaji mode from the value of
/// `PINYIN_COMP_MODE`, each independently of the other.
pub fn parse_mode(value: &str) -> (r: ModeSelection)
    ensures
        r == resolved_mode(value@),
        r.notation.is_complete(),
{
    let tokens = tokens_of_mode(value);
    ModeSelection { notation: pinyin_notation_of(&tokens), romaji: romaji_mode_of(&tokens) }
}

/// What the environment selects, where `variable` is the value of
/// `PINYIN_COMP_MODE`, or `None` if the variable is not set: an unset
/// variable selects what the empty value selects, the default.
pub fn mode_of_variable(variable: Option<&str>) -> (r: ModeSelection)
    ensures
        r == resolved_mode(value_of_variable(variable)),
        variable is None ==> r == default_mode(),
        r.notation.is_complete(),
{
    match variable {
        Some(value) => parse_mode(value),
        None => {
            proof {
                lemma_empty_value_selects_default();
            }
            ModeSelection {
                notation: PinyinNotationSet {
                    ascii: true,
                    ascii_first_letter: true,
                    shuangpin: None,
                },
                romaji: RomajiMode::Disabled,
            }
        },
    }
}

/// A sequence extended by `last` holds `x` exactly when the sequence did or
/// `last` is `x`.
pub proof fn lemma_contains_push(s: Seq<Seq<char>>, last: Seq<char>, x: Seq<char>)
    ensures
        s.push(last).contains(x) <==> (s.contains(x) || last == x),
{
    if s.contains(x) {
        let j = choose|j: int| 0 <= j < s.len() && s[j] == x;
        assert(s.push(last)[j] == x);
    }
    if last == x {
        assert(s.push(last)[s.len() as int] == x);
    }
}

/// Whether a token is one of the nine that the mode value knows.
pub open spec fn recognized(token: Seq<char>) -> bool {
    ||| token == "Quanpin"@
    ||| scheme_named(token) is Some
    ||| token == "Romaji"@
    ||| token == "RomajiFull"@
}

/// What is selected where nothing is asked for: full pinyin with initials,
/// and no romaji.
pub open spec fn default_mode() -> ModeSelection {
    ModeSelection {
        notation: PinyinNotationSet { ascii: true, ascii_first_letter: true, shuangpin: None },
        romaji: RomajiMode::Disabled,
    }
}

/// The shape of every resolved notation set. The scheme is the one of the
/// first token that names one. Initials are accepted exactly when no scheme
/// is. Full pinyin is accepted when it is asked for, and also when no scheme
/// is. So the set is never empty, and full pinyin never stands alone.
pub proof fn lemma_notation_shape(tokens: Seq<Seq<char>>)
    ensures
        notation_of_tokens(tokens) == (PinyinNotationSet {
            ascii: tokens.contains("Quanpin"@) || first_scheme(tokens) is None,
            ascii_first_letter: first_scheme(tokens) is None,
            shuangpin: first_scheme(tokens),
        }),
        notation_of_tokens(tokens).is_complete(),
{
}

/// The first token that names a scheme decides the scheme; scheme names
/// after it do not count.
pub proof fn lemma_first_scheme_wins(tokens: Seq<Seq<char>>, i: int)
    requires
        0 <= i < tokens.len(),
        scheme_named(tokens[i]) is Some,
        forall|j: int| 0 <= j < i ==> scheme_named(#[trigger] tokens[j]) is None,
    ensures
        first_scheme(tokens) == scheme_named(tokens[i]),
    decreases tokens.len(),
{
    if i > 0 {
        let rest = tokens.drop_first();
        assert(scheme_named(tokens[0]) is None);
        assert(rest[i - 1] == tokens[i]);
        assert forall|j: int| 0 <= j < i - 1 implies scheme_named(#[trigger] rest[j]) is None by {
            assert(rest[j] == tokens[j + 1]);
        }
        lemma_first_scheme_wins(rest, i - 1);
    }
}

/// Where no token names a scheme, none is selected.
pub proof fn lemma_no_scheme(tokens: Seq<Seq<char>>)
    requires
        forall|j: int| 0 <= j < tokens.len() ==> scheme_named(#[trigger] tokens[j]) is None,
    ensures
        first_scheme(tokens) is None,
    decreases tokens.len(),
{
    if tokens.len() > 0 {
        let rest = tokens.drop_first();
        assert(scheme_named(tokens[0]) is None);
        assert forall|j: int| 0 <= j < rest.len() implies scheme_named(#[trigger] rest[j])
            is None by {
            assert(rest[j] == tokens[j + 1]);
        }
        lemma_no_scheme(rest);
    }
}

/// Tokens that are not recognized change nothing: a value made of such
/// tokens alone selects what the empty value selects.
pub proof fn lemma_unrecognized_tokens_select_default(value: Seq<char>)
    requires
        forall|i: int|
            0 <= i < mode_tokens(value).len() ==> !recognized(#[trigger] mode_tokens(value)[i]),
    ensures
        resolved_mode(value) == default_mode(),
{
    let tokens = mode_tokens(value);
    assert forall|j: int| 0 <= j < tokens.len() implies scheme_named(#[trigger] tokens[j])
        is None by {
        assert(!recognized(tokens[j]));
    }
    lemma_no_scheme(tokens);
    if tokens.contains("Quanpin"@) {
        let j = choose|j: int| 0 <= j < tokens.len() && tokens[j] == "Quanpin"@;
        assert(!recognized(tokens[j]));
    }
    if tokens.contains("Romaji"@) {
        let j = choose|j: int| 0 <= j < tokens.len() && tokens[j] == "Romaji"@;
        assert(!recognized(tokens[j]));
    }
    if tokens.contains("RomajiFull"@) {
        let j = choose|j: int| 0 <= j < tokens.len() && tokens[j] == "RomajiFull"@;
        assert(!recognized(tokens[j]));
    }
}

/// The empty value, which also stands for an unset variable, selects the
/// default.
pub proof fn lemma_empty_value_selects_default()
    ensures
        resolved_mode(Seq::empty()) == default_mode(),
{
    let value = Seq::<char>::empty();
    let trim = |piece: Seq<char>| trimmed(piece);
    assert(split_on(value, ',') == seq![value]);
    assert(trimmed(value) == value);
    assert(mode_tokens(value) == seq![value]) by {
        assert(seq![value].map_values(trim) == seq![trimmed(value)]);
    }
    reveal_strlit("Quanpin");
    reveal_strlit("ShuangpinAbc");
    reveal_strlit("ShuangpinJiajia");
    reveal_strlit("ShuangpinMicrosoft");
    reveal_strlit("ShuangpinThunisoft");
    reveal_strlit("ShuangpinXiaohe");
    reveal_strlit("ShuangpinZrm");
    reveal_strlit("Romaji");
    reveal_strlit("RomajiFull");
    assert(!recognized(value));
    lemma_unrecognized_tokens_select_default(value);
}

/// Full romaji is selected wherever a token asks for it, whatever stands
/// before or after it; fast romaji only where no token asks for full.
pub proof fn lemma_romaji_full_wins(tokens: Seq<Seq<char>>)
    ensures
        romaji_of_tokens(tokens) == RomajiMode::Full <==> tokens.contains("RomajiFull"@),
        romaji_of_tokens(tokens) == RomajiMode::Fast <==> (tokens.contains("Romaji"@)
            && !tokens.contains("RomajiFull"@)),
{
}

} // verus!
