//! The boundary to the matching engine, the crate `ib_matcher`.
//!
//! Nothing in this file is proved. Each item states what the rest of the
//! library takes for granted about the engine; the functions that call into
//! it are kept as small as the call itself.

use ib_matcher::matcher::{IbMatcher, PinyinMatchConfig, RomajiMatchConfig};
use ib_matcher::pinyin::PinyinNotation;
use crate::notation::NOTATION_MASK;
use crate::query::query_supported;
use crate::readings::askable;
use crate::text::texts;
use ib_matcher::romaji::{HepburnRomanizer, Input};
use vstd::prelude::*;
use vstd::string::StringSliceAdditionalSpecFns;
use vstd::utf8::is_char_boundary;

verus! {

/// The engine's romanizer for Japanese text, `ib_matcher::romaji::HepburnRomanizer`.
/// Its contents are not visible to the verifier.
#[verifier::external_type_specification]
#[verifier::external_body]
pub struct ExHepburnRomanizer(ib_matcher::romaji::HepburnRomanizer);

/// The engine's matcher for UTF-8 text, `ib_matcher::matcher::IbMatcher<'a, str>`.
/// Its contents are not visible to the verifier.
#[verifier::external_body]
pub struct Engine<'a> {
    inner: IbMatcher<'a, str>,
}

/// What a romanizer draws its readings from.
pub struct RomanizerSources {
    /// Readings of kana.
    pub kana: bool,
    /// Readings of single kanji.
    pub kanji: bool,
    /// Readings of the words of the dictionary.
    pub word: bool,
}

/// What a matcher was built with.
pub struct MatcherSetup {
    /// The pattern that candidates are matched against.
    pub query: Seq<char>,
    /// Whether a match has to begin at the start of the candidate.
    pub starts_with: bool,
    /// The pinyin notations, as the engine's bit mask.
    pub notations: u32,
    /// The sources of the romanizer, where romaji matching is on.
    pub romaji: Option<RomanizerSources>,
}

/// The sources that `romanizer` was built with.
pub uninterp spec fn romanizer_sources(romanizer: HepburnRomanizer) -> RomanizerSources;

/// What `engine` was built with.
pub uninterp spec fn engine_setup(engine: Engine) -> MatcherSetup;

/// The readings that a romanizer with the given sources gives for what
/// stands in `text` at byte offset `at`, in the order in which it gives them:
/// the second components of the result of `HepburnRomanizer::romanize_vec`.
/// The romanizer reads `text` before the offset too, so the whole text is an
/// argument.
pub uninterp spec fn readings_at(sources: RomanizerSources, text: Seq<char>, at: int) -> Seq<
    Seq<char>,
>;

/// Whether a matcher built with `setup` finds a match in `candidate`: the
/// result of `IbMatcher::is_match`. The engine decides it from the pattern,
/// its options and the data compiled into it, so equal arguments give equal
/// results.
pub uninterp spec fn engine_matches(setup: MatcherSetup, candidate: Seq<char>) -> bool;

/// Calls `HepburnRomanizer::builder()`, sets `kana`, `kanji` and `word` as
/// given, and builds. The contract records the three options as the sources
/// of the result; it says nothing of the readings themselves. Without kana
/// and without words the romanizer's automaton would have no pattern, which
/// its builder answers with a panic, so one of the two has to be on.
#[verifier::external_body]
pub(crate) fn load_romanizer(kana: bool, kanji: bool, word: bool) -> (romanizer: HepburnRomanizer)
    requires
        kana || word,
    ensures
        romanizer_sources(romanizer) == (RomanizerSources { kana, kanji, word }),
{
    HepburnRomanizer::builder().kana(kana).kanji(kanji).word(word).build()
}

/// Calls `IbMatcher::builder(query)` with `starts_with` as given, a pinyin
/// configuration made by `PinyinMatchConfig::builder` from the notations in
/// `notations`, and, where a romanizer is given, a romaji configuration made
/// by `RomajiMatchConfig::builder` that borrows it; every other option keeps
/// the engine's default. The contract records these arguments as the setup
/// of the result.
///
/// The builder folds the case of the query and slices the folded form at the
/// byte offsets of the query's characters, so it panics where a character
/// before the last one changes its encoded length under folding: such
/// queries are left out. Bits outside the mask name no notation and would be
/// dropped by `PinyinNotation::from_bits_truncate`: they are left out too,
/// so that the recorded mask is the one the engine holds.
#[verifier::external_body]
pub(crate) fn build_engine<'a>(
    query: &str,
    starts_with: bool,
    notations: u32,
    romanizer: Option<&'a HepburnRomanizer>,
) -> (engine: Engine<'a>)
    requires
        query_supported(query@),
        notations <= NOTATION_MASK,
    ensures
        engine_setup(engine) == (MatcherSetup {
            query: query@,
            starts_with,
            notations,
            romaji: match romanizer {
                Some(r) => Some(romanizer_sources(*r)),
                None => None,
            },
        }),
{
    let pinyin = PinyinMatchConfig::builder(PinyinNotation::from_bits_truncate(notations)).build();
    let romaji = romanizer.map(|r| RomajiMatchConfig::builder().romanizer(r).build());
    let inner =
        IbMatcher::builder(query).starts_with(starts_with).pinyin(pinyin).maybe_romaji(romaji).build();
    Engine { inner }
}

/// Calls `HepburnRomanizer::romanize_vec` on `text` from byte offset `at`
/// on, and hands out the readings without their lengths. The offset has to
/// be a character boundary inside `text`, or the romanizer's slice of the
/// text panics. The contract gives the result its name.
#[verifier::external_body]
pub(crate) fn romanizer_readings(romanizer: &HepburnRomanizer, text: &str, at: usize) -> (out: Vec<
    String,
>)
    requires
        at <= text.spec_bytes().len(),
        is_char_boundary(text.spec_bytes(), at as int),
    ensures
        texts(out@) == readings_at(romanizer_sources(*romanizer), text@, at as int),
{
    romanizer.romanize_vec(Input::new(text, at)).into_iter().map(|(_, romaji)| String::from(romaji))
        .collect()
}

/// Calls `IbMatcher::is_match` on `candidate`. The contract gives the result
/// its name: what the engine answers for this setup and this candidate. It
/// adds the one fact that the engine documents for every candidate: an empty
/// pattern matches everything.
///
/// With the word dictionary loaded the engine compares the query with the
/// readings of the romanizer, byte by byte, through a table of 128 entries
/// that it indexes with the reading's byte unchecked. Some readings of the
/// dictionary hold a character outside ASCII. So, unless the query is empty,
/// which the engine answers before it romanizes anything, the candidate has
/// to be one whose readings are all ASCII, wherever in it a character
/// starts; and the search has to be anchored, since an unanchored one
/// romanizes the ends of the candidate without what stands before them.
#[verifier::external_body]
pub(crate) fn engine_is_match(engine: &Engine, candidate: &str) -> (matched: bool)
    requires
        askable(engine_setup(*engine), candidate@),
    ensures
        matched == engine_matches(engine_setup(*engine), candidate@),
        engine_setup(*engine).query.len() == 0 ==> matched,
{
    engine.inner.is_match(candidate)
}

} // verus!
