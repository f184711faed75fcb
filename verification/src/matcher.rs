//! The match evaluator: a matcher bound to one query and one configuration,
//! built once and asked about every candidate.

use crate::config::RomajiMode;
use crate::engine::{
    build_engine, engine_is_match, engine_matches, engine_setup, load_romanizer,
    romanizer_readings, romanizer_sources, Engine, MatcherSetup, RomanizerSources,
};
use crate::notation::PinyinNotationSet;
use crate::query::query_supported;
use crate::readings::{are_all_ascii, askable, readings_ascii_at, readings_comparable};
use ib_matcher::romaji::HepburnRomanizer;
use vstd::prelude::*;
use vstd::string::StringSliceAdditionalSpecFns;
use vstd::utf8::is_char_boundary;

verus! {

impl RomajiMode {
    /// The sources that the romanizer of this mode draws from; none where
    /// romaji matching is off.
    pub open spec fn sources(self) -> Option<RomanizerSources> {
        match self {
            RomajiMode::Disabled => None,
            RomajiMode::Fast => Some(RomanizerSources { kana: true, kanji: true, word: false }),
            RomajiMode::Full => Some(RomanizerSources { kana: true, kanji: true, word: true }),
        }
    }
}

/// The setup of the matcher for `query` under the given notations and
/// romanizer sources. Matching is always anchored at the start of the
/// candidate.
pub open spec fn prefix_setup(
    query: Seq<char>,
    notation: PinyinNotationSet,
    romaji: Option<RomanizerSources>,
) -> MatcherSetup {
    MatcherSetup { query, starts_with: true, notations: notation.spec_bits(), romaji }
}

/// The romaji data of one mode. Loading it is the costly part of building a
/// matcher, so it is loaded once and lent to the matcher.
pub struct Romanizer {
    mode: RomajiMode,
    inner: Option<HepburnRomanizer>,
}

impl Romanizer {
    /// What was loaded is what the mode asks for.
    #[verifier::type_invariant]
    spec fn loaded_for_mode(self) -> bool {
        self.sources() == self.mode.sources()
    }

    /// The sources of the loaded romanizer; none where nothing was loaded.
    pub closed spec fn sources(&self) -> Option<RomanizerSources> {
        match self.inner {
            Some(r) => Some(romanizer_sources(r)),
            None => None,
        }
    }

    /// Loads what `mode` needs: nothing where it is disabled, kana and kanji
    /// readings where it is fast, and the word dictionary too where it is
    /// full.
    pub fn load(mode: RomajiMode) -> (r: Romanizer)
        ensures
            r.sources() == mode.sources(),
    {
        match mode {
            RomajiMode::Disabled => Romanizer { mode, inner: None },
            RomajiMode::Fast => Romanizer { mode, inner: Some(load_romanizer(true, true, false)) },
            RomajiMode::Full => Romanizer { mode, inner: Some(load_romanizer(true, true, true)) },
        }
    }

    /// The mode that the romanizer was loaded for.
    pub fn mode(&self) -> (mode: RomajiMode)
        ensures
            mode.sources() == self.sources(),
    {
        proof {
            use_type_invariant(self);
        }
        self.mode
    }

    /// Tests whether every reading that the romanizer gives for `text` is
    /// ASCII, at every offset at which a character starts. Without a
    /// romanizer there is no reading.
    pub fn reads_ascii(&self, text: &str) -> (ok: bool)
        ensures
            self.sources() matches Some(sources) ==> ok == readings_comparable(sources, text@),
            self.sources() is None ==> ok,
    {
        match &self.inner {
            None => true,
            Some(romanizer) => {
                let ghost sources = romanizer_sources(*romanizer);
                let bytes = text.as_bytes();
                let n: usize = bytes.len();
                let mut at: usize = 0;
                while at < n
                    invariant
                        n == text.spec_bytes().len(),
                        at <= n,
                        sources == romanizer_sources(*romanizer),
                        self.sources() == Some(sources),
                        forall|b: int|
                            0 <= b < at && is_char_boundary(text.spec_bytes(), b)
                                ==> #[trigger] readings_ascii_at(sources, text@, b),
                    decreases n - at,
                {
                    if text.is_char_boundary(at) {
                        let readings = romanizer_readings(romanizer, text, at);
                        if !are_all_ascii(&readings) {
                            assert(!readings_ascii_at(sources, text@, at as int));
                            return false;
                        }
                    }
                    at = at + 1;
                }
                true
            },
        }
    }
}

/// A matcher bound to one query, one notation set and one romanizer.
pub struct CandidateMatcher<'a> {
    empty_query: bool,
    romanizer: &'a Romanizer,
    engine: Engine<'a>,
}

impl<'a> CandidateMatcher<'a> {
    /// The matcher is anchored, it knows whether its query is empty, and its
    /// romanizer is the one that the engine was built with.
    #[verifier::type_invariant]
    spec fn consistent(self) -> bool {
        &&& engine_setup(self.engine).starts_with
        &&& engine_setup(self.engine).romaji == self.romanizer.sources()
        &&& self.empty_query == (engine_setup(self.engine).query.len() == 0)
    }

    /// What the matcher was built with.
    pub closed spec fn setup(&self) -> MatcherSetup {
        engine_setup(self.engine)
    }

    /// Whether the query matches `candidate`.
    pub open spec fn matches(&self, candidate: Seq<char>) -> bool {
        engine_matches(self.setup(), candidate)
    }

    /// Whether the matcher can be asked about `candidate`.
    pub open spec fn can_ask(&self, candidate: Seq<char>) -> bool {
        askable(self.setup(), candidate)
    }

    /// Builds the matcher for `query`: anchored at the start of the
    /// candidate, with pinyin matching in the notations of `notation` and
    /// romaji matching by `romanizer`, where that holds one. The query has to
    /// be one that the engine can be built for, which `query_is_supported`
    /// tests.
    pub fn new(query: &str, notation: PinyinNotationSet, romanizer: &'a Romanizer) -> (m: Self)
        requires
            query_supported(query@),
        ensures
            m.setup() == prefix_setup(query@, notation, romanizer.sources()),
    {
        let engine = build_engine(query, true, notation.bits(), romanizer.inner.as_ref());
        CandidateMatcher { empty_query: query.is_empty(), romanizer, engine }
    }

    /// Tests whether the matcher can be asked about `candidate`. With the
    /// word dictionary loaded and a query that is not empty, this asks the
    /// romanizer at every character of the candidate.
    pub fn is_askable(&self, candidate: &str) -> (ok: bool)
        ensures
            ok == self.can_ask(candidate@),
    {
        proof {
            use_type_invariant(self);
        }
        if self.empty_query {
            return true;
        }
        match self.romanizer.mode() {
            RomajiMode::Full => self.romanizer.reads_ascii(candidate),
            _ => true,
        }
    }

    /// Whether the query matches `candidate`, for a candidate that the
    /// matcher can be asked about. The empty query matches every candidate.
    pub fn is_match(&self, candidate: &str) -> (r: bool)
        requires
            self.can_ask(candidate@),
        ensures
            r == self.matches(candidate@),
            self.setup().query.len() == 0 ==> r,
    {
        engine_is_match(&self.engine, candidate)
    }

    /// Whether the query matches `candidate`, or nothing where the matcher
    /// cannot be asked about it.
    pub fn try_match(&self, candidate: &str) -> (r: Option<bool>)
        ensures
            r is Some <==> self.can_ask(candidate@),
            r matches Some(matched) ==> matched == self.matches(candidate@),
            self.setup().query.len() == 0 ==> r == Some(true),
    {
        if self.is_askable(candidate) {
            Some(self.is_match(candidate))
        } else {
            None
        }
    }
}

} // verus!
