//! The filter: which candidates are emitted, and in what order.
//!
//! In standard-input mode every line is trimmed at its end, pure-English
//! paths are left to ordinary completion, and what the matcher accepts is
//! emitted. In directory mode every name that holds a Han character and that
//! the matcher accepts is listed.

use crate::classify::{contains_han, has_han, is_pure_english_path, pure_english};
use crate::config::{parse_mode, resolved_notation, resolved_romaji};
use crate::engine::{engine_matches, MatcherSetup};
use crate::matcher::{prefix_setup, CandidateMatcher, Romanizer};
use crate::query::query_supported;
use crate::readings::askable;
use crate::text::{texts, trim_end, trimmed_end};
use vstd::prelude::*;

verus! {

/// The candidates that the lines of the input stand for: each line without
/// its trailing white space.
pub open spec fn candidates_of(lines: Seq<Seq<char>>) -> Seq<Seq<char>> {
    lines.map_values(|line: Seq<char>| trimmed_end(line))
}

/// Whether the matcher accepts a candidate: it can be asked about it, and
/// its answer is yes. A candidate that the matcher cannot be asked about is
/// passed over like one that does not match.
pub open spec fn accepts(setup: MatcherSetup, candidate: Seq<char>) -> bool {
    askable(setup, candidate) && engine_matches(setup, candidate)
}

/// Whether a candidate of standard-input mode is emitted: it is not a
/// pure-English path, and the matcher accepts it.
pub open spec fn emits(setup: MatcherSetup, candidate: Seq<char>) -> bool {
    !pure_english(candidate) && accepts(setup, candidate)
}

/// `emits` for a fixed setup, as a predicate on candidates.
pub open spec fn emit_test(setup: MatcherSetup) -> spec_fn(Seq<char>) -> bool {
    |candidate: Seq<char>| emits(setup, candidate)
}

/// The output of standard-input mode for the given lines.
pub open spec fn emitted(setup: MatcherSetup, lines: Seq<Seq<char>>) -> Seq<Seq<char>> {
    candidates_of(lines).filter(emit_test(setup))
}

/// The test that a candidate is no pure-English path, as a predicate on
/// candidates.
pub open spec fn foreign_test() -> spec_fn(Seq<char>) -> bool {
    |candidate: Seq<char>| !pure_english(candidate)
}

/// The candidates of the given lines that are no pure-English paths: what
/// the empty query, which matches everything, lets through.
pub open spec fn unsuppressed(lines: Seq<Seq<char>>) -> Seq<Seq<char>> {
    candidates_of(lines).filter(foreign_test())
}

/// Whether a name of directory mode is listed: it holds a Han character, and
/// the matcher accepts it.
pub open spec fn lists(setup: MatcherSetup, name: Seq<char>) -> bool {
    has_han(name) && accepts(setup, name)
}

/// `lists` for a fixed setup, as a predicate on names.
pub open spec fn list_test(setup: MatcherSetup) -> spec_fn(Seq<char>) -> bool {
    |name: Seq<char>| lists(setup, name)
}

/// The output of directory mode for the given names.
pub open spec fn listed(setup: MatcherSetup, names: Seq<Seq<char>>) -> Seq<Seq<char>> {
    names.filter(list_test(setup))
}

/// The setup of the matcher that a query and a mode value call for.
pub open spec fn setup_for(query: Seq<char>, mode: Seq<char>) -> MatcherSetup {
    prefix_setup(query, resolved_notation(mode), resolved_romaji(mode).sources())
}

/// The candidate that the matcher is to be asked about for one line of
/// standard input: the line without its trailing white space, or nothing
/// where that is a pure-English path.
pub fn candidate_of_line<'l>(line: &'l str) -> (r: Option<&'l str>)
    ensures
        r is Some <==> !pure_english(trimmed_end(line@)),
        r matches Some(candidate) ==> candidate@ == trimmed_end(line@),
{
    let candidate = trim_end(line);
    if is_pure_english_path(candidate) {
        None
    } else {
        Some(candidate)
    }
}

/// Decides one line of standard input, given the matcher's answer for the
/// candidate of the line: the candidate to emit, or nothing.
pub fn decide_line<'l>(line: &'l str, matched: bool) -> (r: Option<&'l str>)
    ensures
        r is Some <==> !pure_english(trimmed_end(line@)) && matched,
        r matches Some(candidate) ==> candidate@ == trimmed_end(line@),
{
    match candidate_of_line(line) {
        Some(candidate) => if matched {
            Some(candidate)
        } else {
            None
        },
        None => None,
    }
}

/// Decides one name of a directory listing, given the matcher's answer for
/// the name: whether it is listed.
pub fn decide_name(name: &str, matched: bool) -> (r: bool)
    ensures
        r == (has_han(name@) && matched),
{
    matched && contains_han(name)
}

impl<'a> CandidateMatcher<'a> {
    /// Decides one line of standard input: the candidate to emit, which is
    /// the line without its trailing white space, or nothing. The matcher is
    /// asked only where the candidate is no pure-English path, and a
    /// candidate that it cannot be asked about is passed over.
    pub fn select_line<'l>(&self, line: &'l str) -> (r: Option<&'l str>)
        ensures
            r is Some <==> emits(self.setup(), trimmed_end(line@)),
            r matches Some(candidate) ==> candidate@ == trimmed_end(line@),
            self.setup().query.len() == 0 ==> (r is Some <==> !pure_english(trimmed_end(line@))),
    {
        match candidate_of_line(line) {
            Some(candidate) => match self.try_match(candidate) {
                Some(true) => Some(candidate),
                _ => None,
            },
            None => None,
        }
    }

    /// Decides one read from standard input. A line that could not be read
    /// as text comes as `None`; it is passed over, and the run goes on.
    pub fn select_read<'l>(&self, read: Option<&'l str>) -> (r: Option<&'l str>)
        ensures
            r is Some <==> (read matches Some(line) && emits(self.setup(), trimmed_end(line@))),
            r matches Some(candidate) ==> candidate@ == trimmed_end(read->0@),
            self.setup().query.len() == 0 ==> (r is Some <==> (read matches Some(line)
                && !pure_english(trimmed_end(line@)))),
    {
        match read {
            Some(line) => self.select_line(line),
            None => None,
        }
    }

    /// Decides one name of a directory listing: whether it is listed. The
    /// matcher is asked only where the name holds a Han character.
    pub fn select_name(&self, name: &str) -> (r: bool)
        ensures
            r == lists(self.setup(), name@),
            self.setup().query.len() == 0 ==> r == has_han(name@),
    {
        if contains_han(name) {
            match self.try_match(name) {
                Some(true) => true,
                _ => false,
            }
        } else {
            false
        }
    }

    /// Filters the lines of standard input: the candidates that are emitted,
    /// in the order of the input.
    pub fn filter_lines(&self, lines: &Vec<String>) -> (out: Vec<String>)
        ensures
            texts(out@) == emitted(self.setup(), texts(lines@)),
            self.setup().query.len() == 0 ==> texts(out@) == unsuppressed(texts(lines@)),
    {
        let ghost setup = self.setup();
        let ghost input = texts(lines@);
        let mut out: Vec<String> = Vec::new();
        let mut i: usize = 0;
        proof {
            assert(input.take(0) == Seq::<Seq<char>>::empty());
            lemma_emitted_push(setup, Seq::empty(), Seq::empty());
            lemma_unsuppressed_push(Seq::empty(), Seq::empty());
            assert(texts(out@) == Seq::<Seq<char>>::empty());
        }
        while i < lines.len()
            invariant
                i <= lines.len(),
                setup == self.setup(),
                input == texts(lines@),
                texts(out@) == emitted(setup, input.take(i as int)),
                setup.query.len() == 0 ==> texts(out@) == unsuppressed(input.take(i as int)),
            decreases lines.len() - i,
        {
            let selected = self.select_line(lines[i].as_str());
            proof {
                assert(input[i as int] == lines@[i as int]@);
                assert(input.take(i + 1) == input.take(i as int).push(input[i as int]));
                lemma_emitted_push(setup, input.take(i as int), input[i as int]);
                lemma_unsuppressed_push(input.take(i as int), input[i as int]);
            }
            match selected {
                Some(candidate) => {
                    let owned = candidate.to_owned();
                    assert(texts(out@.push(owned)) == texts(out@).push(owned@));
                    out.push(owned);
                },
                None => {},
            }
            i = i + 1;
        }
        assert(input.take(i as int) == input);
        out
    }

    /// Filters the names of a directory listing: the names that are listed,
    /// in the order of the listing.
    pub fn filter_names(&self, names: &Vec<String>) -> (out: Vec<String>)
        ensures
            texts(out@) == listed(self.setup(), texts(names@)),
    {
        let ghost setup = self.setup();
        let ghost input = texts(names@);
        let mut out: Vec<String> = Vec::new();
        let mut i: usize = 0;
        proof {
            assert(input.take(0) == Seq::<Seq<char>>::empty());
            lemma_listed_push(setup, Seq::empty(), Seq::empty());
            assert(texts(out@) == Seq::<Seq<char>>::empty());
        }
        while i < names.len()
            invariant
                i <= names.len(),
                setup == self.setup(),
                input == texts(names@),
                texts(out@) == listed(setup, input.take(i as int)),
            decreases names.len() - i,
        {
            let name = names[i].as_str();
            proof {
                assert(input[i as int] == name@);
                assert(input.take(i + 1) == input.take(i as int).push(input[i as int]));
                lemma_listed_push(setup, input.take(i as int), input[i as int]);
            }
            if self.select_name(name) {
                let owned = name.to_owned();
                assert(texts(out@.push(owned)) == texts(out@).push(owned@));
                out.push(owned);
            }
            i = i + 1;
        }
        assert(input.take(i as int) == input);
        out
    }
}

/// Runs standard-input mode from plain values: resolves the mode value,
/// builds the matcher for the query once, and filters the lines. The query
/// has to be one that the engine can be built for, which
/// `query_is_supported` tests. The output is fixed by the three arguments,
/// so a second run on the same arguments gives the same output.
pub fn filter_candidates(query: &str, mode: &str, lines: &Vec<String>) -> (out: Vec<String>)
    requires
        query_supported(query@),
    ensures
        texts(out@) == emitted(setup_for(query@, mode@), texts(lines@)),
        query@.len() == 0 ==> texts(out@) == unsuppressed(texts(lines@)),
{
    let selection = parse_mode(mode);
    let romanizer = Romanizer::load(selection.romaji);
    let matcher = CandidateMatcher::new(query, selection.notation, &romanizer);
    matcher.filter_lines(lines)
}

/// One more line adds its candidate to the end of the output if the
/// candidate is emitted, and leaves the output as it is if not. The output
/// for no lines is empty.
pub proof fn lemma_emitted_push(setup: MatcherSetup, lines: Seq<Seq<char>>, line: Seq<char>)
    ensures
        emitted(setup, Seq::empty()) == Seq::<Seq<char>>::empty(),
        emitted(setup, lines.push(line)) == if emits(setup, trimmed_end(line)) {
            emitted(setup, lines).push(trimmed_end(line))
        } else {
            emitted(setup, lines)
        },
{
    let none = Seq::<Seq<char>>::empty();
    assert(candidates_of(none) == none);
    assert(none.filter(emit_test(setup)) == none) by {
        reveal(Seq::filter);
    }
    assert(candidates_of(lines.push(line)) == candidates_of(lines).push(trimmed_end(line)));
    candidates_of(lines).lemma_filter_push(trimmed_end(line), emit_test(setup));
}

/// One more line adds its candidate to what the empty query lets through
/// unless the candidate is a pure-English path.
pub proof fn lemma_unsuppressed_push(lines: Seq<Seq<char>>, line: Seq<char>)
    ensures
        unsuppressed(Seq::empty()) == Seq::<Seq<char>>::empty(),
        unsuppressed(lines.push(line)) == if pure_english(trimmed_end(line)) {
            unsuppressed(lines)
        } else {
            unsuppressed(lines).push(trimmed_end(line))
        },
{
    let none = Seq::<Seq<char>>::empty();
    assert(candidates_of(none) == none);
    assert(none.filter(foreign_test()) == none) by {
        reveal(Seq::filter);
    }
    assert(candidates_of(lines.push(line)) == candidates_of(lines).push(trimmed_end(line)));
    candidates_of(lines).lemma_filter_push(trimmed_end(line), foreign_test());
}

/// One more name adds itself to the end of the listing if it is listed, and
/// leaves the listing as it is if not. The listing of no names is empty.
pub proof fn lemma_listed_push(setup: MatcherSetup, names: Seq<Seq<char>>, name: Seq<char>)
    ensures
        listed(setup, Seq::empty()) == Seq::<Seq<char>>::empty(),
        listed(setup, names.push(name)) == if lists(setup, name) {
            listed(setup, names).push(name)
        } else {
            listed(setup, names)
        },
{
    let none = Seq::<Seq<char>>::empty();
    assert(none.filter(list_test(setup)) == none) by {
        reveal(Seq::filter);
    }
    names.lemma_filter_push(name, list_test(setup));
}

} // verus!
