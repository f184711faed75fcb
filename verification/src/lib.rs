//! A filter for shell completion in Chinese and Japanese.
//!
//! Given a query typed in Latin letters, the filter keeps the candidates whose
//! Chinese or Japanese text the query spells from its beginning: in pinyin, in
//! a double-pinyin scheme or in romaji, as the mode value selects. Candidates
//! that are plain ASCII paths are left to the shell's own completion.
//!
//! The modules, from the leaves up:
//! - `text`: white space, trimming and splitting, over `Seq<char>`;
//! - `classify`: pure-English paths and Han script;
//! - `notation`: the set of pinyin notations;
//! - `config`: the mode value of `PINYIN_COMP_MODE`;
//! - `query`: which queries the matching engine can be built for;
//! - `readings`: which candidates the matcher can be asked about;
//! - `engine`: the boundary to the matching engine, which is taken on trust;
//! - `matcher`: the matcher, built once for a query;
//! - `filter`: the decision on each candidate, and the filter over many;
//! - `laws`: what holds of the filter for every input;
//! - `cli`: the command line.

pub mod classify;
pub mod cli;
pub mod config;
pub mod engine;
pub mod filter;
pub mod laws;
pub mod matcher;
pub mod notation;
pub mod query;
pub mod readings;
pub mod text;
