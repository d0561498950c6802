//! Regular expressions with a small, checked surface over a matching engine.
//!
//! A pattern is compiled once, under [`Options`] or the defaults, into a
//! [`Regex`]. The expression can then be matched against any number of
//! haystacks: as a whole or somewhere inside, with or without the capture
//! groups, once or match after match through an iterator, and matches can be
//! replaced by a rewrite template.
//!
//! The engine itself is the `regex` crate. What this crate adds, and proves,
//! is everything between the caller and the engine:
//!
//! - [`options`]: the compile options, a plain record of flags;
//! - [`syntax`]: what is done to a pattern's text before it is compiled;
//! - [`rewrite`]: how a rewrite template is read;
//! - [`span`]: byte spans and their decoding into substrings of the
//!   haystack;
//! - [`wrapper`]: the compiled-pattern handle and the operations on it;
//! - [`iter`]: the cursor over successive matches and the two iterators;
//! - [`pattern`]: the [`Regex`] type that callers hold;
//! - [`engine`] and [`text`]: the calls into the engine and into the standard
//!   library whose contracts are taken on trust.
//!
//! Contracts speak of strings through their characters, and of what the
//! engine computes through names such as [`engine::is_match_of`]: the value
//! that the engine returns for a pattern text and a haystack.

#![allow(non_camel_case_types)]

pub mod engine;
pub mod iter;
pub mod options;
pub mod pattern;
pub mod rewrite;
pub mod span;
pub mod syntax;
pub mod text;
pub mod wrapper;

pub use options::Options;
pub use pattern::Regex;
pub use wrapper::has_icu;
