//! The compiled regular expression that callers hold.

use crate::engine::all_captures_of;
use crate::engine::captures_of;
use crate::engine::first_of;
use crate::engine::in_order;
use crate::engine::slots_of;
use crate::iter::CapturesIter;
use crate::iter::FindIter;
use crate::iter::captures_iter;
use crate::iter::find_iter;
use crate::options::Flags;
use crate::options::Options;
use crate::wrapper::RE2Wrapper;
use crate::wrapper::capture_text;
use crate::wrapper::captures;
use crate::wrapper::compile_regex;
use crate::wrapper::compile_result;
use crate::wrapper::found_groups;
use crate::wrapper::full_match;
use crate::wrapper::group_count;
use crate::wrapper::group_count_of;
use crate::wrapper::matches_part;
use crate::wrapper::matches_whole;
use crate::wrapper::partial_match;
use crate::wrapper::replace;
use crate::wrapper::replace_result;
use vstd::prelude::*;
use vstd::string::StringSliceAdditionalSpecFns;

verus! {

/// A compiled regular expression.
///
/// A value exists only for a pattern that compiled. It can be matched
/// against any number of haystacks, and is released when it is dropped.
pub struct Regex {
    raw: RE2Wrapper,
}

impl View for Regex {
    type V = Seq<char>;

    /// The search text that the expression was compiled from.
    closed spec fn view(&self) -> Seq<char> {
        self.raw@
    }
}

impl Regex {
    /// Compiles a pattern under the default options.
    ///
    /// Fails with a message where the pattern uses syntax that is not
    /// supported, such as a backreference or a lookaround.
    pub fn new(pattern: &str) -> (r: Result<Regex, String>)
        ensures
            match r {
                Ok(re) => compile_result(pattern@, Flags::defaults()) == Ok::<
                    Seq<char>,
                    Seq<char>,
                >(re@),
                Err(msg) => compile_result(pattern@, Flags::defaults()) == Err::<
                    Seq<char>,
                    Seq<char>,
                >(msg@),
            },
    {
        match compile_regex(pattern, None) {
            Ok(raw) => Ok(Regex { raw }),
            Err(msg) => Err(msg),
        }
    }

    /// Compiles a pattern under the given options, which are only read.
    pub fn with_options(pattern: &str, opts: &Options) -> (r: Result<Regex, String>)
        ensures
            match r {
                Ok(re) => compile_result(pattern@, opts@) == Ok::<Seq<char>, Seq<char>>(re@),
                Err(msg) => compile_result(pattern@, opts@) == Err::<Seq<char>, Seq<char>>(msg@),
            },
    {
        match compile_regex(pattern, Some(opts)) {
            Ok(raw) => Ok(Regex { raw }),
            Err(msg) => Err(msg),
        }
    }

    /// Whether the expression matches the whole of `text`, from its first
    /// byte to its last.
    pub fn full_match(&self, text: &str) -> (b: bool)
        ensures
            b == matches_whole(self@, text@),
    {
        full_match(&self.raw, text)
    }

    /// Whether the expression matches somewhere in `text`.
    pub fn partial_match(&self, text: &str) -> (b: bool)
        ensures
            b == matches_part(self@, text@),
    {
        partial_match(&self.raw, text)
    }

    /// The groups of the first match in `text`: entry 0 is the whole match,
    /// entry `i` is capture group `i`, and a group that took no part is
    /// `None`. Without a match the result is `None`.
    pub fn partial_captures<'t>(&self, text: &'t str) -> (r: Option<Vec<Option<&'t str>>>)
        ensures
            r.deep_view() == capture_text(text@, found_groups(self@, text@, false)),
            r is Some <==> matches_part(self@, text@),
            r matches Some(v) ==> {
                &&& v@.len() == group_count_of(self@) + 1
                &&& v@[0] is Some
            },
    {
        captures(&self.raw, text, false)
    }

    /// The groups of the match of the whole of `text`, as
    /// [`Regex::partial_captures`] gives them: entry 0, the whole match, is
    /// then `text` itself. Where the expression does not match the whole of
    /// `text` the result is `None`.
    pub fn full_captures<'t>(&self, text: &'t str) -> (r: Option<Vec<Option<&'t str>>>)
        ensures
            r.deep_view() == capture_text(text@, found_groups(self@, text@, true)),
            r is Some <==> matches_whole(self@, text@),
            r matches Some(v) ==> {
                &&& v@.len() == group_count_of(self@) + 1
                &&& v@[0].deep_view() == Some(text@)
            },
    {
        captures(&self.raw, text, true)
    }

    /// The number of capture groups of the expression, the whole match not
    /// counted.
    pub fn num_captures(&self) -> (n: usize)
        ensures
            n == group_count_of(self@),
    {
        group_count(&self.raw)
    }

    /// Replaces the first match in `text` by what the rewrite template
    /// stands for. The result is `None` where nothing matches, where the
    /// template is invalid, or where the new text would be too long.
    pub fn replace_one(&self, text: &str, rewrite: &str) -> (r: Option<String>)
        ensures
            r.deep_view() == replace_result(self@, text@, rewrite@, true),
    {
        replace(&self.raw, text, rewrite, true)
    }

    /// Replaces every match in `text` by what the rewrite template stands
    /// for. The result is `None` where nothing matches, where the template
    /// is invalid, or where the new text would be too long.
    pub fn replace_all(&self, text: &str, rewrite: &str) -> (r: Option<String>)
        ensures
            r.deep_view() == replace_result(self@, text@, rewrite@, false),
    {
        replace(&self.raw, text, rewrite, false)
    }

    /// An iterator over the matches of the expression in `text`, from left
    /// to right and without overlap. It yields the matched substrings.
    pub fn find_iter<'r, 't>(&'r self, text: &'t str) -> (it: FindIter<'r, 't>)
        ensures
            it.haystack() == text@,
            it.pending() == all_captures_of(self@, text@),
            in_order(it.pending(), slots_of(self@), text.spec_bytes()),
            first_of(it.pending()) == captures_of(self@, text@),
            !it.exhausted() <==> matches_part(self@, text@),
    {
        find_iter(&self.raw, text)
    }

    /// An iterator over the matches of the expression in `text` that yields
    /// the groups of each match: entry 0 is the whole match, entry `i` is
    /// capture group `i`.
    pub fn captures_iter<'r, 't>(&'r self, text: &'t str) -> (it: CapturesIter<'r, 't>)
        ensures
            it.haystack() == text@,
            it.groups() == group_count_of(self@),
            it.pending() == all_captures_of(self@, text@),
            in_order(it.pending(), slots_of(self@), text.spec_bytes()),
            first_of(it.pending()) == captures_of(self@, text@),
            !it.exhausted() <==> matches_part(self@, text@),
    {
        captures_iter(&self.raw, text)
    }
}

} // verus!
