//! The matching engine: the `regex` crate, reached through a handful of
//! wrappers whose contracts are taken on trust.
//!
//! Everything the engine computes is a function of the pattern text and the
//! haystack alone. Each such result is given a name below, and the wrappers
//! say that a call returns the named value, plus the few facts about sizes
//! and offsets that the engine's documentation promises.
//!
//! This holds because every compiled expression in this crate is made by
//! [`engine_new`], from the pattern text alone and with the engine's default
//! settings. The wrappers are private to the crate, and no compiled
//! expression comes in from outside: one built with other settings would
//! answer differently for the same text.

use regex::CaptureMatches;
use regex::Regex as Program;
use vstd::prelude::*;
use vstd::string::StringSliceAdditionalSpecFns;
use vstd::utf8::is_char_boundary;

verus! {

/// `regex::Regex`, the engine's compiled form of one pattern, under the name
/// `Program` in this crate. Nothing inside it is visible to proofs.
#[verifier::external_type_specification]
#[verifier::external_body]
pub struct ExProgram(Program);

/// `regex::CaptureMatches`, the engine's iterator over the matches of one
/// pattern in one haystack. Nothing inside it is visible to proofs.
#[verifier::external_type_specification]
#[verifier::external_body]
pub struct ExCaptureMatches<'r, 'h>(CaptureMatches<'r, 'h>);

/// One group of a match as the engine reports it: the byte offset where it
/// starts and its length in bytes, or `None` for a group that took no part.
pub type Group = Option<(usize, usize)>;

/// The pattern text that a compiled expression was built from
/// (`regex::Regex::as_str`).
pub uninterp spec fn source_of(re: Program) -> Seq<char>;

/// What `regex::Regex::new` answers for a pattern: `None` when it compiles,
/// else the text of the error.
pub uninterp spec fn rejection(pattern: Seq<char>) -> Option<Seq<char>>;

/// What `regex::Regex::is_match` answers: whether the pattern matches
/// somewhere in the haystack.
pub uninterp spec fn is_match_of(pattern: Seq<char>, text: Seq<char>) -> bool;

/// What `regex::Regex::captures_len` answers: the number of groups of the
/// pattern, the whole match counted as one of them.
pub uninterp spec fn slots_of(pattern: Seq<char>) -> nat;

/// What `regex::Regex::captures` answers: the groups of the leftmost match,
/// or `None` when there is no match.
pub uninterp spec fn captures_of(pattern: Seq<char>, text: Seq<char>) -> Option<Seq<Group>>;

/// What `regex::Regex::captures_iter` yields from first to last: the groups
/// of each match.
pub uninterp spec fn all_captures_of(pattern: Seq<char>, text: Seq<char>) -> Seq<Seq<Group>>;

/// The matches that a `regex::CaptureMatches` has yet to yield.
pub uninterp spec fn pending_of(it: CaptureMatches<'_, '_>) -> Seq<Seq<Group>>;

/// What `regex::Regex::replacen` answers: the haystack with the first
/// `limit` matches, or with every match where `limit` is 0, replaced as the
/// replacement text says.
pub uninterp spec fn replaced_of(
    pattern: Seq<char>,
    text: Seq<char>,
    limit: usize,
    replacement: Seq<char>,
) -> Seq<char>;

/// Whether a group that took part lies inside `bytes` with both ends between
/// characters.
pub open spec fn group_fits(g: Group, bytes: Seq<u8>) -> bool {
    g matches Some((start, len)) ==> {
        &&& start + len <= bytes.len()
        &&& is_char_boundary(bytes, start as int)
        &&& is_char_boundary(bytes, start + len)
    }
}

/// Whether `groups` can be the groups of one match of a pattern with `slots`
/// groups: there are that many, the whole match comes first and took part,
/// and every group that took part fits.
pub open spec fn groups_fit(groups: Seq<Group>, slots: nat, bytes: Seq<u8>) -> bool {
    &&& groups.len() == slots
    &&& groups.len() >= 1
    &&& groups[0] is Some
    &&& forall|i: int| 0 <= i < groups.len() ==> group_fits(#[trigger] groups[i], bytes)
}

/// Where the whole match of `groups` starts.
pub open spec fn start_of(groups: Seq<Group>) -> int {
    match groups[0] {
        Some((start, len)) => start as int,
        None => 0,
    }
}

/// Where the whole match of `groups` ends.
pub open spec fn end_of(groups: Seq<Group>) -> int {
    match groups[0] {
        Some((start, len)) => start + len,
        None => 0,
    }
}

/// Whether `found` can be the matches of a pattern with `slots` groups in a
/// haystack, from first to last: each has groups that fit, and each starts
/// no earlier than the one before it ends.
pub open spec fn in_order(found: Seq<Seq<Group>>, slots: nat, bytes: Seq<u8>) -> bool {
    &&& forall|i: int| 0 <= i < found.len() ==> groups_fit(#[trigger] found[i], slots, bytes)
    &&& forall|i: int, j: int|
        0 <= i < j < found.len() ==> end_of(#[trigger] found[i]) <= start_of(#[trigger] found[j])
}

/// The first of `found`, where there is one.
pub open spec fn first_of(found: Seq<Seq<Group>>) -> Option<Seq<Group>> {
    if found.len() > 0 {
        Some(found[0])
    } else {
        None
    }
}

/// Calls `regex::Regex::new`. Trusted: the call succeeds exactly on the
/// patterns that `rejection` maps to `None`, the compiled expression keeps
/// the pattern text, and a failure carries the error's `Display` text.
#[verifier::external_body]
pub(crate) fn engine_new(pattern: &str) -> (r: Result<Program, String>)
    ensures
        r is Ok <==> rejection(pattern@) is None,
        r matches Ok(re) ==> source_of(re) == pattern@,
        r matches Err(msg) ==> rejection(pattern@) == Some(msg@),
{
    match Program::new(pattern) {
        Ok(re) => Ok(re),
        Err(e) => Err(e.to_string()),
    }
}

/// Calls `regex::Regex::is_match`. Trusted: the answer is the named one.
#[verifier::external_body]
pub(crate) fn engine_is_match(re: &Program, text: &str) -> (b: bool)
    ensures
        b == is_match_of(source_of(*re), text@),
{
    re.is_match(text)
}

/// Calls `regex::Regex::captures_len`. Trusted: the answer is the named one
/// and, as documented, never zero.
#[verifier::external_body]
pub(crate) fn engine_captures_len(re: &Program) -> (n: usize)
    ensures
        n == slots_of(source_of(*re)),
        n >= 1,
{
    re.captures_len()
}

/// Calls `regex::Regex::captures` and lists each group of the answer by
/// `Match::start` and `Match::len`. Trusted: the answer is the named one; it
/// is `Some` exactly when `is_match` would say yes; it has one entry for each
/// group that `captures_len` counts; entry 0, the whole match, took part;
/// and every offset lies on a character boundary inside the haystack.
#[verifier::external_body]
pub(crate) fn engine_captures(re: &Program, text: &str) -> (r: Option<Vec<Group>>)
    ensures
        r is Some <==> is_match_of(source_of(*re), text@),
        match r {
            Some(groups) => {
                &&& captures_of(source_of(*re), text@) == Some(groups@)
                &&& groups_fit(groups@, slots_of(source_of(*re)), text.spec_bytes())
            },
            None => captures_of(source_of(*re), text@) is None,
        },
{
    let caps = re.captures(text)?;
    Some(caps.iter().map(|g| g.map(|m| (m.start(), m.len()))).collect())
}

/// Calls `regex::Regex::captures_iter`. Trusted: the iterator has the named
/// matches to yield; the first of them is what `captures` answers; each has
/// one entry for each group that `captures_len` counts, the whole match
/// first, with every offset on a character boundary inside the haystack;
/// and each match starts no earlier than the one before it ends.
#[verifier::external_body]
pub(crate) fn engine_captures_iter<'r, 'h>(re: &'r Program, text: &'h str) -> (it: CaptureMatches<
    'r,
    'h,
>)
    ensures
        pending_of(it) == all_captures_of(source_of(*re), text@),
        first_of(pending_of(it)) == captures_of(source_of(*re), text@),
        pending_of(it).len() > 0 <==> is_match_of(source_of(*re), text@),
        in_order(pending_of(it), slots_of(source_of(*re)), text.spec_bytes()),
{
    re.captures_iter(text)
}

/// Calls `Iterator::next` of `regex::CaptureMatches` and lists each group
/// of the answer by `Match::start` and `Match::len`. Trusted: the first of
/// the matches yet to come is yielded and leaves the iterator; `None` comes
/// only when none is left.
#[verifier::external_body]
pub(crate) fn engine_next(it: &mut CaptureMatches<'_, '_>) -> (r: Option<Vec<Group>>)
    ensures
        match r {
            Some(groups) => {
                &&& pending_of(*old(it)).len() > 0
                &&& groups@ == pending_of(*old(it))[0]
                &&& pending_of(*final(it)) == pending_of(*old(it)).skip(1)
            },
            None => pending_of(*old(it)).len() == 0,
        },
{
    let caps = it.next()?;
    Some(caps.iter().map(|g| g.map(|m| (m.start(), m.len()))).collect())
}

/// Calls `regex::Regex::replacen` with a replacement string. Trusted: the
/// answer is the named one.
#[verifier::external_body]
pub(crate) fn engine_replacen(re: &Program, text: &str, limit: usize, replacement: &str) -> (s:
    String)
    ensures
        s@ == replaced_of(source_of(*re), text@, limit, replacement@),
{
    re.replacen(text, limit, replacement).into_owned()
}

} // verus!
