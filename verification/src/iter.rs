//! Lazy iteration over the matches of a pattern in one haystack.
//!
//! A cursor is active as soon as it is made. Each call of `next` advances it
//! once. The first `None` ends the iteration for good: a new iterator has to
//! be made to scan again.

use crate::engine::Group;
use crate::engine::all_captures_of;
use crate::engine::captures_of;
use crate::engine::end_of;
use crate::engine::engine_captures_iter;
use crate::engine::engine_next;
use crate::engine::first_of;
use crate::engine::group_fits;
use crate::engine::groups_fit;
use crate::engine::in_order;
use crate::engine::pending_of;
use crate::engine::slots_of;
use crate::engine::start_of;
use crate::span::decode_captures;
use crate::span::slice_span;
use crate::text::byte_len;
use crate::wrapper::RE2Wrapper;
use crate::wrapper::fill_spans;
use crate::wrapper::group_count_of;
use crate::wrapper::group_span;
use crate::wrapper::group_text;
use crate::wrapper::groups_text;
use crate::wrapper::lemma_spans_show_groups;
use crate::wrapper::matches_part;
use crate::wrapper::slot_count;
use crate::wrapper::unset_spans;
use regex::CaptureMatches;
use vstd::prelude::*;
use vstd::string::StringSliceAdditionalSpecFns;
use vstd::utf8::encode_utf8;

verus! {

/// What the whole match of each of `found` shows of `text`, in their order.
pub open spec fn matches_text(text: Seq<char>, found: Seq<Seq<Group>>) -> Seq<Seq<char>> {
    Seq::new(found.len(), |i: int| group_text(text, found[i][0])->0)
}

/// What the groups of each of `found` show of `text`, in their order: for
/// each match the whole match first, then the capture groups.
pub open spec fn captures_text(text: Seq<char>, found: Seq<Seq<Group>>) -> Seq<
    Seq<Option<Seq<char>>>,
> {
    Seq::new(found.len(), |i: int| groups_text(text, found[i]))
}

/// The two iterators go over the same matches: what the one yields for a
/// match is entry 0 of what the other yields for it.
pub proof fn lemma_match_heads_set(text: Seq<char>, found: Seq<Seq<Group>>, slots: nat, i: int)
    requires
        in_order(found, slots, encode_utf8(text)),
        0 <= i < found.len(),
    ensures
        matches_text(text, found).len() == captures_text(text, found).len(),
        captures_text(text, found)[i].len() == slots,
        captures_text(text, found)[i][0] == Some(matches_text(text, found)[i]),
{
    assert(groups_fit(found[i], slots, encode_utf8(text)));
}

/// When the first of the matches has gone, the rest are still in order, and
/// the one that has gone had groups that fit.
pub proof fn lemma_rest_in_order(found: Seq<Seq<Group>>, slots: nat, bytes: Seq<u8>)
    requires
        in_order(found, slots, bytes),
        found.len() > 0,
    ensures
        groups_fit(found[0], slots, bytes),
        in_order(found.skip(1), slots, bytes),
{
    let rest = found.skip(1);
    assert forall|i: int| 0 <= i < rest.len() implies groups_fit(#[trigger] rest[i], slots, bytes) by {
        assert(groups_fit(found[i + 1], slots, bytes));
    }
    assert forall|i: int, j: int| 0 <= i < j < rest.len() implies end_of(#[trigger] rest[i])
        <= start_of(#[trigger] rest[j]) by {
        assert(end_of(found[i + 1]) <= start_of(found[j + 1]));
    }
}

/// Where an iteration stands. It is active from the moment it is made, and
/// exhausted from the first search that finds nothing: there is no way back.
#[derive(Clone, Copy, Debug, PartialEq, Eq, Structural)]
pub enum Phase {
    /// Further matches may come.
    Active,
    /// No match will come any more.
    Exhausted,
}

impl Phase {
    /// The phase after a search that found a match, or found none.
    pub open spec fn after_spec(self, found: bool) -> Phase {
        if self == Phase::Active && found {
            Phase::Active
        } else {
            Phase::Exhausted
        }
    }

    /// The phase after a search that found a match, or found none. An
    /// exhausted iteration stays exhausted whatever is found.
    pub fn after(self, found: bool) -> (next: Phase)
        ensures
            next == self.after_spec(found),
            self == Phase::Exhausted ==> next == Phase::Exhausted,
            !found ==> next == Phase::Exhausted,
    {
        if self == Phase::Active && found {
            Phase::Active
        } else {
            Phase::Exhausted
        }
    }

    /// Whether no match will come any more: no search is to be made then.
    pub fn is_exhausted(self) -> (b: bool)
        ensures
            b == (self == Phase::Exhausted),
    {
        self == Phase::Exhausted
    }
}

/// The streaming search over one haystack: it finds the matches one after
/// the other, from left to right.
///
/// Every cursor is well formed: the matches that it has yet to find have all
/// the groups of the pattern, inside the haystack, and come from left to
/// right without overlap.
pub struct Cursor<'r, 't> {
    raw: CaptureMatches<'r, 't>,
    text: &'t str,
    slots: usize,
    phase: Phase,
}

impl<'r, 't> Cursor<'r, 't> {
    /// The matches that are yet to be found, each with all its groups, the
    /// whole match first.
    pub closed spec fn pending(&self) -> Seq<Seq<Group>> {
        if self.phase == Phase::Exhausted {
            Seq::empty()
        } else {
            pending_of(self.raw)
        }
    }

    /// The haystack.
    pub closed spec fn haystack(&self) -> Seq<char> {
        self.text@
    }

    /// The number of groups of the pattern, the whole match counted.
    pub closed spec fn slots(&self) -> nat {
        self.slots as nat
    }

    /// Whether the search has come to its end.
    pub open spec fn exhausted(&self) -> bool {
        self.pending().len() == 0
    }

    /// The matches that are yet to come are in order, and the pattern has
    /// the whole match among its groups.
    #[verifier::type_invariant]
    spec fn well_formed(self) -> bool {
        &&& in_order(self.pending(), self.slots as nat, self.text.spec_bytes())
        &&& self.slots >= 1
    }

    /// The haystack.
    pub fn text(&self) -> (text: &'t str)
        ensures
            text@ == self.haystack(),
    {
        self.text
    }

    /// The number of groups of the pattern, the whole match counted: the
    /// number of entries of each match.
    pub fn slot_count(&self) -> (n: usize)
        ensures
            n == self.slots(),
            n >= 1,
    {
        proof {
            use_type_invariant(self);
        }
        self.slots
    }

    /// Advances the cursor once: the groups of the next match, or `None`
    /// when there is no further one, together with the cursor behind that
    /// match. After the first `None` every further advance gives `None`.
    pub fn advance(self) -> (r: (Option<Vec<Group>>, Cursor<'r, 't>))
        ensures
            r.1.haystack() == self.haystack(),
            r.1.slots() == self.slots(),
            r.0 is None <==> self.exhausted(),
            r.0 is None ==> r.1.exhausted(),
            r.0 matches Some(groups) ==> {
                &&& groups@ == self.pending()[0]
                &&& groups_fit(groups@, self.slots(), encode_utf8(self.haystack()))
                &&& r.1.pending() == self.pending().skip(1)
            },
    {
        proof {
            use_type_invariant(&self);
        }
        let ghost before = self.pending();
        let Cursor { raw, text, slots, phase } = self;
        if phase.is_exhausted() {
            return (None, Cursor { raw, text, slots, phase });
        }
        let mut raw = raw;
        let found = engine_next(&mut raw);
        proof {
            if found is Some {
                lemma_rest_in_order(before, slots as nat, text.spec_bytes());
            }
        }
        let phase = phase.after(found.is_some());
        (found, Cursor { raw, text, slots, phase })
    }
}

/// A cursor over the matches of the pattern in `text`.
///
/// The matches come from left to right and do not overlap. There is one
/// exactly when the pattern matches somewhere in `text`, and the first is
/// the match whose groups [`crate::wrapper::captures`] gives.
pub fn iterator_new<'r, 't>(raw: &'r RE2Wrapper, text: &'t str) -> (it: Cursor<'r, 't>)
    ensures
        it.haystack() == text@,
        it.slots() == slots_of(raw@),
        it.pending() == all_captures_of(raw@, text@),
        in_order(it.pending(), slots_of(raw@), text.spec_bytes()),
        first_of(it.pending()) == captures_of(raw@, text@),
        !it.exhausted() <==> matches_part(raw@, text@),
{
    let slots = slot_count(raw);
    let raw = engine_captures_iter(raw.searcher(), text);
    Cursor { raw, text, slots, phase: Phase::Active }
}

/// The matches that a cursor has yet to find, where there is a cursor.
pub open spec fn pending_in(cursor: Option<Cursor<'_, '_>>) -> Seq<Seq<Group>> {
    match cursor {
        Some(c) => c.pending(),
        None => Seq::empty(),
    }
}

/// The haystack of a cursor, where there is a cursor.
pub open spec fn haystack_in(cursor: Option<Cursor<'_, '_>>) -> Seq<char> {
    match cursor {
        Some(c) => c.haystack(),
        None => Seq::empty(),
    }
}

/// An iterator over the matches of a pattern in one haystack, from left to
/// right. It yields the matched substrings.
pub struct FindIter<'r, 't> {
    cursor: Option<Cursor<'r, 't>>,
}

impl<'r, 't> FindIter<'r, 't> {
    /// The matches that are yet to be yielded, each with all its groups, the
    /// whole match first.
    pub closed spec fn pending(&self) -> Seq<Seq<Group>> {
        pending_in(self.cursor)
    }

    /// The haystack.
    pub closed spec fn haystack(&self) -> Seq<char> {
        haystack_in(self.cursor)
    }

    /// Whether the iteration has come to its end.
    pub open spec fn exhausted(&self) -> bool {
        self.pending().len() == 0
    }

    /// The next match, or `None` when there is no further one. After the
    /// first `None` every call returns `None`.
    pub fn next(&mut self) -> (r: Option<&'t str>)
        ensures
            final(self).haystack() == old(self).haystack(),
            r is None <==> old(self).exhausted(),
            r is None ==> final(self).exhausted(),
            r matches Some(piece) ==> {
                &&& piece@ == matches_text(old(self).haystack(), old(self).pending())[0]
                &&& final(self).pending() == old(self).pending().skip(1)
            },
    {
        match self.cursor.take() {
            None => None,
            Some(cursor) => {
                let text = cursor.text();
                let (found, cursor) = cursor.advance();
                self.cursor = Some(cursor);
                match found {
                    None => None,
                    Some(groups) => {
                        assert(group_fits(groups@[0], text.spec_bytes()));
                        Some(slice_span(text, group_span(groups[0])))
                    },
                }
            },
        }
    }

    /// All the matches that are left, in their order. The iterator is used
    /// up.
    pub fn collect(self) -> (out: Vec<&'t str>)
        ensures
            out.deep_view() == matches_text(self.haystack(), self.pending()),
    {
        let mut it = self;
        let mut out: Vec<&'t str> = Vec::new();
        loop
            invariant
                it.haystack() == self.haystack(),
                out@.len() + it.pending().len() == self.pending().len(),
                it.pending() == self.pending().skip(out@.len() as int),
                forall|k: int|
                    0 <= k < out@.len() ==> (#[trigger] out@[k])@ == matches_text(
                        self.haystack(),
                        self.pending(),
                    )[k],
            ensures
                it.pending().len() == 0,
            decreases it.pending().len(),
        {
            match it.next() {
                None => {
                    break ;
                },
                Some(piece) => {
                    out.push(piece);
                },
            }
        }
        assert(out.deep_view() =~= matches_text(self.haystack(), self.pending()));
        out
    }
}

/// An iterator over the matches of a pattern in one haystack, from left to
/// right. For each match it yields a set of substrings: entry 0 is the whole
/// match, entry `i` is capture group `i`, and a group that took no part is
/// `None`.
pub struct CapturesIter<'r, 't> {
    cursor: Option<Cursor<'r, 't>>,
}

impl<'r, 't> CapturesIter<'r, 't> {
    /// The matches that are yet to be yielded, each with all its groups, the
    /// whole match first.
    pub closed spec fn pending(&self) -> Seq<Seq<Group>> {
        pending_in(self.cursor)
    }

    /// The haystack.
    pub closed spec fn haystack(&self) -> Seq<char> {
        haystack_in(self.cursor)
    }

    /// The number of capture groups of the pattern, the whole match not
    /// counted: each set that is yielded has one entry more.
    pub closed spec fn groups(&self) -> int {
        match self.cursor {
            Some(c) => c.slots() - 1,
            None => 0,
        }
    }

    /// Whether the iteration has come to its end.
    pub open spec fn exhausted(&self) -> bool {
        self.pending().len() == 0
    }

    /// The groups of the next match, the whole match first, or `None` when
    /// there is no further one. After the first `None` every call returns
    /// `None`.
    pub fn next(&mut self) -> (r: Option<Vec<Option<&'t str>>>)
        ensures
            final(self).haystack() == old(self).haystack(),
            final(self).groups() == old(self).groups(),
            r is None <==> old(self).exhausted(),
            r is None ==> final(self).exhausted(),
            r matches Some(set) ==> {
                &&& set.deep_view() == groups_text(old(self).haystack(), old(self).pending()[0])
                &&& set@.len() == old(self).groups() + 1
                &&& set@[0] is Some
                &&& final(self).pending() == old(self).pending().skip(1)
            },
    {
        match self.cursor.take() {
            None => None,
            Some(cursor) => {
                let text = cursor.text();
                let cap_count = cursor.slot_count();
                let (found, cursor) = cursor.advance();
                self.cursor = Some(cursor);
                match found {
                    None => None,
                    Some(groups) => {
                        // No offset inside the text can be taken for the unset mark.
                        let text_len = byte_len(text);
                        let mut spans = unset_spans(cap_count);
                        let written = fill_spans(&mut spans, &groups);
                        proof {
                            lemma_spans_show_groups(text@, spans@, groups@, cap_count as nat);
                        }
                        let out = decode_captures(text, &spans, written);
                        assert(out.deep_view() =~= groups_text(text@, groups@));
                        assert(out.deep_view()[0] == out@[0].deep_view());
                        Some(out)
                    },
                }
            },
        }
    }

    /// The groups of all the matches that are left, in their order, for each
    /// match the whole match first. The iterator is used up.
    pub fn collect(self) -> (out: Vec<Vec<Option<&'t str>>>)
        ensures
            out.deep_view() == captures_text(self.haystack(), self.pending()),
    {
        let mut it = self;
        let mut out: Vec<Vec<Option<&'t str>>> = Vec::new();
        loop
            invariant
                it.haystack() == self.haystack(),
                out@.len() + it.pending().len() == self.pending().len(),
                it.pending() == self.pending().skip(out@.len() as int),
                forall|k: int|
                    0 <= k < out@.len() ==> (#[trigger] out@[k]).deep_view() == captures_text(
                        self.haystack(),
                        self.pending(),
                    )[k],
            ensures
                it.pending().len() == 0,
            decreases it.pending().len(),
        {
            match it.next() {
                None => {
                    break ;
                },
                Some(piece) => {
                    out.push(piece);
                },
            }
        }
        assert(out.deep_view() =~= captures_text(self.haystack(), self.pending()));
        out
    }
}

/// An iterator over the matches of the pattern in `text` that yields the
/// matched substrings.
///
/// The matches come from left to right and do not overlap. There is one
/// exactly when the pattern matches somewhere in `text`, and the first is
/// the match whose groups [`crate::wrapper::captures`] gives.
pub fn find_iter<'r, 't>(raw: &'r RE2Wrapper, text: &'t str) -> (it: FindIter<'r, 't>)
    ensures
        it.haystack() == text@,
        it.pending() == all_captures_of(raw@, text@),
        in_order(it.pending(), slots_of(raw@), text.spec_bytes()),
        first_of(it.pending()) == captures_of(raw@, text@),
        !it.exhausted() <==> matches_part(raw@, text@),
{
    FindIter { cursor: Some(iterator_new(raw, text)) }
}

/// An iterator over the matches of the pattern in `text` that yields the
/// groups of each match: the whole match, then the capture groups.
///
/// The matches are those of [`find_iter`], in the same order.
pub fn captures_iter<'r, 't>(raw: &'r RE2Wrapper, text: &'t str) -> (it: CapturesIter<'r, 't>)
    ensures
        it.haystack() == text@,
        it.groups() == group_count_of(raw@),
        it.pending() == all_captures_of(raw@, text@),
        in_order(it.pending(), slots_of(raw@), text.spec_bytes()),
        first_of(it.pending()) == captures_of(raw@, text@),
        !it.exhausted() <==> matches_part(raw@, text@),
{
    CapturesIter { cursor: Some(iterator_new(raw, text)) }
}

} // verus!
