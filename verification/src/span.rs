//! Byte spans into a haystack and their decoding into substrings.

use crate::text::byte_len;
use vstd::prelude::*;
use vstd::string::StringSliceAdditionalSpecFns;
use vstd::utf8::decode_utf8;
use vstd::utf8::encode_utf8;
use vstd::utf8::encode_utf8_decode_utf8;
use vstd::utf8::encode_utf8_valid_utf8;
use vstd::utf8::is_char_boundary;
use vstd::utf8::length_of_first_scalar;
use vstd::utf8::pop_first_scalar;
use vstd::utf8::valid_utf8;

verus! {

/// A matched or captured region of a haystack: a byte offset and a byte length.
///
/// A span whose `start` is `usize::MAX` is *unset*: it stands for a capture
/// group that took no part in the match, and is distinct from an empty match
/// at offset 0.
#[derive(Clone, Copy, Debug, PartialEq, Eq, Structural)]
pub struct re2_span_t {
    pub start: usize,
    pub len: usize,
}

impl re2_span_t {
    /// Whether this span is the unset sentinel.
    pub open spec fn unset(self) -> bool {
        self.start == usize::MAX
    }

    /// The offset one past the last byte of the span.
    pub open spec fn end(self) -> int {
        self.start + self.len
    }

    /// Whether the span lies inside `bytes`, a UTF-8 encoding, with both of
    /// its ends between characters.
    pub open spec fn fits(self, bytes: Seq<u8>) -> bool {
        &&& self.end() <= bytes.len()
        &&& is_char_boundary(bytes, self.start as int)
        &&& is_char_boundary(bytes, self.end())
    }

    /// The unset span.
    pub open spec fn unset_span() -> re2_span_t {
        re2_span_t { start: usize::MAX, len: 0 }
    }

    /// The unset span.
    pub fn none() -> (s: re2_span_t)
        ensures
            s == Self::unset_span(),
    {
        re2_span_t { start: usize::MAX, len: 0 }
    }

    /// Whether this span is the unset sentinel.
    pub fn is_unset(&self) -> (b: bool)
        ensures
            b == self.unset(),
    {
        self.start == usize::MAX
    }
}

/// The characters that the bytes `start .. start + len` of the UTF-8 encoding
/// of `text` decode to.
pub open spec fn slice_of(text: Seq<char>, start: int, len: int) -> Seq<char> {
    decode_utf8(encode_utf8(text).subrange(start, start + len))
}

/// A character boundary stays one in the rest of the encoding behind an
/// earlier boundary.
pub proof fn lemma_boundary_in_suffix(bytes: Seq<u8>, a: int, b: int)
    requires
        valid_utf8(bytes),
        is_char_boundary(bytes, a),
        is_char_boundary(bytes, b),
        0 <= a <= b,
    ensures
        b <= bytes.len(),
        is_char_boundary(bytes.subrange(a, bytes.len() as int), b - a),
    decreases bytes.len(),
{
    reveal_with_fuel(is_char_boundary, 2);
    if a == 0 {
        assert(bytes.subrange(0, bytes.len() as int) =~= bytes);
    } else {
        let rest = pop_first_scalar(bytes);
        let first = length_of_first_scalar(bytes);
        lemma_boundary_in_suffix(rest, a - first, b - first);
        assert(rest.subrange(a - first, rest.len() as int) =~= bytes.subrange(
            a,
            bytes.len() as int,
        ));
    }
}

/// The span that covers the whole of a text shows the text.
pub proof fn lemma_slice_whole(text: Seq<char>)
    ensures
        slice_of(text, 0, encode_utf8(text).len() as int) == text,
{
    let bytes = encode_utf8(text);
    assert(bytes.subrange(0, bytes.len() as int) =~= bytes);
    encode_utf8_decode_utf8(text);
}

/// The substring of `text` that a set span covers.
pub fn slice_span<'t>(text: &'t str, s: re2_span_t) -> (r: &'t str)
    requires
        s.fits(text.spec_bytes()),
    ensures
        r@ == slice_of(text@, s.start as int, s.len as int),
{
    let ghost bytes = text.spec_bytes();
    proof {
        encode_utf8_valid_utf8(text@);
        lemma_boundary_in_suffix(bytes, s.start as int, s.end());
    }
    let (_, tail) = text.split_at(s.start);
    let (r, _) = tail.split_at(s.len);
    proof {
        assert(r.spec_bytes() == bytes.subrange(s.start as int, s.end()));
        encode_utf8_decode_utf8(r@);
    }
    r
}

/// Whether a span lies inside `text` with both of its ends between
/// characters, so that it can be decoded.
pub fn span_fits(text: &str, s: re2_span_t) -> (b: bool)
    ensures
        b == s.fits(text.spec_bytes()),
{
    let n = byte_len(text);
    if s.start > n || s.len > n - s.start {
        false
    } else {
        text.is_char_boundary(s.start) && text.is_char_boundary(s.start + s.len)
    }
}

/// What a span shows of `text`: nothing where it is unset, else the
/// characters that it covers.
pub open spec fn span_text(text: Seq<char>, s: re2_span_t) -> Option<Seq<char>> {
    if s.unset() {
        None
    } else {
        Some(slice_of(text, s.start as int, s.len as int))
    }
}

/// An empty match is not an absent group: a span of length 0 inside the
/// text, also one at offset 0, shows the empty text, and only the unset span
/// shows nothing.
pub proof fn lemma_empty_span_is_set(text: Seq<char>, start: usize)
    requires
        start <= encode_utf8(text).len(),
        start < usize::MAX,
    ensures
        span_text(text, re2_span_t { start, len: 0 }) == Some(Seq::<char>::empty()),
        span_text(text, re2_span_t::unset_span()) is None,
{
    assert(encode_utf8(text).subrange(start as int, start + 0) =~= Seq::<u8>::empty());
    assert(valid_utf8(Seq::<u8>::empty()));
    assert(decode_utf8(Seq::<u8>::empty()) =~= Seq::<char>::empty());
}

/// How many of `spans` count when `written` of them are reported as filled:
/// never more than there are.
pub open spec fn clamped(written: usize, spans: Seq<re2_span_t>) -> int {
    if written <= spans.len() {
        written as int
    } else {
        spans.len() as int
    }
}

/// What the first `clamped(written, spans)` spans show of `text`.
pub open spec fn spans_text(text: Seq<char>, spans: Seq<re2_span_t>, written: usize) -> Seq<
    Option<Seq<char>>,
> {
    Seq::new(clamped(written, spans) as nat, |i: int| span_text(text, spans[i]))
}

/// Decodes one span: `None` for the unset span, else the substring of `text`
/// that it covers.
pub fn decode_span<'t>(text: &'t str, s: re2_span_t) -> (r: Option<&'t str>)
    requires
        !s.unset() ==> s.fits(text.spec_bytes()),
    ensures
        r.deep_view() == span_text(text@, s),
{
    if s.start == usize::MAX {
        None
    } else {
        Some(slice_span(text, s))
    }
}

/// Decodes the spans that a search has filled: one entry for each of the
/// first `written` spans, and never more entries than there are spans.
pub fn decode_captures<'t>(text: &'t str, spans: &Vec<re2_span_t>, written: usize) -> (out: Vec<
    Option<&'t str>,
>)
    requires
        all_fit(spans@, clamped(written, spans@), text.spec_bytes()),
    ensures
        out.deep_view() == spans_text(text@, spans@, written),
        out@.len() == clamped(written, spans@),
        out@.len() <= spans@.len(),
        out@.len() <= written,
{
    let count = if written <= spans.len() {
        written
    } else {
        spans.len()
    };
    let mut out: Vec<Option<&'t str>> = Vec::with_capacity(count);
    let mut i: usize = 0;
    while i < count
        invariant
            count == clamped(written, spans@),
            i <= count,
            out@.len() == i,
            all_fit(spans@, clamped(written, spans@), text.spec_bytes()),
            forall|k: int| 0 <= k < i ==> (#[trigger] out@[k]).deep_view() == span_text(text@, spans@[k]),
        decreases count - i,
    {
        let piece = decode_span(text, spans[i]);
        out.push(piece);
        i += 1;
    }
    assert(out.deep_view() =~= spans_text(text@, spans@, written));
    out
}

/// Whether each of the first `n` spans is unset or fits the encoding
/// `bytes`.
pub open spec fn all_fit(spans: Seq<re2_span_t>, n: int, bytes: Seq<u8>) -> bool {
    forall|i: int| 0 <= i < n ==> (#[trigger] spans[i]).unset() || spans[i].fits(bytes)
}

/// Decodes the spans that a search has filled, as [`decode_captures`] does,
/// after making sure that each of them can be decoded. Where one of the
/// spans that count is set and does not fit `text`, the result is `None`.
pub fn decode_checked<'t>(text: &'t str, spans: &Vec<re2_span_t>, written: usize) -> (r: Option<
    Vec<Option<&'t str>>,
>)
    ensures
        r is Some <==> all_fit(spans@, clamped(written, spans@), text.spec_bytes()),
        r matches Some(out) ==> out.deep_view() == spans_text(text@, spans@, written),
{
    let count = if written <= spans.len() {
        written
    } else {
        spans.len()
    };
    let mut i: usize = 0;
    while i < count
        invariant
            count == clamped(written, spans@),
            i <= count,
            all_fit(spans@, i as int, text.spec_bytes()),
        decreases count - i,
    {
        if !spans[i].is_unset() && !span_fits(text, spans[i]) {
            return None;
        }
        i += 1;
    }
    Some(decode_captures(text, spans, written))
}

} // verus!
