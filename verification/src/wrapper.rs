//! The compiled-pattern handle and the operations on it.

use crate::engine::Group;
use crate::engine::captures_of;
use crate::engine::engine_captures;
use crate::engine::engine_captures_len;
use crate::engine::engine_is_match;
use crate::engine::engine_new;
use crate::engine::engine_replacen;
use crate::engine::group_fits;
use crate::engine::groups_fit;
use crate::engine::is_match_of;
use crate::engine::rejection;
use crate::engine::replaced_of;
use crate::engine::slots_of;
use crate::engine::source_of;
use crate::options::Flags;
use crate::options::Options;
use crate::rewrite::rewritten;
use crate::rewrite::rewrite_template;
use crate::span::decode_captures;
use crate::span::lemma_slice_whole;
use crate::span::re2_span_t;
use crate::span::slice_of;
use crate::span::span_text;
use crate::syntax::before;
use crate::syntax::lemma_prepared_without_longest;
use crate::syntax::prepare;
use crate::syntax::prepared;
use crate::text::byte_len;
use crate::text::chars_of;
use crate::text::string_of;
use regex::Regex as Program;
use vstd::prelude::*;
use vstd::string::StringExecFns;
use vstd::string::StringSliceAdditionalSpecFns;
use vstd::utf8::encode_utf8;

verus! {

/// The flags that a pattern is compiled under: those of the options, or the
/// defaults where there are none.
pub open spec fn flags_of(opts: Option<&Options>) -> Flags {
    match opts {
        Some(o) => o@,
        None => Flags::defaults(),
    }
}

/// The flag group that is put in front of a pattern: `i` where case is not
/// to matter, `m` under the POSIX syntax, where `^` and `$` stand at the
/// ends of lines.
pub open spec fn flag_text(f: Flags) -> Seq<char> {
    if !f.case_sensitive && f.posix_syntax {
        seq!['(', '?', 'i', 'm', ')']
    } else if !f.case_sensitive {
        seq!['(', '?', 'i', ')']
    } else if f.posix_syntax {
        seq!['(', '?', 'm', ')']
    } else {
        Seq::empty()
    }
}

/// The text that the engine compiles to search for a pattern, or `None`
/// where the pattern is refused before the engine sees it.
pub open spec fn search_text(pattern: Seq<char>, f: Flags) -> Option<Seq<char>> {
    before(flag_text(f), prepared(pattern, f))
}

/// The text that the engine compiles to match a whole haystack: the search
/// text in a group of its own between the anchors of the two ends.
pub open spec fn anchored_text(search: Seq<char>) -> Seq<char> {
    seq!['\\', 'A', '(', '?', ':'] + search + seq![')', '\\', 'z']
}

/// The message of a failure that comes with no diagnostic.
pub open spec fn generic_message() -> Seq<char> {
    "compile error"@
}

/// The message for a diagnostic of the engine: the diagnostic itself unless
/// it is empty.
pub open spec fn message_for(diagnostic: Seq<char>) -> Seq<char> {
    if diagnostic.len() > 0 {
        diagnostic
    } else {
        generic_message()
    }
}

/// What compiling a pattern comes to: the search text of the handle, or the
/// message of the failure.
///
/// A pattern compiles when it is not refused, the engine accepts both its
/// search text and the anchored form of it, and the two have the same groups.
pub open spec fn compile_result(pattern: Seq<char>, f: Flags) -> Result<Seq<char>, Seq<char>> {
    match search_text(pattern, f) {
        None => Err(generic_message()),
        Some(search) => match rejection(search) {
            Some(diagnostic) => Err(message_for(diagnostic)),
            None => match rejection(anchored_text(search)) {
                Some(diagnostic) => Err(message_for(diagnostic)),
                None => if slots_of(anchored_text(search)) == slots_of(search) {
                    Ok(search)
                } else {
                    Err(generic_message())
                },
            },
        },
    }
}

/// The number of capture groups of a compiled search text, the whole match
/// not counted.
pub open spec fn group_count_of(search: Seq<char>) -> int {
    slots_of(search) - 1
}

/// Whether the whole match of `groups` begins at the first byte of a
/// haystack of `n` bytes and ends at its last.
pub open spec fn covers(groups: Seq<Group>, n: nat) -> bool {
    &&& groups.len() > 0
    &&& groups[0] matches Some((start, len)) && start == 0 && len == n
}

/// The groups that a search reports. For a match somewhere in `text` they
/// are those of the engine's match of the search text. For a match of the
/// whole of `text` they are those of the engine's match of the anchored
/// form, and only where that match covers `text` from its first byte to its
/// last: a match of anything less is no match of the whole.
pub open spec fn found_groups(search: Seq<char>, text: Seq<char>, full: bool) -> Option<
    Seq<Group>,
> {
    let found = captures_of(matcher_text(search, full), text);
    if full && !(found is Some && covers(found->0, encode_utf8(text).len())) {
        None
    } else {
        found
    }
}

/// Whether the pattern with the given search text matches the whole of
/// `text`, from its first byte to its last.
pub open spec fn matches_whole(search: Seq<char>, text: Seq<char>) -> bool {
    found_groups(search, text, true) is Some
}

/// Whether the pattern with the given search text matches somewhere in
/// `text`.
pub open spec fn matches_part(search: Seq<char>, text: Seq<char>) -> bool {
    is_match_of(search, text)
}

/// The text that is matched against: the anchored form for a match of the
/// whole haystack, the search text for a match somewhere in it.
pub open spec fn matcher_text(search: Seq<char>, full: bool) -> Seq<char> {
    if full {
        anchored_text(search)
    } else {
        search
    }
}

/// The span that stands for a group: the unset span for one that took no
/// part.
pub open spec fn span_of(g: Group) -> re2_span_t {
    match g {
        Some((start, len)) => re2_span_t { start, len },
        None => re2_span_t::unset_span(),
    }
}

/// What a group shows of `text`.
pub open spec fn group_text(text: Seq<char>, g: Group) -> Option<Seq<char>> {
    match g {
        Some((start, len)) => Some(slice_of(text, start as int, len as int)),
        None => None,
    }
}

/// What the groups of one match show of `text`, in their order.
pub open spec fn groups_text(text: Seq<char>, groups: Seq<Group>) -> Seq<Option<Seq<char>>> {
    Seq::new(groups.len(), |i: int| group_text(text, groups[i]))
}

/// What the groups of a match show of `text`, where there is a match.
pub open spec fn capture_text(text: Seq<char>, found: Option<Seq<Group>>) -> Option<
    Seq<Option<Seq<char>>>,
> {
    match found {
        Some(groups) => Some(groups_text(text, groups)),
        None => None,
    }
}

/// The most bytes that the result of a replacement may have.
pub const REPLACE_LIMIT: usize = 1048576;

/// The number of matches that the engine is asked to replace: one, or 0 for
/// all of them.
pub open spec fn limit_of(one: bool) -> usize {
    if one {
        1
    } else {
        0
    }
}

/// What replacing comes to: `None` where the template is invalid, where
/// nothing matches, or where the new text has more than [`REPLACE_LIMIT`]
/// bytes; else the new text.
pub open spec fn replace_result(
    search: Seq<char>,
    text: Seq<char>,
    template: Seq<char>,
    one: bool,
) -> Option<Seq<char>> {
    match rewritten(template, group_count_of(search)) {
        None => None,
        Some(replacement) => if !matches_part(search, text) {
            None
        } else if encode_utf8(replaced_of(search, text, limit_of(one), replacement)).len()
            > REPLACE_LIMIT {
            None
        } else {
            Some(replaced_of(search, text, limit_of(one), replacement))
        },
    }
}

/// The pattern whose compiling shows whether the engine knows the Unicode
/// properties beyond scripts and general categories.
pub open spec fn property_probe() -> Seq<char> {
    "\\p{Emoji}"@
}

/// A pattern compiles only where it is not refused and the engine accepts
/// both its search text and the anchored form of it; the handle then stands
/// for that search text.
pub proof fn lemma_compiled_is_accepted(pattern: Seq<char>, f: Flags)
    requires
        compile_result(pattern, f) is Ok,
    ensures
        search_text(pattern, f) == Some(compile_result(pattern, f)->Ok_0),
        rejection(compile_result(pattern, f)->Ok_0) is None,
        rejection(anchored_text(compile_result(pattern, f)->Ok_0)) is None,
{
}

/// What the engine rejects never compiles: the failure carries the engine's
/// diagnostic, or the generic message where the diagnostic is empty.
pub proof fn lemma_rejected_never_compiles(pattern: Seq<char>, f: Flags)
    requires
        search_text(pattern, f) is Some,
        rejection(search_text(pattern, f)->0) is Some,
    ensures
        compile_result(pattern, f) == Err::<Seq<char>, Seq<char>>(
            message_for(rejection(search_text(pattern, f)->0)->0),
        ),
{
}

/// What is refused before the engine sees it never compiles.
pub proof fn lemma_refused_never_compiles(pattern: Seq<char>, f: Flags)
    requires
        prepared(pattern, f) is None,
    ensures
        compile_result(pattern, f) == Err::<Seq<char>, Seq<char>>(generic_message()),
{
}

/// A failure to compile always comes with a message that is not empty.
pub proof fn lemma_failure_has_message(pattern: Seq<char>, f: Flags)
    requires
        compile_result(pattern, f) is Err,
    ensures
        compile_result(pattern, f)->Err_0.len() > 0,
{
    reveal_strlit("compile error");
}

/// Whether the longest match is wanted has no bearing on what compiling
/// comes to: the flag is kept with the options, and the engine searches for
/// the first match at the leftmost place whatever its value.
pub proof fn lemma_longest_match_is_not_read(pattern: Seq<char>, f: Flags, wanted: bool)
    ensures
        compile_result(pattern, Flags { longest_match: wanted, ..f }) == compile_result(pattern, f),
{
    let g = Flags { longest_match: wanted, ..f };
    lemma_prepared_without_longest(pattern, 0, f, wanted);
    assert(flag_text(g) == flag_text(f));
}

/// A match of the whole of a text is a match that the engine finds for the
/// anchored form, and its whole match is the text from the first byte to
/// the last.
pub proof fn lemma_whole_match_covers(search: Seq<char>, text: Seq<char>)
    requires
        matches_whole(search, text),
    ensures
        captures_of(anchored_text(search), text) is Some,
        group_text(text, found_groups(search, text, true)->0[0]) == Some(text),
{
    lemma_slice_whole(text);
}

/// Without a match nothing is replaced: the result is `None`, whatever the
/// template.
pub proof fn lemma_replace_needs_match(
    search: Seq<char>,
    text: Seq<char>,
    template: Seq<char>,
    one: bool,
)
    requires
        !matches_part(search, text),
    ensures
        replace_result(search, text, template, one) is None,
{
}

/// The text that a replacement hands out never has more than
/// [`REPLACE_LIMIT`] bytes, and its template was valid.
pub proof fn lemma_replace_within_limit(
    search: Seq<char>,
    text: Seq<char>,
    template: Seq<char>,
    one: bool,
)
    requires
        replace_result(search, text, template, one) is Some,
    ensures
        encode_utf8(replace_result(search, text, template, one)->0).len() <= REPLACE_LIMIT,
        rewritten(template, group_count_of(search)) is Some,
        matches_part(search, text),
{
}

/// A compiled pattern: the one handle through which all matching goes.
///
/// It holds the engine's compiled form of the search text and of its
/// anchored form, and the number of capture groups. A handle exists only for
/// a pattern that compiled; it is released when it is dropped.
pub struct RE2Wrapper {
    search: Program,
    anchored: Program,
    slots: usize,
}

impl View for RE2Wrapper {
    type V = Seq<char>;

    /// The search text that the handle was compiled from.
    closed spec fn view(&self) -> Seq<char> {
        source_of(self.search)
    }
}

impl RE2Wrapper {
    /// The second expression was compiled from the anchored form of the
    /// text of the first, and `slots` is the number of groups of both.
    #[verifier::type_invariant]
    spec fn well_formed(self) -> bool {
        &&& source_of(self.anchored) == anchored_text(source_of(self.search))
        &&& slots_of(source_of(self.search)) == self.slots
        &&& slots_of(source_of(self.anchored)) == self.slots
        &&& self.slots >= 1
    }

    /// The engine's compiled form of the search text.
    pub(crate) fn searcher(&self) -> (re: &Program)
        ensures
            source_of(*re) == self@,
    {
        &self.search
    }
}

/// The text in `v` as a string, with `head` in front and `tail` behind.
fn framed(head: &str, v: &Vec<char>, tail: &str) -> (s: String)
    ensures
        s@ == head@ + v@ + tail@,
{
    let mut s = String::from_str(head);
    let body = string_of(v);
    s.append(body.as_str());
    s.append(tail);
    s
}

/// The flag group for the given options, as characters.
fn flag_chars(opts: &Options) -> (v: Vec<char>)
    ensures
        v@ == flag_text(opts@),
{
    let mut v: Vec<char> = Vec::new();
    let fold = !opts.is_case_sensitive();
    let lines = opts.is_posix_syntax();
    if fold || lines {
        v.push('(');
        v.push('?');
        if fold {
            v.push('i');
        }
        if lines {
            v.push('m');
        }
        v.push(')');
    }
    assert(v@ =~= flag_text(opts@));
    v
}

/// The message of a failure for which the engine gave `diagnostic`: the
/// diagnostic itself where there is one, and the generic message where it is
/// empty.
pub fn message_from(diagnostic: String) -> (msg: String)
    ensures
        msg@ == message_for(diagnostic@),
{
    if diagnostic.as_str().is_empty() {
        String::from_str("compile error")
    } else {
        diagnostic
    }
}

/// Compiles a pattern, under the given options or, without any, under the
/// defaults.
///
/// The options are only read. On success the handle is ready for every
/// operation of this module. On failure the message is the engine's
/// diagnostic where there is one, and a generic one otherwise.
pub fn compile_regex(pattern: &str, opts: Option<&Options>) -> (r: Result<RE2Wrapper, String>)
    ensures
        match r {
            Ok(raw) => compile_result(pattern@, flags_of(opts)) == Ok::<Seq<char>, Seq<char>>(
                raw@,
            ),
            Err(msg) => compile_result(pattern@, flags_of(opts)) == Err::<Seq<char>, Seq<char>>(
                msg@,
            ),
        },
{
    let o = match opts {
        Some(o) => *o,
        None => Options::new(),
    };
    let chars = chars_of(pattern);
    let mut text = flag_chars(&o);
    match prepare(&chars, &o) {
        None => {
            return Err(String::from_str("compile error"));
        },
        Some(mut body) => {
            text.append(&mut body);
        },
    }
    let search_text = string_of(&text);
    let search = match engine_new(search_text.as_str()) {
        Ok(re) => re,
        Err(diagnostic) => {
            return Err(message_from(diagnostic));
        },
    };
    let anchored_text = framed("\\A(?:", &text, ")\\z");
    proof {
        reveal_strlit("\\A(?:");
        reveal_strlit(")\\z");
        assert("\\A(?:"@ =~= seq!['\\', 'A', '(', '?', ':']);
        assert(")\\z"@ =~= seq![')', '\\', 'z']);
    }
    let anchored = match engine_new(anchored_text.as_str()) {
        Ok(re) => re,
        Err(diagnostic) => {
            return Err(message_from(diagnostic));
        },
    };
    let slots = engine_captures_len(&search);
    if engine_captures_len(&anchored) != slots {
        return Err(String::from_str("compile error"));
    }
    Ok(RE2Wrapper { search, anchored, slots })
}

/// Releases a handle. Dropping it does the same.
pub fn delete_regex(raw: RE2Wrapper) {
}

/// Whether the pattern matches the whole of `text`, from its first byte to
/// its last.
pub fn full_match(raw: &RE2Wrapper, text: &str) -> (b: bool)
    ensures
        b == matches_whole(raw@, text@),
{
    search_groups(raw, text, true).is_some()
}

/// Whether the pattern matches somewhere in `text`.
pub fn partial_match(raw: &RE2Wrapper, text: &str) -> (b: bool)
    ensures
        b == matches_part(raw@, text@),
{
    engine_is_match(&raw.search, text)
}

/// The number of groups of the pattern, the whole match counted as one: the
/// number of spans that a search with captures fills.
pub fn slot_count(raw: &RE2Wrapper) -> (n: usize)
    ensures
        n == slots_of(raw@),
        n == group_count_of(raw@) + 1,
        n >= 1,
{
    proof {
        use_type_invariant(raw);
    }
    raw.slots
}

/// The number of capture groups of the pattern, the whole match not counted.
pub fn group_count(raw: &RE2Wrapper) -> (n: usize)
    ensures
        n == group_count_of(raw@),
{
    proof {
        use_type_invariant(raw);
    }
    raw.slots - 1
}

/// The span that stands for a group.
pub fn group_span(g: Group) -> (s: re2_span_t)
    ensures
        s == span_of(g),
{
    match g {
        Some((start, len)) => re2_span_t { start, len },
        None => re2_span_t::none(),
    }
}

/// Whether the whole match of `groups` covers the whole of `text`.
pub fn covers_text(groups: &Vec<Group>, text: &str) -> (b: bool)
    ensures
        b == covers(groups@, text.spec_bytes().len()),
{
    if groups.len() == 0 {
        return false;
    }
    let n = byte_len(text);
    match groups[0] {
        Some((start, len)) => start == 0 && len == n,
        None => false,
    }
}

/// Searches `text` for the pattern and gives the groups of the match, the
/// whole match first, or `None` without a match.
///
/// With `full` the pattern has to match the whole of `text`: the anchored
/// form is searched for, and its match is taken only where it covers `text`
/// from the first byte to the last. Else the first match somewhere in
/// `text` is taken.
pub fn search_groups(raw: &RE2Wrapper, text: &str, full: bool) -> (r: Option<Vec<Group>>)
    ensures
        match r {
            Some(groups) => {
                &&& found_groups(raw@, text@, full) == Some(groups@)
                &&& groups_fit(groups@, slots_of(raw@), text.spec_bytes())
            },
            None => found_groups(raw@, text@, full) is None,
        },
        r is Some ==> is_match_of(matcher_text(raw@, full), text@),
        !full ==> (r is Some <==> matches_part(raw@, text@)),
{
    proof {
        use_type_invariant(raw);
    }
    if full {
        match engine_captures(&raw.anchored, text) {
            None => None,
            Some(groups) => {
                if covers_text(&groups, text) {
                    Some(groups)
                } else {
                    None
                }
            },
        }
    } else {
        engine_captures(&raw.search, text)
    }
}

/// Writes the spans of `groups` into the front of `spans`, as many as there
/// is room for, and reports how many groups there were to write. The rest
/// of `spans` is left as it was.
pub fn fill_spans(spans: &mut Vec<re2_span_t>, groups: &Vec<Group>) -> (written: usize)
    ensures
        written == groups@.len(),
        final(spans)@.len() == old(spans)@.len(),
        forall|i: int|
            0 <= i < old(spans)@.len() ==> #[trigger] final(spans)@[i] == if i < written {
                span_of(groups@[i])
            } else {
                old(spans)@[i]
            },
{
    let written = groups.len();
    let mut i: usize = 0;
    while i < written && i < spans.len()
        invariant
            written == groups@.len(),
            spans@.len() == old(spans)@.len(),
            i <= written,
            i <= spans@.len(),
            forall|k: int|
                0 <= k < spans@.len() ==> #[trigger] spans@[k] == if k < i {
                    span_of(groups@[k])
                } else {
                    old(spans)@[k]
                },
        decreases spans.len() - i,
    {
        spans.set(i, group_span(groups[i]));
        i += 1;
    }
    written
}

/// A buffer of `n` unset spans.
pub fn unset_spans(n: usize) -> (spans: Vec<re2_span_t>)
    ensures
        spans@.len() == n,
        forall|i: int| 0 <= i < n ==> #[trigger] spans@[i] == re2_span_t::unset_span(),
{
    let mut spans: Vec<re2_span_t> = Vec::with_capacity(n);
    let mut i: usize = 0;
    while i < n
        invariant
            i <= n,
            spans@.len() == i,
            forall|k: int| 0 <= k < i ==> #[trigger] spans@[k] == re2_span_t::unset_span(),
        decreases n - i,
    {
        spans.push(re2_span_t::none());
        i += 1;
    }
    spans
}

/// Searches `text` and writes the span of each group of the match into the
/// front of `spans`, as many as there is room for.
///
/// Returns whether there is a match, and how many groups the match has.
/// Without a match `spans` is left as it was. With `full` only a match of
/// the whole of `text` counts.
pub fn match_captures(raw: &RE2Wrapper, text: &str, full: bool, spans: &mut Vec<re2_span_t>) -> (r:
    (bool, usize))
    ensures
        final(spans)@.len() == old(spans)@.len(),
        r.0 == found_groups(raw@, text@, full) is Some,
        r.0 == (if full {
            matches_whole(raw@, text@)
        } else {
            matches_part(raw@, text@)
        }),
        match found_groups(raw@, text@, full) {
            None => r.1 == 0 && final(spans)@ == old(spans)@,
            Some(groups) => {
                &&& r.1 == groups.len()
                &&& groups_fit(groups, slots_of(raw@), text.spec_bytes())
                &&& forall|i: int|
                    0 <= i < old(spans)@.len() ==> #[trigger] final(spans)@[i] == if i
                        < groups.len() {
                        span_of(groups[i])
                    } else {
                        old(spans)@[i]
                    }
            },
        },
{
    match search_groups(raw, text, full) {
        None => (false, 0),
        Some(groups) => {
            let written = fill_spans(spans, &groups);
            (true, written)
        },
    }
}

/// A set of spans of groups that fit `text` shows, span by span, what the
/// groups show, and each span can be decoded.
pub proof fn lemma_spans_show_groups(
    text: Seq<char>,
    spans: Seq<re2_span_t>,
    groups: Seq<Group>,
    slots: nat,
)
    requires
        encode_utf8(text).len() < usize::MAX,
        groups_fit(groups, slots, encode_utf8(text)),
        spans.len() == groups.len(),
        forall|i: int| 0 <= i < spans.len() ==> #[trigger] spans[i] == span_of(groups[i]),
    ensures
        forall|i: int|
            0 <= i < spans.len() ==> {
                &&& span_text(text, #[trigger] spans[i]) == group_text(text, groups[i])
                &&& (spans[i].unset() || spans[i].fits(encode_utf8(text)))
            },
{
    assert forall|i: int| 0 <= i < spans.len() implies {
        &&& span_text(text, #[trigger] spans[i]) == group_text(text, groups[i])
        &&& (spans[i].unset() || spans[i].fits(encode_utf8(text)))
    } by {
        assert(group_fits(groups[i], encode_utf8(text)));
    }
}

/// The groups of the match of the pattern in `text`: entry 0 is the whole
/// match, entry `i` is capture group `i`, and a group that took no part is
/// `None`. Without a match the result is `None`.
///
/// With `full` the pattern has to match the whole of `text`, and entry 0 is
/// then `text` itself. Else the first match somewhere in `text` is taken.
pub fn captures<'t>(raw: &RE2Wrapper, text: &'t str, full: bool) -> (r: Option<
    Vec<Option<&'t str>>,
>)
    ensures
        r.deep_view() == capture_text(text@, found_groups(raw@, text@, full)),
        r is Some <==> (if full {
            matches_whole(raw@, text@)
        } else {
            matches_part(raw@, text@)
        }),
        r matches Some(v) ==> {
            &&& v@.len() == group_count_of(raw@) + 1
            &&& v@[0] is Some
            &&& full ==> v@[0].deep_view() == Some(text@)
        },
{
    let cap_count = slot_count(raw);
    let mut spans = unset_spans(cap_count);
    let (ok, written) = match_captures(raw, text, full, &mut spans);
    if !ok {
        return None;
    }
    // No offset inside the text can be taken for the unset mark.
    let text_len = byte_len(text);
    let ghost groups = found_groups(raw@, text@, full)->0;
    proof {
        lemma_spans_show_groups(text@, spans@, groups, slots_of(raw@));
        if full {
            lemma_slice_whole(text@);
        }
    }
    let out = decode_captures(text, &spans, written);
    assert(out.deep_view() =~= groups_text(text@, groups));
    assert(out.deep_view()[0] == out@[0].deep_view());
    Some(out)
}

/// What is handed out of a replacement that came to `out`: `None` where it
/// has more than [`REPLACE_LIMIT`] bytes, else the text itself.
pub fn within_limit(out: String) -> (r: Option<String>)
    ensures
        r == if encode_utf8(out@).len() > REPLACE_LIMIT {
            None
        } else {
            Some(out)
        },
{
    if byte_len(out.as_str()) > REPLACE_LIMIT {
        None
    } else {
        Some(out)
    }
}

/// Replaces the first match in `text`, with `one`, or every match, without
/// it, by what the rewrite template stands for.
///
/// The result is `None` where the template is invalid, where nothing
/// matches, or where the new text would have more than [`REPLACE_LIMIT`]
/// bytes: a longer text is never cut short.
pub fn replace(raw: &RE2Wrapper, text: &str, rewrite: &str, one: bool) -> (r: Option<String>)
    ensures
        r.deep_view() == replace_result(raw@, text@, rewrite@, one),
{
    let template = chars_of(rewrite);
    let replacement = match rewrite_template(&template, group_count(raw)) {
        None => {
            return None;
        },
        Some(v) => string_of(&v),
    };
    if !partial_match(raw, text) {
        return None;
    }
    let limit: usize = if one {
        1
    } else {
        0
    };
    within_limit(engine_replacen(&raw.search, text, limit, replacement.as_str()))
}

/// Whether the engine knows the Unicode properties beyond scripts and
/// general categories, such as `\p{Emoji}`. The answer is the same at every
/// call.
pub fn has_icu() -> (b: bool)
    ensures
        b == (rejection(property_probe()) is None),
{
    engine_new("\\p{Emoji}").is_ok()
}

} // verus!
