//! The pattern dialect: what is done to a pattern's text before the engine
//! sees it.
//!
//! The Perl classes `\d \s \w` and the word boundary `\b` stand for ASCII
//! characters only, whatever the alphabet of the haystack, so each of these
//! escapes is written out as an explicit ASCII class or an ASCII-only
//! assertion. Under the POSIX syntax the escapes that POSIX does not know are
//! refused. Everything else reaches the engine as it was written.

use crate::options::Flags;
use crate::options::Options;
use vstd::prelude::*;

verus! {

/// Whether `\c` is one of the Perl classes.
pub open spec fn is_perl_class(c: char) -> bool {
    c == 'd' || c == 'D' || c == 's' || c == 'S' || c == 'w' || c == 'W'
}

/// Whether `\c` is a word-boundary assertion.
pub open spec fn is_word_boundary(c: char) -> bool {
    c == 'b' || c == 'B'
}

/// Whether `\c` is one of the other Perl extensions: the text anchors, the
/// single byte, literal quoting, and the Unicode classes.
pub open spec fn is_perl_extension(c: char) -> bool {
    c == 'A' || c == 'z' || c == 'C' || c == 'Q' || c == 'E' || c == 'p' || c == 'P'
}

/// Whether the escape `\c` is refused under the given flags.
pub open spec fn refuses(f: Flags, c: char) -> bool {
    f.posix_syntax && {
        ||| is_perl_class(c) && !f.perl_classes
        ||| is_word_boundary(c) && !f.word_boundary
        ||| is_perl_extension(c)
    }
}

/// What the escape `\c` is written as for the engine.
pub open spec fn escape_text(c: char) -> Seq<char> {
    if c == 'd' {
        seq!['[', '0', '-', '9', ']']
    } else if c == 'D' {
        seq!['[', '^', '0', '-', '9', ']']
    } else if c == 'w' {
        seq!['[', '0', '-', '9', 'A', '-', 'Z', 'a', '-', 'z', '_', ']']
    } else if c == 'W' {
        seq!['[', '^', '0', '-', '9', 'A', '-', 'Z', 'a', '-', 'z', '_', ']']
    } else if c == 's' {
        seq!['[', '\\', 't', '\\', 'n', '\\', 'f', '\\', 'r', '\\', 'x', '2', '0', ']']
    } else if c == 'S' {
        seq!['[', '^', '\\', 't', '\\', 'n', '\\', 'f', '\\', 'r', '\\', 'x', '2', '0', ']']
    } else if c == 'b' {
        seq!['(', '?', '-', 'u', ':', '\\', 'b', ')']
    } else if c == 'B' {
        seq!['(', '?', '-', 'u', ':', '\\', 'B', ')']
    } else {
        seq!['\\', c]
    }
}

/// `head` in front of `tail`, where there is a tail.
pub open spec fn before(head: Seq<char>, tail: Option<Seq<char>>) -> Option<Seq<char>> {
    match tail {
        Some(t) => Some(head + t),
        None => None,
    }
}

/// The engine's text for the pattern from position `i` on, or `None` where
/// an escape from there on is refused. A backslash and the character behind
/// it are read as one escape; a backslash at the very end stands for itself.
pub open spec fn prepared_from(p: Seq<char>, i: int, f: Flags) -> Option<Seq<char>>
    decreases p.len() - i,
{
    if i < 0 || i >= p.len() {
        Some(Seq::empty())
    } else if p[i] == '\\' && i + 1 < p.len() {
        if refuses(f, p[i + 1]) {
            None
        } else {
            before(escape_text(p[i + 1]), prepared_from(p, i + 2, f))
        }
    } else {
        before(seq![p[i]], prepared_from(p, i + 1, f))
    }
}

/// The engine's text for a whole pattern, or `None` where the pattern is
/// refused.
pub open spec fn prepared(p: Seq<char>, f: Flags) -> Option<Seq<char>> {
    prepared_from(p, 0, f)
}

/// From any position on, a pattern without a backslash is handed to the
/// engine as it is.
pub proof fn lemma_plain_from(p: Seq<char>, i: int, f: Flags)
    requires
        0 <= i <= p.len(),
        forall|k: int| i <= k < p.len() ==> p[k] != '\\',
    ensures
        prepared_from(p, i, f) == Some(p.skip(i)),
    decreases p.len() - i,
{
    if i < p.len() {
        lemma_plain_from(p, i + 1, f);
        assert(seq![p[i]] + p.skip(i + 1) =~= p.skip(i));
    } else {
        assert(p.skip(i) =~= Seq::<char>::empty());
    }
}

/// A pattern without a backslash is handed to the engine as it is, whatever
/// the flags.
pub proof fn lemma_plain_unchanged(p: Seq<char>, f: Flags)
    requires
        forall|k: int| 0 <= k < p.len() ==> p[k] != '\\',
    ensures
        prepared(p, f) == Some(p),
{
    lemma_plain_from(p, 0, f);
    assert(p.skip(0) =~= p);
}

/// Outside the POSIX syntax no pattern is refused, from any position on.
pub proof fn lemma_accepted_from(p: Seq<char>, i: int, f: Flags)
    requires
        !f.posix_syntax,
    ensures
        prepared_from(p, i, f) is Some,
    decreases p.len() - i,
{
    if 0 <= i < p.len() {
        if p[i] == '\\' && i + 1 < p.len() {
            lemma_accepted_from(p, i + 2, f);
        } else {
            lemma_accepted_from(p, i + 1, f);
        }
    }
}

/// Outside the POSIX syntax no pattern is refused: only the engine decides
/// whether it compiles.
pub proof fn lemma_accepted_outside_posix(p: Seq<char>, f: Flags)
    requires
        !f.posix_syntax,
    ensures
        prepared(p, f) is Some,
{
    lemma_accepted_from(p, 0, f);
}

/// What is handed to the engine does not depend on whether the longest
/// match is wanted.
pub proof fn lemma_prepared_without_longest(p: Seq<char>, i: int, f: Flags, wanted: bool)
    ensures
        prepared_from(p, i, Flags { longest_match: wanted, ..f }) == prepared_from(p, i, f),
    decreases p.len() - i,
{
    if 0 <= i < p.len() {
        if p[i] == '\\' && i + 1 < p.len() {
            lemma_prepared_without_longest(p, i + 2, f, wanted);
        } else {
            lemma_prepared_without_longest(p, i + 1, f, wanted);
        }
    }
}

/// A pattern that begins with a refused escape is refused.
pub proof fn lemma_refused_at_start(p: Seq<char>, f: Flags)
    requires
        p.len() >= 2,
        p[0] == '\\',
        refuses(f, p[1]),
    ensures
        prepared(p, f) is None,
{
}

/// Whether the escape `\c` is refused under the given options.
pub fn escape_refused(opts: &Options, c: char) -> (b: bool)
    ensures
        b == refuses(opts@, c),
{
    if !opts.is_posix_syntax() {
        false
    } else if c == 'd' || c == 'D' || c == 's' || c == 'S' || c == 'w' || c == 'W' {
        !opts.allows_perl_classes()
    } else if c == 'b' || c == 'B' {
        !opts.allows_word_boundary()
    } else {
        c == 'A' || c == 'z' || c == 'C' || c == 'Q' || c == 'E' || c == 'p' || c == 'P'
    }
}

/// Appends an ASCII class with the given members to `out`, negated or not.
fn push_class(out: &mut Vec<char>, negated: bool, members: &[char])
    ensures
        final(out)@ == old(out)@ + seq!['['] + (if negated {
            seq!['^']
        } else {
            Seq::<char>::empty()
        }) + members@ + seq![']'],
{
    out.push('[');
    if negated {
        out.push('^');
    }
    let mut k: usize = 0;
    while k < members.len()
        invariant
            k <= members.len(),
            out@ == old(out)@ + seq!['['] + (if negated {
                seq!['^']
            } else {
                Seq::<char>::empty()
            }) + members@.take(k as int),
        decreases members.len() - k,
    {
        out.push(members[k]);
        k += 1;
        assert(members@.take(k as int) == members@.take(k - 1).push(members@[k - 1]));
    }
    assert(members@.take(members.len() as int) == members@);
    out.push(']');
}

/// Appends to `out` what the escape `\c` is written as for the engine.
pub fn push_escape(out: &mut Vec<char>, c: char)
    ensures
        final(out)@ == old(out)@ + escape_text(c),
{
    let digits: [char; 3] = ['0', '-', '9'];
    let word: [char; 10] = ['0', '-', '9', 'A', '-', 'Z', 'a', '-', 'z', '_'];
    let space: [char; 12] = ['\\', 't', '\\', 'n', '\\', 'f', '\\', 'r', '\\', 'x', '2', '0'];
    if c == 'd' || c == 'D' {
        push_class(out, c == 'D', digits.as_slice());
        assert(final(out)@ =~= old(out)@ + escape_text(c));
    } else if c == 'w' || c == 'W' {
        push_class(out, c == 'W', word.as_slice());
        assert(final(out)@ =~= old(out)@ + escape_text(c));
    } else if c == 's' || c == 'S' {
        push_class(out, c == 'S', space.as_slice());
        assert(final(out)@ =~= old(out)@ + escape_text(c));
    } else if c == 'b' || c == 'B' {
        out.push('(');
        out.push('?');
        out.push('-');
        out.push('u');
        out.push(':');
        out.push('\\');
        out.push(c);
        out.push(')');
        assert(final(out)@ =~= old(out)@ + escape_text(c));
    } else {
        out.push('\\');
        out.push(c);
        assert(final(out)@ =~= old(out)@ + escape_text(c));
    }
}

/// Rewrites a pattern for the engine, or finds that it is refused.
pub fn prepare(pattern: &Vec<char>, opts: &Options) -> (r: Option<Vec<char>>)
    ensures
        match r {
            Some(v) => prepared(pattern@, opts@) == Some(v@),
            None => prepared(pattern@, opts@) is None,
        },
{
    let n = pattern.len();
    let mut out: Vec<char> = Vec::new();
    let mut i: usize = 0;
    while i < n
        invariant
            n == pattern.len(),
            i <= n,
            prepared(pattern@, opts@) == before(out@, prepared_from(pattern@, i as int, opts@)),
        decreases n - i,
    {
        let ghost done = out@;
        if pattern[i] == '\\' && i + 1 < n {
            let c = pattern[i + 1];
            if escape_refused(opts, c) {
                return None;
            }
            push_escape(&mut out, c);
            i += 2;
        } else {
            out.push(pattern[i]);
            i += 1;
        }
        proof {
            let rest = prepared_from(pattern@, i as int, opts@);
            if rest is Some {
                assert(out@ + rest->0 =~= done + (out@.skip(done.len() as int) + rest->0));
            }
        }
    }
    assert(out@ + Seq::<char>::empty() =~= out@);
    Some(out)
}

} // verus!
