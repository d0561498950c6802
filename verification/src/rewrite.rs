//! Rewrite templates: the text that takes the place of a match.
//!
//! In a template `\0` stands for the whole match, `\1` to `\9` for the
//! capture group of that number, and `\\` for one backslash. Every other
//! character stands for itself. A backslash in front of anything else, or at
//! the very end, or a number above the groups of the pattern, makes the
//! template invalid.

use crate::syntax::before;
use vstd::prelude::*;

verus! {

/// Whether `c` is one of the ten digits.
pub open spec fn is_digit(c: char) -> bool {
    '0' <= c && c <= '9'
}

/// The number that a digit stands for.
pub open spec fn digit_value(c: char) -> int {
    c as int - '0' as int
}

/// How the engine is told to put in the group that the digit `c` numbers.
pub open spec fn reference_text(c: char) -> Seq<char> {
    seq!['$', '{', c, '}']
}

/// The engine's replacement text for the template from position `i` on, for
/// a pattern with `groups` capture groups, or `None` where the template is
/// invalid from there on.
pub open spec fn rewritten_from(t: Seq<char>, i: int, groups: int) -> Option<Seq<char>>
    decreases t.len() - i,
{
    if i < 0 || i >= t.len() {
        Some(Seq::empty())
    } else if t[i] == '\\' {
        if i + 1 < t.len() && is_digit(t[i + 1]) && digit_value(t[i + 1]) <= groups {
            before(reference_text(t[i + 1]), rewritten_from(t, i + 2, groups))
        } else if i + 1 < t.len() && t[i + 1] == '\\' {
            before(seq!['\\'], rewritten_from(t, i + 2, groups))
        } else {
            None
        }
    } else if t[i] == '$' {
        before(seq!['$', '$'], rewritten_from(t, i + 1, groups))
    } else {
        before(seq![t[i]], rewritten_from(t, i + 1, groups))
    }
}

/// The engine's replacement text for a whole template, or `None` where the
/// template is invalid.
pub open spec fn rewritten(t: Seq<char>, groups: int) -> Option<Seq<char>> {
    rewritten_from(t, 0, groups)
}

/// From any position on, a template without a backslash and without a
/// dollar sign is handed to the engine as it is.
pub proof fn lemma_plain_from(t: Seq<char>, i: int, groups: int)
    requires
        0 <= i <= t.len(),
        forall|k: int| i <= k < t.len() ==> t[k] != '\\' && t[k] != '$',
    ensures
        rewritten_from(t, i, groups) == Some(t.skip(i)),
    decreases t.len() - i,
{
    if i < t.len() {
        lemma_plain_from(t, i + 1, groups);
        assert(seq![t[i]] + t.skip(i + 1) =~= t.skip(i));
    } else {
        assert(t.skip(i) =~= Seq::<char>::empty());
    }
}

/// A template without a backslash and without a dollar sign is valid for
/// every pattern and stands for itself.
pub proof fn lemma_plain_unchanged(t: Seq<char>, groups: int)
    requires
        forall|k: int| 0 <= k < t.len() ==> t[k] != '\\' && t[k] != '$',
    ensures
        rewritten(t, groups) == Some(t),
{
    lemma_plain_from(t, 0, groups);
    assert(t.skip(0) =~= t);
}

/// Whether the digit `c` numbers a group of a pattern with `groups` capture
/// groups.
pub fn names_group(c: char, groups: usize) -> (b: bool)
    ensures
        b == (is_digit(c) && digit_value(c) <= groups),
{
    if '0' <= c && c <= '9' {
        let value: u32 = c as u32 - '0' as u32;
        value as usize <= groups
    } else {
        false
    }
}

/// Rewrites a template into the engine's replacement text, or finds that it
/// is invalid.
pub fn rewrite_template(template: &Vec<char>, groups: usize) -> (r: Option<Vec<char>>)
    ensures
        match r {
            Some(v) => rewritten(template@, groups as int) == Some(v@),
            None => rewritten(template@, groups as int) is None,
        },
{
    let n = template.len();
    let mut out: Vec<char> = Vec::new();
    let mut i: usize = 0;
    while i < n
        invariant
            n == template.len(),
            i <= n,
            rewritten(template@, groups as int) == before(
                out@,
                rewritten_from(template@, i as int, groups as int),
            ),
        decreases n - i,
    {
        let ghost done = out@;
        let c = template[i];
        if c == '\\' {
            if i + 1 < n && names_group(template[i + 1], groups) {
                out.push('$');
                out.push('{');
                out.push(template[i + 1]);
                out.push('}');
            } else if i + 1 < n && template[i + 1] == '\\' {
                out.push('\\');
            } else {
                return None;
            }
            i += 2;
        } else if c == '$' {
            out.push('$');
            out.push('$');
            i += 1;
        } else {
            out.push(c);
            i += 1;
        }
        proof {
            let rest = rewritten_from(template@, i as int, groups as int);
            if rest is Some {
                assert(out@ + rest->0 =~= done + (out@.skip(done.len() as int) + rest->0));
            }
        }
    }
    assert(out@ + Seq::<char>::empty() =~= out@);
    Some(out)
}

} // verus!
