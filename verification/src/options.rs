//! Compile options: a plain record of flags with a fluent builder.

use vstd::prelude::*;

verus! {

/// How a pattern is to be compiled.
///
/// A value is built by chaining the setters on [`Options::new`]. It is only
/// read when a pattern is compiled, and may be used for any number of
/// patterns.
#[derive(Clone, Copy, Debug)]
pub struct Options {
    case_sensitive: bool,
    posix_syntax: bool,
    longest_match: bool,
    word_boundary: bool,
    perl_classes: bool,
}

/// The flags of an [`Options`] value, as contracts speak of them.
pub struct Flags {
    /// Letters match in their own case only.
    pub case_sensitive: bool,
    /// The pattern is held to the POSIX syntax.
    pub posix_syntax: bool,
    /// The longest match is wanted in place of the first.
    pub longest_match: bool,
    /// `\b` and `\B` are let through under the POSIX syntax.
    pub word_boundary: bool,
    /// `\d \s \w \D \S \W` are let through under the POSIX syntax.
    pub perl_classes: bool,
}

impl Flags {
    /// The flags of a fresh [`Options`] value.
    pub open spec fn defaults() -> Flags {
        Flags {
            case_sensitive: true,
            posix_syntax: false,
            longest_match: false,
            word_boundary: false,
            perl_classes: false,
        }
    }
}

impl View for Options {
    type V = Flags;

    /// The flags as they stand.
    closed spec fn view(&self) -> Flags {
        Flags {
            case_sensitive: self.case_sensitive,
            posix_syntax: self.posix_syntax,
            longest_match: self.longest_match,
            word_boundary: self.word_boundary,
            perl_classes: self.perl_classes,
        }
    }
}

impl Options {
    /// Options with every flag at its default.
    pub fn new() -> (o: Options)
        ensures
            o@ == Flags::defaults(),
    {
        Options {
            case_sensitive: true,
            posix_syntax: false,
            longest_match: false,
            word_boundary: false,
            perl_classes: false,
        }
    }

    /// Makes letters match regardless of case when `yes`, and only in their
    /// own case otherwise.
    pub fn case_insensitive(self, yes: bool) -> (o: Options)
        ensures
            o@ == (Flags { case_sensitive: !yes, ..self@ }),
    {
        Options { case_sensitive: !yes, ..self }
    }

    /// Holds patterns to the POSIX syntax when `yes`: the Perl escapes are
    /// refused, but for those that the two flags below let through, and `^`
    /// and `$` stand at the ends of lines.
    pub fn posix_syntax(self, yes: bool) -> (o: Options)
        ensures
            o@ == (Flags { posix_syntax: yes, ..self@ }),
    {
        Options { posix_syntax: yes, ..self }
    }

    /// Records whether the longest match is wanted in place of the first.
    ///
    /// The flag is kept with the options and can be read back. The engine
    /// searches for the first match at the leftmost place whatever its
    /// value, so it has no bearing yet on what a pattern matches.
    pub fn longest_match(self, yes: bool) -> (o: Options)
        ensures
            o@ == (Flags { longest_match: yes, ..self@ }),
    {
        Options { longest_match: yes, ..self }
    }

    /// Lets `\b` and `\B` through under the POSIX syntax when `yes`. Outside
    /// the POSIX syntax they are always let through.
    pub fn unicode_word_boundaries(self, yes: bool) -> (o: Options)
        ensures
            o@ == (Flags { word_boundary: yes, ..self@ }),
    {
        Options { word_boundary: yes, ..self }
    }

    /// Lets the Perl classes `\d \s \w \D \S \W` through under the POSIX
    /// syntax when `yes`. Outside the POSIX syntax they are always let
    /// through.
    pub fn perl_classes(self, yes: bool) -> (o: Options)
        ensures
            o@ == (Flags { perl_classes: yes, ..self@ }),
    {
        Options { perl_classes: yes, ..self }
    }

    /// Whether letters match in their own case only.
    pub fn is_case_sensitive(&self) -> (b: bool)
        ensures
            b == self@.case_sensitive,
    {
        self.case_sensitive
    }

    /// Whether patterns are held to the POSIX syntax.
    pub fn is_posix_syntax(&self) -> (b: bool)
        ensures
            b == self@.posix_syntax,
    {
        self.posix_syntax
    }

    /// Whether the longest match is asked for.
    pub fn is_longest_match(&self) -> (b: bool)
        ensures
            b == self@.longest_match,
    {
        self.longest_match
    }

    /// Whether `\b` and `\B` are let through under the POSIX syntax.
    pub fn allows_word_boundary(&self) -> (b: bool)
        ensures
            b == self@.word_boundary,
    {
        self.word_boundary
    }

    /// Whether the Perl classes are let through under the POSIX syntax.
    pub fn allows_perl_classes(&self) -> (b: bool)
        ensures
            b == self@.perl_classes,
    {
        self.perl_classes
    }
}

impl Default for Options {
    /// Options with every flag at its default, as [`Options::new`] gives
    /// them.
    fn default() -> (o: Options)
        ensures
            o@ == Flags::defaults(),
    {
        Options::new()
    }
}

} // verus!
