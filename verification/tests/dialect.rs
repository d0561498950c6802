use re2_rs::options::Options;
use re2_rs::rewrite::{names_group, rewrite_template};
use re2_rs::syntax::{escape_refused, prepare};
use re2_rs::text::{chars_of, string_of};

fn prepared(pattern: &str, opts: &Options) -> Option<String> {
    prepare(&chars_of(pattern), opts).map(|v| string_of(&v))
}

fn rewritten(template: &str, groups: usize) -> Option<String> {
    rewrite_template(&chars_of(template), groups).map(|v| string_of(&v))
}

#[test]
fn chars_and_strings_go_both_ways() {
    assert_eq!(chars_of("aκ😀"), vec!['a', 'κ', '😀']);
    assert_eq!(chars_of(""), Vec::<char>::new());
    assert_eq!(string_of(&vec!['a', 'κ', '😀']), "aκ😀");
    assert_eq!(string_of(&chars_of("hello\\world")), "hello\\world");
}

#[test]
fn options_start_at_the_defaults() {
    let o = Options::new();
    assert!(o.is_case_sensitive());
    assert!(!o.is_posix_syntax());
    assert!(!o.is_longest_match());
    assert!(!o.allows_word_boundary());
    assert!(!o.allows_perl_classes());
    let d = Options::default();
    assert!(d.is_case_sensitive() && !d.is_posix_syntax());
}

#[test]
fn each_setter_changes_its_own_flag() {
    let o = Options::new().case_insensitive(true);
    assert!(!o.is_case_sensitive());
    assert!(!o.is_posix_syntax() && !o.is_longest_match());
    assert!(Options::new().case_insensitive(false).is_case_sensitive());

    let o = Options::new().posix_syntax(true).longest_match(true);
    assert!(o.is_posix_syntax() && o.is_longest_match());
    assert!(o.is_case_sensitive());
    assert!(!o.allows_word_boundary() && !o.allows_perl_classes());

    let o = o.unicode_word_boundaries(true).perl_classes(true).posix_syntax(false);
    assert!(o.allows_word_boundary() && o.allows_perl_classes());
    assert!(!o.is_posix_syntax() && o.is_longest_match());
}

#[test]
fn plain_patterns_are_not_touched() {
    let o = Options::new();
    assert_eq!(prepared("", &o), Some("".to_string()));
    assert_eq!(prepared("a+b|[0-9]{2}", &o), Some("a+b|[0-9]{2}".to_string()));
    assert_eq!(prepared("κόσμος", &o), Some("κόσμος".to_string()));
}

#[test]
fn perl_classes_are_written_out_in_ascii() {
    let o = Options::new();
    assert_eq!(prepared(r"\d", &o), Some("[0-9]".to_string()));
    assert_eq!(prepared(r"\D", &o), Some("[^0-9]".to_string()));
    assert_eq!(prepared(r"\w", &o), Some("[0-9A-Za-z_]".to_string()));
    assert_eq!(prepared(r"\W", &o), Some("[^0-9A-Za-z_]".to_string()));
    assert_eq!(prepared(r"\s", &o), Some(r"[\t\n\f\r\x20]".to_string()));
    assert_eq!(prepared(r"\S", &o), Some(r"[^\t\n\f\r\x20]".to_string()));
    assert_eq!(prepared(r"^\d+-\w*$", &o), Some("^[0-9]+-[0-9A-Za-z_]*$".to_string()));
}

#[test]
fn word_boundaries_are_made_ascii() {
    let o = Options::new();
    assert_eq!(prepared(r"\bfoo\B", &o), Some(r"(?-u:\b)foo(?-u:\B)".to_string()));
}

#[test]
fn other_escapes_are_kept() {
    let o = Options::new();
    assert_eq!(prepared(r"\.\p{Greek}\n\z", &o), Some(r"\.\p{Greek}\n\z".to_string()));
    // an escaped backslash is one escape: the d behind it is a letter
    assert_eq!(prepared(r"\\d", &o), Some(r"\\d".to_string()));
    assert_eq!(prepared(r"\\\d", &o), Some(r"\\[0-9]".to_string()));
    // a backslash at the very end stands for itself
    assert_eq!(prepared("a\\", &o), Some("a\\".to_string()));
}

#[test]
fn posix_syntax_refuses_perl_escapes() {
    let posix = Options::new().posix_syntax(true);
    assert_eq!(prepared(r"\d+", &posix), None);
    assert_eq!(prepared(r"a\b", &posix), None);
    assert_eq!(prepared(r"\p{Greek}", &posix), None);
    assert_eq!(prepared(r"\Afoo\z", &posix), None);
    assert_eq!(prepared(r"[0-9]+\.", &posix), Some(r"[0-9]+\.".to_string()));
    assert_eq!(prepared(r"\\d", &posix), Some(r"\\d".to_string()));
}

#[test]
fn posix_syntax_lets_through_what_the_options_allow() {
    let classes = Options::new().posix_syntax(true).perl_classes(true);
    assert_eq!(prepared(r"\d", &classes), Some("[0-9]".to_string()));
    assert_eq!(prepared(r"\b", &classes), None);
    let edges = Options::new().posix_syntax(true).unicode_word_boundaries(true);
    assert_eq!(prepared(r"\b", &edges), Some(r"(?-u:\b)".to_string()));
    assert_eq!(prepared(r"\w", &edges), None);
}

#[test]
fn escape_refused_follows_the_flags() {
    let plain = Options::new();
    let posix = Options::new().posix_syntax(true);
    for c in ['d', 'D', 's', 'S', 'w', 'W', 'b', 'B', 'A', 'z', 'C', 'Q', 'E', 'p', 'P'] {
        assert!(!escape_refused(&plain, c));
        assert!(escape_refused(&posix, c));
    }
    for c in ['n', 't', '.', '\\', '[', 'x', '1'] {
        assert!(!escape_refused(&posix, c));
    }
    assert!(!escape_refused(&posix.perl_classes(true), 'W'));
    assert!(escape_refused(&posix.perl_classes(true), 'B'));
    assert!(!escape_refused(&posix.unicode_word_boundaries(true), 'B'));
    assert!(escape_refused(&posix.perl_classes(true).unicode_word_boundaries(true), 'p'));
}

#[test]
fn plain_templates_are_not_touched() {
    assert_eq!(rewritten("X", 0), Some("X".to_string()));
    assert_eq!(rewritten("[EMOJI]", 0), Some("[EMOJI]".to_string()));
    assert_eq!(rewritten("", 3), Some("".to_string()));
}

#[test]
fn group_references_are_rewritten() {
    assert_eq!(rewritten(r"\0", 0), Some("${0}".to_string()));
    assert_eq!(rewritten(r"\2-\1", 2), Some("${2}-${1}".to_string()));
    assert_eq!(rewritten(r"<\1>a", 1), Some("<${1}>a".to_string()));
    assert_eq!(rewritten(r"\9", 9), Some("${9}".to_string()));
}

#[test]
fn backslash_and_dollar_are_made_literal() {
    assert_eq!(rewritten(r"a\\b", 0), Some(r"a\b".to_string()));
    assert_eq!(rewritten("$1", 1), Some("$$1".to_string()));
    assert_eq!(rewritten(r"\\1", 0), Some(r"\1".to_string()));
}

#[test]
fn invalid_templates_are_found() {
    // a group that the pattern does not have
    assert_eq!(rewritten(r"\1", 0), None);
    assert_eq!(rewritten(r"\3", 2), None);
    // a backslash in front of anything but a digit or a backslash
    assert_eq!(rewritten(r"\n", 5), None);
    assert_eq!(rewritten(r"a\", 5), None);
    assert_eq!(rewritten(r"ok\1\x", 1), None);
}

#[test]
fn names_group_knows_the_digits() {
    assert!(names_group('0', 0));
    assert!(!names_group('1', 0));
    assert!(names_group('9', 9));
    assert!(!names_group('9', 8));
    assert!(names_group('3', 100));
    assert!(!names_group('a', 100));
    assert!(!names_group('/', 100));
    assert!(!names_group(':', 100));
}
