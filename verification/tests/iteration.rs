use re2_rs::iter::{captures_iter, find_iter, iterator_new, Phase};
use re2_rs::wrapper::compile_regex;
use re2_rs::Regex;

#[test]
fn find_iter_goes_from_left_to_right() {
    let re = Regex::new(r"\d+").unwrap();
    let mut it = re.find_iter("a1b22c333");
    assert_eq!(it.next(), Some("1"));
    assert_eq!(it.next(), Some("22"));
    assert_eq!(it.next(), Some("333"));
    assert_eq!(it.next(), None);
}

#[test]
fn exhausted_iterator_stays_exhausted() {
    let re = Regex::new(r"\d+").unwrap();
    let mut it = re.find_iter("a1");
    assert_eq!(it.next(), Some("1"));
    for _ in 0..5 {
        assert_eq!(it.next(), None);
    }
    let mut caps = re.captures_iter("a1");
    assert_eq!(caps.next(), Some(vec![Some("1")]));
    for _ in 0..5 {
        assert_eq!(caps.next(), None);
    }
}

#[test]
fn iterator_over_no_match_is_exhausted_at_once() {
    let re = Regex::new(r"\d+").unwrap();
    assert!(!re.partial_match("abc"));
    let mut it = re.find_iter("abc");
    assert_eq!(it.next(), None);
    assert_eq!(it.next(), None);
    assert_eq!(re.find_iter("").collect(), Vec::<&str>::new());
    assert_eq!(re.captures_iter("abc").collect(), Vec::<Vec<Option<&str>>>::new());
}

#[test]
fn first_match_is_the_partial_match() {
    let re = Regex::new(r"(\w)(\d)").unwrap();
    let text = "-- a1 b2 c3";
    let first = re.find_iter(text).next();
    assert_eq!(first, Some("a1"));
    assert_eq!(re.partial_captures(text).unwrap()[0], first);
}

#[test]
fn a_new_iterator_scans_again() {
    let re = Regex::new("o").unwrap();
    let text = "foo";
    assert_eq!(re.find_iter(text).collect(), vec!["o", "o"]);
    assert_eq!(re.find_iter(text).collect(), vec!["o", "o"]);
}

#[test]
fn matches_do_not_overlap() {
    let re = Regex::new("aa").unwrap();
    assert_eq!(re.find_iter("aaaaa").collect(), vec!["aa", "aa"]);
    let re = Regex::new("a*").unwrap();
    assert_eq!(re.find_iter("baac").collect(), vec!["", "aa", ""]);
}

#[test]
fn matches_of_text_in_several_alphabets() {
    let re = Regex::new(r"\p{Greek}+").unwrap();
    assert_eq!(re.find_iter("ab κόσμος cd Ωμέγα!").collect(), vec!["κόσμος", "Ωμέγα"]);
}

#[test]
fn collect_takes_what_is_left() {
    let re = Regex::new(r"\d").unwrap();
    let mut it = re.find_iter("1 2 3 4");
    assert_eq!(it.next(), Some("1"));
    assert_eq!(it.collect(), vec!["2", "3", "4"]);
}

#[test]
fn captures_iter_yields_the_groups_of_each_match() {
    let re = Regex::new(r"(a)(\d+)").unwrap();
    let mut it = re.captures_iter("a1a22");
    assert_eq!(it.next(), Some(vec![Some("a1"), Some("a"), Some("1")]));
    assert_eq!(it.next(), Some(vec![Some("a22"), Some("a"), Some("22")]));
    assert_eq!(it.next(), None);
}

#[test]
fn captures_iter_marks_absent_groups() {
    let re = Regex::new(r"(x)?(y)").unwrap();
    assert_eq!(
        re.captures_iter("xy y").collect(),
        vec![vec![Some("xy"), Some("x"), Some("y")], vec![Some("y"), None, Some("y")]]
    );
}

#[test]
fn captures_iter_keeps_empty_groups() {
    let re = Regex::new(r"(a*)b").unwrap();
    assert_eq!(
        re.captures_iter("b ab").collect(),
        vec![vec![Some("b"), Some("")], vec![Some("ab"), Some("a")]]
    );
}

#[test]
fn captures_iter_goes_with_find_iter() {
    let re = Regex::new(r"(\w+)=(\d+)").unwrap();
    let text = "a=1, bb=22; ccc=333";
    let whole = re.find_iter(text).collect();
    let groups = re.captures_iter(text).collect();
    assert_eq!(whole, vec!["a=1", "bb=22", "ccc=333"]);
    assert_eq!(groups.len(), whole.len());
    for (m, g) in whole.iter().zip(groups.iter()) {
        assert_eq!(g.len(), re.num_captures() + 1);
        assert_eq!(g[0], Some(*m));
        assert_eq!(*m, format!("{}={}", g[1].unwrap(), g[2].unwrap()));
    }
}

#[test]
fn cursor_reports_all_groups_of_each_match() {
    let raw = compile_regex(r"(a)(b)?", None).unwrap();
    let cursor = iterator_new(&raw, "ab a");
    assert_eq!(cursor.text(), "ab a");
    assert_eq!(cursor.slot_count(), 3);
    let (first, cursor) = cursor.advance();
    assert_eq!(first, Some(vec![Some((0, 2)), Some((0, 1)), Some((1, 1))]));
    let (second, cursor) = cursor.advance();
    assert_eq!(second, Some(vec![Some((3, 1)), Some((3, 1)), None]));
    let (third, cursor) = cursor.advance();
    assert_eq!(third, None);
    let (fourth, cursor) = cursor.advance();
    assert_eq!(fourth, None);
    assert_eq!(cursor.text(), "ab a");
}

#[test]
fn handle_level_iterators() {
    let raw = compile_regex(r"(\d)(\d)?", None).unwrap();
    assert_eq!(find_iter(&raw, "12 3").collect(), vec!["12", "3"]);
    assert_eq!(
        captures_iter(&raw, "12 3").collect(),
        vec![vec![Some("12"), Some("1"), Some("2")], vec![Some("3"), Some("3"), None]]
    );
}

#[test]
fn many_patterns_and_iterators_come_and_go() {
    for i in 0..500 {
        let re = Regex::new(r"(\d+)").unwrap();
        let it = re.find_iter("1 22 333");
        drop(it);
        let mut caps = re.captures_iter("1 22 333");
        assert_eq!(caps.next(), Some(vec![Some("1"), Some("1")]));
        drop(caps);
        assert_eq!(re.num_captures(), 1);
        assert_eq!(Regex::new("(").is_err(), true, "round {}", i);
    }
}

#[test]
fn phase_never_leaves_exhausted() {
    assert_eq!(Phase::Active.after(true), Phase::Active);
    assert_eq!(Phase::Active.after(false), Phase::Exhausted);
    assert_eq!(Phase::Exhausted.after(true), Phase::Exhausted);
    assert_eq!(Phase::Exhausted.after(false), Phase::Exhausted);
    assert!(Phase::Exhausted.is_exhausted());
    assert!(!Phase::Active.is_exhausted());
}

#[test]
fn captures_iter_of_a_pattern_without_groups() {
    let re = Regex::new(r"\d+").unwrap();
    assert_eq!(re.num_captures(), 0);
    assert_eq!(re.captures_iter("a1b22").collect(), vec![vec![Some("1")], vec![Some("22")]]);
}

#[test]
fn first_capture_set_is_the_partial_captures() {
    let re = Regex::new(r"(\w)(\d)?").unwrap();
    let text = "-- a1 b c3";
    assert_eq!(re.captures_iter(text).next(), re.partial_captures(text));
    assert_eq!(re.captures_iter("--").next(), re.partial_captures("--"));
}
