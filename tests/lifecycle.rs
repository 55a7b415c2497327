use prolog_bridge::json::{encode_response, Binding, Solution};
use prolog_bridge::libpaths::{ascent, is_source_extension, library_name, nested_prefix, PathPart};
use prolog_bridge::query::Outcome;
use prolog_bridge::registry::{Misuse, Registry};
use prolog_bridge::term::Term;

fn chars(s: &str) -> Vec<char> {
    s.chars().collect()
}

fn text(v: Vec<char>) -> String {
    v.into_iter().collect()
}

fn answer(name: &str, value: Term) -> Outcome {
    Outcome::Answer(Solution { bindings: vec![Binding { name: chars(name), value }] })
}

#[test]
fn closing_one_query_leaves_another_whole() {
    let mut reg = Registry::new();
    let h = reg.create();
    let a = reg.open_query(h, false).unwrap();
    let first = reg.next(a, Some(answer("X", Term::Atom(chars("a"))))).unwrap();
    assert_eq!(text(encode_response(&first)), "{\"status\":\"ok\",\"result\":[{\"X\":\"a\"}]}");
    assert!(reg.close_query(a).is_ok());
    let b = reg.open_query(h, false).unwrap();
    assert_ne!(a, b);
    assert_eq!(reg.wants_step(b).unwrap(), true);
    let r = reg.next(b, Some(answer("Y", Term::Integer(2)))).unwrap();
    assert_eq!(text(encode_response(&r)), "{\"status\":\"ok\",\"result\":[{\"Y\":2}]}");
    let r = reg.next(b, Some(Outcome::NoMore)).unwrap();
    assert_eq!(text(encode_response(&r)), "{\"status\":\"done\"}");
    assert_eq!(reg.wants_step(b).unwrap(), false);
    let r = reg.next(b, None).unwrap();
    assert_eq!(text(encode_response(&r)), "{\"status\":\"done\"}");
}

#[test]
fn closed_query_is_unknown() {
    let mut reg = Registry::new();
    let h = reg.create();
    let q = reg.open_query(h, true).unwrap();
    assert!(reg.close_query(q).is_ok());
    assert!(matches!(reg.close_query(q), Err(Misuse::UnknownQuery)));
    assert!(matches!(reg.next(q, None), Err(Misuse::UnknownQuery)));
    assert!(matches!(reg.wants_step(q), Err(Misuse::UnknownQuery)));
    assert!(matches!(reg.next(99, None), Err(Misuse::UnknownQuery)));
}

#[test]
fn step_must_match_what_was_asked() {
    let mut reg = Registry::new();
    let h = reg.create();
    let q = reg.open_query(h, true).unwrap();
    assert!(matches!(reg.next(q, None), Err(Misuse::StepMismatch)));
    let r = reg.next(q, Some(Outcome::NoMore)).unwrap();
    assert_eq!(text(encode_response(&r)), "{\"status\":\"ok\",\"result\":false}");
    assert!(matches!(reg.next(q, Some(Outcome::NoMore)), Err(Misuse::StepMismatch)));
}

#[test]
fn destroy_waits_for_open_queries() {
    let mut reg = Registry::new();
    let h = reg.create();
    let other = reg.create();
    let q = reg.open_query(h, false).unwrap();
    assert!(matches!(reg.destroy(h), Err(Misuse::OpenQueries)));
    assert!(reg.destroy(other).is_ok());
    assert!(reg.close_query(q).is_ok());
    assert!(reg.destroy(h).is_ok());
    assert!(!reg.is_live(h));
    assert!(matches!(reg.destroy(h), Err(Misuse::UnknownInstance)));
    assert!(matches!(reg.open_query(h, false), Err(Misuse::UnknownInstance)));
}

#[test]
fn buffers_release_once() {
    let mut reg = Registry::new();
    let b = reg.issue_buffer();
    let c = reg.issue_buffer();
    assert_ne!(b, c);
    assert!(reg.release_buffer(b).is_ok());
    assert!(matches!(reg.release_buffer(b), Err(Misuse::UnknownBuffer)));
    assert!(matches!(reg.release_buffer(7), Err(Misuse::UnknownBuffer)));
    assert!(reg.release_buffer(c).is_ok());
}

#[test]
fn ascent_counts_named_parts() {
    assert_eq!(ascent(&vec![]), Some(0));
    assert_eq!(ascent(&vec![PathPart::Normal, PathPart::CurDir, PathPart::Normal, PathPart::Normal]), Some(3));
    assert_eq!(ascent(&vec![PathPart::Normal, PathPart::Other, PathPart::Normal]), None);
}

#[test]
fn library_names_from_paths() {
    let p = nested_prefix(&chars(""), &chars("clpz"));
    assert_eq!(text(p.clone()), "clpz/");
    let p2 = nested_prefix(&p, &chars("sub"));
    assert_eq!(text(library_name(&p2, &chars("lists"))), "clpz/sub/lists");
    assert!(is_source_extension(&chars("pl")));
    assert!(!is_source_extension(&chars("rs")));
    assert!(!is_source_extension(&chars("plx")));
}
