use prolog_bridge::answer::{find_position, key_leftmost, same_name};
use prolog_bridge::json::{encode_response, Binding, Response, Solution};
use prolog_bridge::query::{Outcome, QueryIter, QueryRun};
use prolog_bridge::term::Term;

fn chars(s: &str) -> Vec<char> {
    s.chars().collect()
}

fn text(v: Vec<char>) -> String {
    v.into_iter().collect()
}

fn atom(s: &str) -> Term {
    Term::Atom(chars(s))
}

fn string(s: &str) -> Term {
    Term::Str(chars(s))
}

fn answer(name: &str, value: Term) -> Outcome {
    Outcome::Answer(Solution { bindings: vec![Binding { name: chars(name), value }] })
}

fn ground_answer() -> Outcome {
    Outcome::Answer(Solution { bindings: vec![] })
}

/// Runs a goal to its end through the one-shot runner.
fn run(ground: bool, outs: Vec<Outcome>) -> String {
    let mut r = QueryRun::start(ground);
    for o in outs {
        if !r.wants_step() {
            break;
        }
        r.feed(o);
    }
    if r.wants_step() {
        r.feed(Outcome::NoMore);
    }
    text(encode_response(&r.finish()))
}

/// One call of `next`, handing over the next outcome only where asked.
fn step(it: &mut QueryIter, outs: &mut Vec<Outcome>) -> String {
    let o = if it.wants_step() {
        Some(if outs.is_empty() { Outcome::NoMore } else { outs.remove(0) })
    } else {
        None
    };
    text(encode_response(&it.next(o)))
}

fn member_abc() -> Vec<Outcome> {
    vec![answer("X", atom("a")), answer("X", atom("b")), answer("X", atom("c")), Outcome::NoMore]
}

#[test]
fn run_ground_goal_true() {
    assert_eq!(run(true, vec![ground_answer(), ground_answer()]), "{\"status\":\"ok\",\"result\":true}");
}

#[test]
fn run_ground_goal_false() {
    assert_eq!(run(true, vec![Outcome::NoMore]), "{\"status\":\"ok\",\"result\":false}");
}

#[test]
fn run_binding_goal() {
    assert_eq!(
        run(false, vec![answer("X", Term::Integer(2)), Outcome::NoMore]),
        "{\"status\":\"ok\",\"result\":[{\"X\":2}]}"
    );
}

#[test]
fn run_goal_without_answers() {
    assert_eq!(run(false, vec![Outcome::NoMore]), "{\"status\":\"ok\",\"result\":[]}");
}

#[test]
fn run_reports_runtime_error_only() {
    let outs = vec![answer("X", atom("a")), Outcome::Fault(chars("type_error")), answer("X", atom("b"))];
    assert_eq!(run(false, outs), "{\"status\":\"error\",\"result\":\"type_error\"}");
}

#[test]
fn run_ground_goal_error() {
    assert_eq!(
        run(true, vec![Outcome::Fault(chars("instantiation_error"))]),
        "{\"status\":\"error\",\"result\":\"instantiation_error\"}"
    );
}

#[test]
fn iterator_member_three_answers_then_marker() {
    let mut it = QueryIter::open(false);
    let mut outs = member_abc();
    assert_eq!(step(&mut it, &mut outs), "{\"status\":\"ok\",\"result\":[{\"X\":\"a\"}]}");
    assert_eq!(step(&mut it, &mut outs), "{\"status\":\"ok\",\"result\":[{\"X\":\"b\"}]}");
    assert_eq!(step(&mut it, &mut outs), "{\"status\":\"ok\",\"result\":[{\"X\":\"c\"}]}");
    assert_eq!(step(&mut it, &mut outs), "{\"status\":\"done\"}");
}

#[test]
fn exhausted_iterator_keeps_answering_marker() {
    let mut it = QueryIter::open(false);
    let mut outs = vec![answer("X", atom("a")), Outcome::NoMore];
    assert_eq!(step(&mut it, &mut outs), "{\"status\":\"ok\",\"result\":[{\"X\":\"a\"}]}");
    for _ in 0..5 {
        assert_eq!(step(&mut it, &mut outs), "{\"status\":\"done\"}");
        assert!(!it.wants_step());
    }
}

#[test]
fn ground_single_step_equals_run() {
    for outs in [vec![ground_answer()], vec![Outcome::NoMore], vec![Outcome::Fault(chars("e"))]] {
        let copy = match &outs[0] {
            Outcome::Answer(_) => vec![ground_answer()],
            Outcome::NoMore => vec![Outcome::NoMore],
            Outcome::Fault(m) => vec![Outcome::Fault(m.clone())],
        };
        let mut it = QueryIter::open(true);
        let mut feed = outs;
        let first = step(&mut it, &mut feed);
        assert_eq!(first, run(true, copy));
        assert!(!it.wants_step());
        assert_eq!(step(&mut it, &mut feed), "{\"status\":\"done\"}");
    }
}

#[test]
fn iterator_replays_run_in_order() {
    let mut it = QueryIter::open(false);
    let mut outs = member_abc();
    let mut pieces: Vec<String> = Vec::new();
    loop {
        let r = step(&mut it, &mut outs);
        if r == "{\"status\":\"done\"}" {
            break;
        }
        let inner = r
            .strip_prefix("{\"status\":\"ok\",\"result\":[")
            .and_then(|s| s.strip_suffix("]}"))
            .unwrap()
            .to_string();
        pieces.push(inner);
    }
    let joined = format!("{{\"status\":\"ok\",\"result\":[{}]}}", pieces.join(","));
    assert_eq!(joined, run(false, member_abc()));
}

#[test]
fn closed_iterator_stops_asking() {
    let mut it = QueryIter::open(false);
    let mut outs = member_abc();
    step(&mut it, &mut outs);
    it.close();
    assert!(!it.wants_step());
}

#[test]
fn test_scryer_run_multiple_queries_greedy_evaluation() {
    assert_eq!(run(true, vec![ground_answer()]), "{\"status\":\"ok\",\"result\":true}");
    assert_eq!(run(true, vec![Outcome::NoMore]), "{\"status\":\"ok\",\"result\":false}");
    assert_eq!(
        run(false, vec![answer("X", Term::Integer(2)), Outcome::NoMore]),
        "{\"status\":\"ok\",\"result\":[{\"X\":2}]}"
    );
    assert_eq!(run(true, vec![ground_answer(), Outcome::NoMore]), "{\"status\":\"ok\",\"result\":true}");
    let outs = vec![
        answer("A", atom("a")),
        answer("A", atom("b")),
        answer("A", atom("c")),
        answer("A", string("a")),
        answer("A", string("b")),
        answer("A", string("c")),
        answer("A", Term::Compound(chars("f"), vec![atom("a")])),
        answer("A", string("f(a)")),
        Outcome::NoMore,
    ];
    assert_eq!(
        run(false, outs),
        "{\"status\":\"ok\",\"result\":[{\"A\":\"a\"},{\"A\":\"b\"},{\"A\":\"c\"},\
         {\"A\":\"\\\"a\\\"\"},{\"A\":\"\\\"b\\\"\"},{\"A\":\"\\\"c\\\"\"},\
         {\"A\":\"f(a)\"},{\"A\":\"\\\"f(a)\\\"\"}]}"
    );
}

#[test]
fn test_scryer_run_query_equal_variables() {
    let vars = vec![chars("X"), chars("Y")];
    let reported = Solution { bindings: vec![Binding { name: chars("Y"), value: Term::Var(chars("X")) }] };
    let keyed = key_leftmost(&vars, reported);
    let mut it = QueryIter::open(false);
    let mut outs = vec![Outcome::Answer(keyed), Outcome::NoMore];
    assert_eq!(step(&mut it, &mut outs), "{\"status\":\"ok\",\"result\":[{\"X\":\"Y\"}]}");
}

#[test]
fn test_scryer_run_query_true_members() {
    let mut it = QueryIter::open(false);
    let mut outs = vec![
        answer("X", atom("a")),
        answer("X", string("a")),
        answer("X", Term::Compound(chars("f"), vec![atom("a")])),
        answer("X", string("f(a)")),
        answer("X", atom("true")),
        answer("X", string("true")),
        answer("X", atom("false")),
        answer("X", string("false")),
        Outcome::NoMore,
    ];
    let expected = [
        "{\"status\":\"ok\",\"result\":[{\"X\":\"a\"}]}",
        "{\"status\":\"ok\",\"result\":[{\"X\":\"\\\"a\\\"\"}]}",
        "{\"status\":\"ok\",\"result\":[{\"X\":\"f(a)\"}]}",
        "{\"status\":\"ok\",\"result\":[{\"X\":\"\\\"f(a)\\\"\"}]}",
        "{\"status\":\"ok\",\"result\":[{\"X\":\"true\"}]}",
        "{\"status\":\"ok\",\"result\":[{\"X\":\"\\\"true\\\"\"}]}",
        "{\"status\":\"ok\",\"result\":[{\"X\":\"false\"}]}",
        "{\"status\":\"ok\",\"result\":[{\"X\":\"\\\"false\\\"\"}]}",
    ];
    for e in expected {
        assert_eq!(step(&mut it, &mut outs), e);
    }
    assert_eq!(step(&mut it, &mut outs), "{\"status\":\"done\"}");
}

#[test]
fn leftmost_key_keeps_other_bindings() {
    let vars = vec![chars("X"), chars("Y"), chars("Z")];
    let s = Solution {
        bindings: vec![
            Binding { name: chars("X"), value: Term::Var(chars("Z")) },
            Binding { name: chars("Y"), value: atom("b") },
        ],
    };
    let r = key_leftmost(&vars, s);
    assert_eq!(r.bindings.len(), 2);
    assert_eq!(r.bindings[0].name, chars("X"));
    assert!(matches!(&r.bindings[0].value, Term::Var(v) if *v == chars("Z")));
    assert_eq!(r.bindings[1].name, chars("Y"));
}

#[test]
fn positions_and_names() {
    let vars = vec![chars("X"), chars("Y")];
    assert_eq!(find_position(&vars, &chars("Y")), 1);
    assert_eq!(find_position(&vars, &chars("W")), 2);
    assert!(same_name(&chars("Ab"), &chars("Ab")));
    assert!(!same_name(&chars("Ab"), &chars("Ac")));
    assert!(!same_name(&chars("A"), &chars("Ab")));
}
