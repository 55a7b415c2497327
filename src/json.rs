use vstd::prelude::*;
use crate::term::{Term, term_text, int_text, push_int, push_term_text};

verus! {

/// One variable of a goal and the term it is bound to.
#[derive(Debug)]
pub struct Binding {
    pub name: Vec<char>,
    pub value: Term,
}

/// One answer of a goal: a binding for each of its free variables, in order.
#[derive(Debug)]
pub struct Solution {
    pub bindings: Vec<Binding>,
}

/// What one call across the boundary answers.
#[derive(Debug)]
pub enum Response {
    /// The satisfiability of a ground goal.
    Truth(bool),
    /// Answers of a goal with free variables, in search order.
    Solutions(Vec<Solution>),
    /// A compile or runtime error, with its diagnostic.
    Failure(Vec<char>),
    /// The terminal marker of an exhausted iterator.
    Done,
}

/// The shape of a `Response`, with sequences in place of vectors.
pub enum ResponseView {
    Truth(bool),
    Solutions(Seq<Solution>),
    Failure(Seq<char>),
    Done,
}

impl View for Response {
    type V = ResponseView;

    open spec fn view(&self) -> ResponseView {
        match self {
            Response::Truth(b) => ResponseView::Truth(*b),
            Response::Solutions(v) => ResponseView::Solutions(v@),
            Response::Failure(m) => ResponseView::Failure(m@),
            Response::Done => ResponseView::Done,
        }
    }
}

/// Hexadecimal digit, lower case.
pub open spec fn hex_char(d: nat) -> char {
    if d < 10 {
        (d + 48) as char
    } else {
        (d + 87) as char
    }
}

/// How one character is written inside a JSON string.
pub open spec fn json_char(c: char) -> Seq<char> {
    if c == '"' || c == '\\' {
        seq!['\\', c]
    } else if (c as u32) < 32 {
        seq!['\\', 'u', '0', '0', hex_char((c as u32) as nat / 16), hex_char((c as u32) as nat % 16)]
    } else {
        seq![c]
    }
}

pub open spec fn json_body(s: Seq<char>) -> Seq<char>
    decreases s.len(),
{
    if s.len() == 0 {
        Seq::empty()
    } else {
        json_body(s.drop_last()) + json_char(s.last())
    }
}

/// A JSON string literal holding exactly the characters `s`.
pub open spec fn json_string(s: Seq<char>) -> Seq<char> {
    seq!['"'] + json_body(s) + seq!['"']
}

/// Items separated by commas.
pub open spec fn join(items: Seq<Seq<char>>) -> Seq<char>
    decreases items.len(),
{
    if items.len() == 0 {
        Seq::empty()
    } else if items.len() == 1 {
        items[0]
    } else {
        join(items.drop_last()) + seq![','] + items.last()
    }
}

/// A bound value: numbers as JSON numbers, every other term as a JSON
/// string of its text. An atom `true` is the string `"true"`: JSON booleans
/// stand only for the satisfiability of a whole goal.
pub open spec fn value_json(t: Term) -> Seq<char> {
    match t {
        Term::Integer(i) => int_text(i as int),
        Term::Float(d) => d@,
        _ => json_string(term_text(t)),
    }
}

pub open spec fn binding_json(b: Binding) -> Seq<char> {
    json_string(b.name@) + seq![':'] + value_json(b.value)
}

/// An answer as a JSON object, keys in the order of the bindings.
pub open spec fn solution_json(s: Solution) -> Seq<char> {
    seq!['{'] + join(s.bindings@.map_values(|b: Binding| binding_json(b))) + seq!['}']
}

/// A sequence of answers as a JSON array.
pub open spec fn solutions_json(ss: Seq<Solution>) -> Seq<char> {
    seq!['['] + join(ss.map_values(|s: Solution| solution_json(s))) + seq![']']
}

pub open spec fn bool_text(b: bool) -> Seq<char> {
    if b {
        seq!['t', 'r', 'u', 'e']
    } else {
        seq!['f', 'a', 'l', 's', 'e']
    }
}

pub open spec fn ok_prefix() -> Seq<char> {
    seq!['{', '"', 's', 't', 'a', 't', 'u', 's', '"', ':', '"', 'o', 'k', '"', ','] + result_key()
}

pub open spec fn error_prefix() -> Seq<char> {
    seq!['{', '"', 's', 't', 'a', 't', 'u', 's', '"', ':', '"', 'e', 'r', 'r', 'o', 'r', '"', ',']
        + result_key()
}

pub open spec fn result_key() -> Seq<char> {
    seq!['"', 'r', 'e', 's', 'u', 'l', 't', '"', ':']
}

/// The terminal marker: `{"status":"done"}`.
pub open spec fn done_json() -> Seq<char> {
    seq!['{', '"', 's', 't', 'a', 't', 'u', 's', '"', ':', '"', 'd', 'o', 'n', 'e', '"', '}']
}

/// The JSON text of a response: `{"status":...,"result":...}`, or the
/// terminal marker.
pub open spec fn response_json(r: ResponseView) -> Seq<char> {
    match r {
        ResponseView::Truth(b) => ok_prefix() + bool_text(b) + seq!['}'],
        ResponseView::Solutions(ss) => ok_prefix() + solutions_json(ss) + seq!['}'],
        ResponseView::Failure(m) => error_prefix() + json_string(m) + seq!['}'],
        ResponseView::Done => done_json(),
    }
}

fn push_all(src: &[char], out: &mut Vec<char>)
    ensures
        final(out)@ == old(out)@ + src@,
{
    let ghost start = out@;
    let mut i: usize = 0;
    while i < src.len()
        invariant
            i <= src.len(),
            out@ =~= start + src@.subrange(0, i as int),
        decreases src.len() - i,
    {
        out.push(src[i]);
        i = i + 1;
    }
    assert(src@.subrange(0, src@.len() as int) =~= src@);
}

fn hex_digit(d: u32) -> (c: char)
    requires
        d < 16,
    ensures
        c == hex_char(d as nat),
{
    if d < 10 {
        ((d as u8) + 48u8) as char
    } else {
        ((d as u8) + 87u8) as char
    }
}

/// Appends `s` as a JSON string literal.
pub fn push_json_string(s: &Vec<char>, out: &mut Vec<char>)
    ensures
        final(out)@ == old(out)@ + json_string(s@),
{
    let ghost start = out@;
    out.push('"');
    let mut i: usize = 0;
    while i < s.len()
        invariant
            i <= s.len(),
            out@ == start + seq!['"'] + json_body(s@.subrange(0, i as int)),
        decreases s.len() - i,
    {
        let c = s[i];
        if c == '"' || c == '\\' {
            out.push('\\');
            out.push(c);
        } else if (c as u32) < 32 {
            out.push('\\');
            out.push('u');
            out.push('0');
            out.push('0');
            out.push(hex_digit((c as u32) / 16));
            out.push(hex_digit((c as u32) % 16));
        } else {
            out.push(c);
        }
        assert(s@.subrange(0, i + 1).drop_last() =~= s@.subrange(0, i as int));
        assert(out@ =~= start + seq!['"'] + json_body(s@.subrange(0, i + 1)));
        i = i + 1;
    }
    out.push('"');
    assert(s@.subrange(0, s.len() as int) =~= s@);
    assert(out@ =~= start + json_string(s@));
}

/// Appends the JSON of a bound value.
pub fn push_value(t: &Term, out: &mut Vec<char>)
    ensures
        final(out)@ == old(out)@ + value_json(*t),
{
    match t {
        Term::Integer(i) => push_int(*i, out),
        Term::Float(d) => {
            let ghost start = out@;
            let mut i: usize = 0;
            while i < d.len()
                invariant
                    i <= d.len(),
                    out@ =~= start + d@.subrange(0, i as int),
                decreases d.len() - i,
            {
                out.push(d[i]);
                i = i + 1;
            }
            assert(d@.subrange(0, d.len() as int) =~= d@);
        },
        _ => {
            let mut text: Vec<char> = Vec::new();
            push_term_text(t, &mut text);
            assert(text@ =~= term_text(*t));
            push_json_string(&text, out);
        },
    }
}

proof fn lemma_join_push(items: Seq<Seq<char>>, x: Seq<char>)
    ensures
        join(items.push(x)) == if items.len() == 0 {
            x
        } else {
            join(items) + seq![','] + x
        },
{
    assert(items.push(x).drop_last() =~= items);
}

/// Appends an answer as a JSON object.
pub fn push_solution(s: &Solution, out: &mut Vec<char>)
    ensures
        final(out)@ == old(out)@ + solution_json(*s),
{
    let ghost start = out@;
    let ghost f = |b: Binding| binding_json(b);
    out.push('{');
    let mut i: usize = 0;
    while i < s.bindings.len()
        invariant
            i <= s.bindings.len(),
            f == (|b: Binding| binding_json(b)),
            out@ == start + seq!['{'] + join(s.bindings@.subrange(0, i as int).map_values(f)),
        decreases s.bindings.len() - i,
    {
        if i > 0 {
            out.push(',');
        }
        let b = &s.bindings[i];
        push_json_string(&b.name, out);
        out.push(':');
        push_value(&b.value, out);
        proof {
            let pre = s.bindings@.subrange(0, i as int);
            let next = s.bindings@.subrange(0, i + 1);
            assert(next.map_values(f) =~= pre.map_values(f).push(binding_json(*b)));
            lemma_join_push(pre.map_values(f), binding_json(*b));
            assert(out@ =~= start + seq!['{'] + join(next.map_values(f)));
        }
        i = i + 1;
    }
    out.push('}');
    assert(s.bindings@.subrange(0, s.bindings.len() as int) =~= s.bindings@);
    assert(out@ =~= start + solution_json(*s));
}

/// Appends answers as a JSON array.
pub fn push_solutions(ss: &Vec<Solution>, out: &mut Vec<char>)
    ensures
        final(out)@ == old(out)@ + solutions_json(ss@),
{
    let ghost start = out@;
    let ghost f = |s: Solution| solution_json(s);
    out.push('[');
    let mut i: usize = 0;
    while i < ss.len()
        invariant
            i <= ss.len(),
            f == (|s: Solution| solution_json(s)),
            out@ == start + seq!['['] + join(ss@.subrange(0, i as int).map_values(f)),
        decreases ss.len() - i,
    {
        if i > 0 {
            out.push(',');
        }
        push_solution(&ss[i], out);
        proof {
            let pre = ss@.subrange(0, i as int);
            let next = ss@.subrange(0, i + 1);
            assert(next.map_values(f) =~= pre.map_values(f).push(solution_json(ss@[i as int])));
            lemma_join_push(pre.map_values(f), solution_json(ss@[i as int]));
            assert(out@ =~= start + seq!['['] + join(next.map_values(f)));
        }
        i = i + 1;
    }
    out.push(']');
    assert(ss@.subrange(0, ss.len() as int) =~= ss@);
    assert(out@ =~= start + solutions_json(ss@));
}

/// The JSON text of a response, as a fresh buffer.
pub fn encode_response(r: &Response) -> (out: Vec<char>)
    ensures
        out@ == response_json(r@),
{
    let mut out: Vec<char> = Vec::new();
    match r {
        Response::Truth(b) => {
            push_all(&['{', '"', 's', 't', 'a', 't', 'u', 's', '"', ':', '"', 'o', 'k', '"', ',', '"', 'r', 'e', 's', 'u', 'l', 't', '"', ':'], &mut out);
            if *b {
                push_all(&['t', 'r', 'u', 'e'], &mut out);
            } else {
                push_all(&['f', 'a', 'l', 's', 'e'], &mut out);
            }
            out.push('}');
        },
        Response::Solutions(ss) => {
            push_all(&['{', '"', 's', 't', 'a', 't', 'u', 's', '"', ':', '"', 'o', 'k', '"', ',', '"', 'r', 'e', 's', 'u', 'l', 't', '"', ':'], &mut out);
            push_solutions(ss, &mut out);
            out.push('}');
        },
        Response::Failure(m) => {
            push_all(&['{', '"', 's', 't', 'a', 't', 'u', 's', '"', ':', '"', 'e', 'r', 'r', 'o', 'r', '"', ',', '"', 'r', 'e', 's', 'u', 'l', 't', '"', ':'], &mut out);
            push_json_string(m, &mut out);
            out.push('}');
        },
        Response::Done => {
            push_all(&['{', '"', 's', 't', 'a', 't', 'u', 's', '"', ':', '"', 'd', 'o', 'n', 'e', '"', '}'], &mut out);
        },
    }
    assert(out@ =~= response_json(r@));
    out
}

} // verus!
