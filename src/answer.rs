use vstd::prelude::*;
use crate::term::Term;
use crate::json::{Binding, Solution};

verus! {

/// Where `n` first stands among the goal's variables, in the order of their
/// first appearance in the goal text; `vars.len()` when it is not there.
pub open spec fn position(vars: Seq<Seq<char>>, n: Seq<char>) -> int
    decreases vars.len(),
{
    if vars.len() == 0 {
        0
    } else if vars[0] == n {
        0
    } else {
        1 + position(vars.drop_first(), n)
    }
}

/// Two variables of the goal made equal by unification are reported with
/// the leftmost as the key and the other's name as its value. A binding of a
/// variable to a variable that stands further left in the goal is turned
/// round; every other binding stays as it is.
pub open spec fn keyed_leftmost(vars: Seq<Seq<char>>, b: Binding, r: Binding) -> bool {
    match b.value {
        Term::Var(v) => if position(vars, v@) < position(vars, b.name@) {
            r.name@ == v@ && r.value is Var && r.value->Var_0@ == b.name@
        } else {
            r == b
        },
        _ => r == b,
    }
}

/// Whether two names are the same.
pub fn same_name(a: &Vec<char>, b: &Vec<char>) -> (r: bool)
    ensures
        r == (a@ == b@),
{
    if a.len() != b.len() {
        return false;
    }
    let mut i: usize = 0;
    while i < a.len()
        invariant
            i <= a.len(),
            a.len() == b.len(),
            forall|j: int| 0 <= j < i ==> a@[j] == b@[j],
        decreases a.len() - i,
    {
        if a[i] != b[i] {
            return false;
        }
        i = i + 1;
    }
    assert(a@ =~= b@);
    true
}

/// The position of `n` among `vars`.
pub fn find_position(vars: &Vec<Vec<char>>, n: &Vec<char>) -> (r: usize)
    ensures
        r as int == position(vars@.map_values(|v: Vec<char>| v@), n@),
{
    let ghost names = vars@.map_values(|v: Vec<char>| v@);
    assert(names.subrange(0, names.len() as int) =~= names);
    let mut i: usize = 0;
    while i < vars.len()
        invariant
            i <= vars.len(),
            names == vars@.map_values(|v: Vec<char>| v@),
            position(names, n@) == i + position(names.subrange(i as int, names.len() as int), n@),
        decreases vars.len() - i,
    {
        let ghost rest = names.subrange(i as int, names.len() as int);
        assert(rest.drop_first() =~= names.subrange(i + 1, names.len() as int));
        assert(rest[0] == vars@[i as int]@);
        if same_name(&vars[i], n) {
            return i;
        }
        i = i + 1;
    }
    assert(names.subrange(i as int, names.len() as int).len() == 0);
    i
}

/// Applies the leftmost-key rule to each binding of an answer.
pub fn key_leftmost(vars: &Vec<Vec<char>>, s: Solution) -> (r: Solution)
    ensures
        r.bindings@.len() == s.bindings@.len(),
        forall|i: int|
            0 <= i < s.bindings@.len() ==> keyed_leftmost(
                vars@.map_values(|v: Vec<char>| v@),
                #[trigger] s.bindings@[i],
                r.bindings@[i],
            ),
{
    let ghost names = vars@.map_values(|v: Vec<char>| v@);
    let ghost orig = s.bindings@;
    let mut rest = s.bindings;
    let mut out: Vec<Binding> = Vec::new();
    while rest.len() > 0
        invariant
            names == vars@.map_values(|v: Vec<char>| v@),
            out@.len() + rest@.len() == orig.len(),
            rest@ == orig.subrange(out@.len() as int, orig.len() as int),
            forall|i: int| 0 <= i < out@.len() ==> keyed_leftmost(names, #[trigger] orig[i], out@[i]),
        decreases rest@.len(),
    {
        let b = rest.remove(0);
        let ghost gb = b;
        let k = find_position(vars, &b.name);
        let turned = match b.value {
            Term::Var(v) => {
                let p = find_position(vars, &v);
                if p < k {
                    Binding { name: v, value: Term::Var(b.name) }
                } else {
                    Binding { name: b.name, value: Term::Var(v) }
                }
            },
            other => Binding { name: b.name, value: other },
        };
        assert(keyed_leftmost(names, gb, turned));
        out.push(turned);
        assert(orig[out@.len() - 1] == gb);
    }
    Solution { bindings: out }
}

} // verus!
