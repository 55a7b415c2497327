use vstd::prelude::*;

verus! {

/// A value of the logic-programming data model, as the engine hands it over.
#[derive(Debug)]
pub enum Term {
    /// An atom, by its name.
    Atom(Vec<char>),
    /// A double-quoted string, by its characters.
    Str(Vec<char>),
    Integer(i64),
    /// A float, by the decimal text the engine wrote for it.
    Float(Vec<char>),
    /// A compound term: functor and ordered arguments.
    Compound(Vec<char>, Vec<Term>),
    /// An unbound variable, by its name.
    Var(Vec<char>),
}

/// The decimal digits of a natural number.
pub open spec fn nat_digits(n: nat) -> Seq<char>
    decreases n,
{
    if n < 10 {
        seq![digit_char(n)]
    } else {
        nat_digits(n / 10) + seq![digit_char(n % 10)]
    }
}

pub open spec fn digit_char(d: nat) -> char {
    (d + 48) as char
}

/// The decimal text of an integer, with a leading minus sign when negative.
pub open spec fn int_text(i: int) -> Seq<char> {
    if i < 0 {
        seq!['-'] + nat_digits((-i) as nat)
    } else {
        nat_digits(i as nat)
    }
}

/// How one character of a quoted string is written: quote and backslash
/// are preceded by a backslash.
pub open spec fn quoted_char(c: char) -> Seq<char> {
    if c == '"' || c == '\\' {
        seq!['\\', c]
    } else {
        seq![c]
    }
}

pub open spec fn quoted_body(s: Seq<char>) -> Seq<char>
    decreases s.len(),
{
    if s.len() == 0 {
        Seq::empty()
    } else {
        quoted_body(s.drop_last()) + quoted_char(s.last())
    }
}

/// The text of a term: atoms and variables by name, strings inside literal
/// quote characters, numbers in decimal, compounds as `f(a1,...,an)`.
pub open spec fn term_text(t: Term) -> Seq<char>
    decreases t,
{
    match t {
        Term::Atom(n) => n@,
        Term::Str(s) => seq!['"'] + quoted_body(s@) + seq!['"'],
        Term::Integer(i) => int_text(i as int),
        Term::Float(d) => d@,
        Term::Compound(f, args) => f@ + seq!['('] + args_text(args@) + seq![')'],
        Term::Var(n) => n@,
    }
}

/// The arguments of a compound, each as `term_text`, separated by commas.
pub open spec fn args_text(args: Seq<Term>) -> Seq<char>
    decreases args,
{
    if args.len() == 0 {
        Seq::empty()
    } else if args.len() == 1 {
        term_text(args[0])
    } else {
        args_text(args.drop_last()) + seq![','] + term_text(args.last())
    }
}

proof fn lemma_quoted_body_len(s: Seq<char>)
    ensures
        quoted_body(s).len() >= s.len(),
    decreases s.len(),
{
    if s.len() > 0 {
        lemma_quoted_body_len(s.drop_last());
    }
}

proof fn lemma_quoted_body_plain(s: Seq<char>)
    requires
        forall|i: int| 0 <= i < s.len() ==> s[i] != '"' && s[i] != '\\',
    ensures
        quoted_body(s) == s,
    decreases s.len(),
{
    if s.len() > 0 {
        lemma_quoted_body_plain(s.drop_last());
        assert(s.drop_last() + seq![s.last()] =~= s);
    }
}

/// An atom and a string made of the same characters never have the same
/// text: the atom's is its name, the string's is longer by at least its two
/// quote characters. Where the characters hold no quote or backslash, the
/// string's text with its first and last character taken off gives them
/// back.
pub proof fn lemma_atom_string_distinct(name: Vec<char>)
    ensures
        term_text(Term::Atom(name)) == name@,
        term_text(Term::Str(name)).len() >= name@.len() + 2,
        term_text(Term::Str(name))[0] == '"',
        term_text(Term::Str(name)).last() == '"',
        term_text(Term::Atom(name)) != term_text(Term::Str(name)),
        (forall|i: int| 0 <= i < name@.len() ==> name@[i] != '"' && name@[i] != '\\') ==> term_text(
            Term::Str(name),
        ).subrange(1, name@.len() as int + 1) == name@,
{
    lemma_quoted_body_len(name@);
    if forall|i: int| 0 <= i < name@.len() ==> name@[i] != '"' && name@[i] != '\\' {
        lemma_quoted_body_plain(name@);
        assert(term_text(Term::Str(name)).subrange(1, name@.len() as int + 1) =~= name@);
    }
}

/// Appends the decimal digits of `n`.
fn push_digits(n: u64, out: &mut Vec<char>)
    ensures
        final(out)@ == old(out)@ + nat_digits(n as nat),
    decreases n,
{
    if n < 10 {
        out.push(((n as u8) + 48u8) as char);
    } else {
        push_digits(n / 10, out);
        out.push((((n % 10) as u8) + 48u8) as char);
    }
}

/// Appends the decimal text of `i`.
pub fn push_int(i: i64, out: &mut Vec<char>)
    ensures
        final(out)@ == old(out)@ + int_text(i as int),
{
    if i < 0 {
        out.push('-');
        let m: u64 = if i == i64::MIN {
            9223372036854775808u64
        } else {
            (-i) as u64
        };
        push_digits(m, out);
        assert(final(out)@ =~= old(out)@ + int_text(i as int));
    } else {
        push_digits(i as u64, out);
    }
}

/// Appends `s` as the body of a quoted string.
fn push_quoted_body(s: &Vec<char>, out: &mut Vec<char>)
    ensures
        final(out)@ == old(out)@ + quoted_body(s@),
{
    let ghost start = out@;
    let mut i: usize = 0;
    while i < s.len()
        invariant
            i <= s.len(),
            out@ == start + quoted_body(s@.subrange(0, i as int)),
        decreases s.len() - i,
    {
        let c = s[i];
        if c == '"' || c == '\\' {
            out.push('\\');
        }
        out.push(c);
        assert(s@.subrange(0, i + 1).drop_last() =~= s@.subrange(0, i as int));
        assert(out@ =~= start + quoted_body(s@.subrange(0, i + 1)));
        i = i + 1;
    }
    assert(s@.subrange(0, s.len() as int) =~= s@);
}

fn push_chars(s: &Vec<char>, out: &mut Vec<char>)
    ensures
        final(out)@ == old(out)@ + s@,
{
    let ghost start = out@;
    let mut i: usize = 0;
    while i < s.len()
        invariant
            i <= s.len(),
            out@ =~= start + s@.subrange(0, i as int),
        decreases s.len() - i,
    {
        out.push(s[i]);
        i = i + 1;
    }
    assert(s@.subrange(0, s.len() as int) =~= s@);
}

/// Appends the text of a term.
pub fn push_term_text(t: &Term, out: &mut Vec<char>)
    ensures
        final(out)@ == old(out)@ + term_text(*t),
    decreases t,
{
    match t {
        Term::Atom(n) => push_chars(n, out),
        Term::Var(n) => push_chars(n, out),
        Term::Float(d) => push_chars(d, out),
        Term::Integer(i) => push_int(*i, out),
        Term::Str(s) => {
            let ghost start = out@;
            out.push('"');
            push_quoted_body(s, out);
            out.push('"');
            assert(out@ =~= start + term_text(*t));
        },
        Term::Compound(f, args) => {
            let ghost start = out@;
            push_chars(f, out);
            out.push('(');
            let ghost mid = out@;
            let mut i: usize = 0;
            while i < args.len()
                invariant
                    i <= args.len(),
                    *t == Term::Compound(*f, *args),
                    out@ == mid + args_text(args@.subrange(0, i as int)),
                decreases args.len() - i,
            {
                if i > 0 {
                    out.push(',');
                }
                proof {
                    assert(decreases_to!(*t => (*t)->1));
                    assert(decreases_to!(*args => args@));
                    assert(decreases_to!(args@ => args@[i as int]));
                }
                push_term_text(&args[i], out);
                let ghost pre = args@.subrange(0, i as int);
                let ghost next = args@.subrange(0, i + 1);
                assert(next.drop_last() =~= pre);
                assert(next.last() == args@[i as int]);
                if i == 0 {
                    assert(pre.len() == 0);
                    assert(out@ =~= mid + args_text(next));
                } else {
                    assert(out@ =~= mid + args_text(next));
                }
                i = i + 1;
            }
            assert(args@.subrange(0, args.len() as int) =~= args@);
            out.push(')');
            assert(out@ =~= start + term_text(*t));
        },
    }
}

/// The text of a term, as a fresh buffer.
pub fn encode_term(t: &Term) -> (r: Vec<char>)
    ensures
        r@ == term_text(*t),
{
    let mut out: Vec<char> = Vec::new();
    push_term_text(t, &mut out);
    assert(out@ =~= term_text(*t));
    out
}

} // verus!
