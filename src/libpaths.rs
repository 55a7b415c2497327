use vstd::prelude::*;

verus! {

/// One component of a relative path, as far as the library table needs it.
#[derive(Debug, PartialEq, Eq, Structural, Clone, Copy)]
pub enum PathPart {
    /// A named directory.
    Normal,
    /// `.`
    CurDir,
    /// A root, a prefix or `..`: the path cannot be climbed back.
    Other,
}

/// The number of `..` steps that lead back up over `parts`, or `None` where
/// some part cannot be climbed back.
pub open spec fn ascent_of(parts: Seq<PathPart>) -> Option<nat>
    decreases parts.len(),
{
    if parts.len() == 0 {
        Some(0)
    } else {
        match (ascent_of(parts.drop_last()), parts.last()) {
            (None, _) => None,
            (Some(_), PathPart::Other) => None,
            (Some(n), PathPart::Normal) => Some(n + 1),
            (Some(n), PathPart::CurDir) => Some(n),
        }
    }
}

/// How many `..` steps lead from the output directory back to the
/// package directory, given the parts of the first below the second.
pub fn ascent(parts: &Vec<PathPart>) -> (r: Option<usize>)
    ensures
        match ascent_of(parts@) {
            Some(n) => r == Some(n as usize),
            None => r is None,
        },
{
    let mut n: usize = 0;
    let mut i: usize = 0;
    while i < parts.len()
        invariant
            i <= parts.len(),
            n <= i,
            ascent_of(parts@.subrange(0, i as int)) == Some(n as nat),
        decreases parts.len() - i,
    {
        assert(parts@.subrange(0, i + 1).drop_last() =~= parts@.subrange(0, i as int));
        match parts[i] {
            PathPart::Normal => n = n + 1,
            PathPart::CurDir => {},
            PathPart::Other => {
                proof {
                    lemma_ascent_stays_none(parts@, i as int + 1);
                }
                return None;
            },
        }
        i = i + 1;
    }
    assert(parts@.subrange(0, parts.len() as int) =~= parts@);
    Some(n)
}

proof fn lemma_ascent_stays_none(parts: Seq<PathPart>, k: int)
    requires
        0 <= k <= parts.len(),
        ascent_of(parts.subrange(0, k)) is None,
    ensures
        ascent_of(parts) is None,
    decreases parts.len() - k,
{
    if k < parts.len() {
        assert(parts.subrange(0, k + 1).drop_last() =~= parts.subrange(0, k));
        lemma_ascent_stays_none(parts, k + 1);
    } else {
        assert(parts.subrange(0, k) =~= parts);
    }
}

/// Whether a file extension marks a source file of the library.
pub fn is_source_extension(ext: &Vec<char>) -> (r: bool)
    ensures
        r == (ext@ == seq!['p', 'l']),
{
    let r = ext.len() == 2 && ext[0] == 'p' && ext[1] == 'l';
    assert(r ==> ext@ =~= seq!['p', 'l']);
    r
}

fn append(src: &Vec<char>, out: &mut Vec<char>)
    ensures
        final(out)@ == old(out)@ + src@,
{
    let ghost start = out@;
    let mut i: usize = 0;
    while i < src.len()
        invariant
            i <= src.len(),
            out@ =~= start + src@.subrange(0, i as int),
        decreases src.len() - i,
    {
        out.push(src[i]);
        i = i + 1;
    }
    assert(src@.subrange(0, src.len() as int) =~= src@);
}

/// The prefix of the libraries found in directory `dir` below `prefix`.
pub fn nested_prefix(prefix: &Vec<char>, dir: &Vec<char>) -> (r: Vec<char>)
    ensures
        r@ == prefix@ + dir@ + seq!['/'],
{
    let mut r: Vec<char> = Vec::new();
    append(prefix, &mut r);
    append(dir, &mut r);
    r.push('/');
    assert(r@ =~= prefix@ + dir@ + seq!['/']);
    r
}

/// The name of the library in the source file with stem `stem` below
/// `prefix`.
pub fn library_name(prefix: &Vec<char>, stem: &Vec<char>) -> (r: Vec<char>)
    ensures
        r@ == prefix@ + stem@,
{
    let mut r: Vec<char> = Vec::new();
    append(prefix, &mut r);
    append(stem, &mut r);
    assert(r@ =~= prefix@ + stem@);
    r
}

} // verus!
