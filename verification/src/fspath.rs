//! Byte-level model of file paths.
//!
//! The planner works on paths as byte strings, so every step of the name
//! computation is plain data: a path is a `Vec<u8>`, a separator is `/` or
//! `\`, and the final component splits into a stem and an extension at its
//! last dot.  A leading dot (a hidden file) does not start an extension.

use vstd::prelude::*;

verus! {

/// The bytes the planner treats as path separators: `/` and `\`.
pub open spec fn is_sep(b: u8) -> bool {
    b == 47 || b == 92
}

/// Index of the last separator in `p`, or -1 if `p` has none.
pub open spec fn last_sep(p: Seq<u8>) -> int
    decreases p.len(),
{
    if p.len() == 0 {
        -1
    } else if is_sep(p[p.len() - 1]) {
        p.len() - 1
    } else {
        last_sep(p.drop_last())
    }
}

/// Index of the last dot of `name` that separates a stem from an
/// extension, or -1 if there is none.  A dot at index 0 does not count:
/// a hidden file's name is all stem.
pub open spec fn last_dot(name: Seq<u8>) -> int
    decreases name.len(),
{
    if name.len() <= 1 {
        -1
    } else if name[name.len() - 1] == 46 {
        name.len() - 1
    } else {
        last_dot(name.drop_last())
    }
}

/// The final component of `p`: everything after the last separator
/// (all of `p` when there is none).
pub open spec fn name_of(p: Seq<u8>) -> Seq<u8> {
    p.subrange(last_sep(p) + 1, p.len() as int)
}

/// The directory prefix of `p`, including the last separator itself, so
/// that `dir_prefix(p) + name_of(p) == p`.
pub open spec fn dir_prefix(p: Seq<u8>) -> Seq<u8> {
    p.subrange(0, last_sep(p) + 1)
}

/// Whether `p` names a parent directory at all.
pub open spec fn has_parent(p: Seq<u8>) -> bool {
    last_sep(p) >= 0
}

/// Whether the final component of `p` has an extension.
pub open spec fn has_extension(p: Seq<u8>) -> bool {
    last_dot(name_of(p)) >= 0
}

/// The stem of the final component: what stands before its last dot.
pub open spec fn stem_of(p: Seq<u8>) -> Seq<u8> {
    name_of(p).subrange(0, last_dot(name_of(p)))
}

/// The extension of the final component: what stands after its last dot.
pub open spec fn ext_of(p: Seq<u8>) -> Seq<u8> {
    name_of(p).subrange(last_dot(name_of(p)) + 1, name_of(p).len() as int)
}

/// `last_sep` stays within the path, and points at a separator when it
/// points anywhere.
pub proof fn lemma_last_sep_props(p: Seq<u8>)
    ensures
        -1 <= last_sep(p) < p.len(),
        last_sep(p) >= 0 ==> is_sep(p[last_sep(p)]),
    decreases p.len(),
{
    if p.len() > 0 && !is_sep(p[p.len() - 1]) {
        lemma_last_sep_props(p.drop_last());
    }
}

/// `last_dot` stays within the name, never points at index 0, and
/// points at a dot when it points anywhere.
pub proof fn lemma_last_dot_props(name: Seq<u8>)
    ensures
        last_dot(name) == -1 || 1 <= last_dot(name) < name.len(),
        last_dot(name) >= 0 ==> name[last_dot(name)] == 46,
    decreases name.len(),
{
    if name.len() > 1 && name[name.len() - 1] != 46 {
        lemma_last_dot_props(name.drop_last());
        if last_dot(name) >= 0 {
            assert(name.drop_last()[last_dot(name)] == name[last_dot(name)]);
        }
    }
}

/// The directory prefix and the final component together rebuild the
/// path.
pub proof fn lemma_path_decomposition(p: Seq<u8>)
    ensures
        dir_prefix(p) + name_of(p) == p,
{
    lemma_last_sep_props(p);
    assert(dir_prefix(p) + name_of(p) =~= p);
}

/// Where the final component has an extension, its stem, a dot and the
/// extension together rebuild it.
pub proof fn lemma_name_decomposition(p: Seq<u8>)
    requires
        has_extension(p),
    ensures
        stem_of(p) + seq![46u8] + ext_of(p) == name_of(p),
{
    lemma_last_dot_props(name_of(p));
    assert(stem_of(p) + seq![46u8] + ext_of(p) =~= name_of(p));
}

/// `last_sep` ignores a suffix free of separators.
proof fn lemma_last_sep_skip(p: Seq<u8>, i: int)
    requires
        0 <= i <= p.len(),
        forall|k: int| i <= k < p.len() ==> !is_sep(#[trigger] p[k]),
    ensures
        last_sep(p) == last_sep(p.subrange(0, i)),
    decreases p.len() - i,
{
    if i == p.len() {
        assert(p.subrange(0, i) =~= p);
    } else {
        assert(!is_sep(p[p.len() - 1]));
        if p.len() > 0 {
            assert(p.drop_last() =~= p.subrange(0, p.len() - 1));
            lemma_last_sep_skip(p.drop_last(), i);
            assert(p.drop_last().subrange(0, i) =~= p.subrange(0, i));
        }
    }
}

/// `last_dot` ignores a suffix free of dots.
proof fn lemma_last_dot_skip(name: Seq<u8>, i: int)
    requires
        0 <= i <= name.len(),
        forall|k: int| i <= k < name.len() ==> #[trigger] name[k] != 46,
    ensures
        last_dot(name) == last_dot(name.subrange(0, i)),
    decreases name.len() - i,
{
    if i == name.len() {
        assert(name.subrange(0, i) =~= name);
    } else if name.len() <= 1 {
        assert(name.subrange(0, i).len() <= 1);
    } else {
        assert(name[name.len() - 1] != 46);
        assert(name.drop_last() =~= name.subrange(0, name.len() - 1));
        lemma_last_dot_skip(name.drop_last(), i);
        assert(name.drop_last().subrange(0, i) =~= name.subrange(0, i));
    }
}

/// Find the index of the last separator of `p`, scanning from the end.
pub fn find_last_sep(p: &Vec<u8>) -> (r: Option<usize>)
    ensures
        match r {
            Some(i) => i as int == last_sep(p@) && i < p@.len(),
            None => last_sep(p@) == -1,
        },
{
    let mut i: usize = p.len();
    while i > 0
        invariant
            i <= p.len(),
            forall|k: int| i <= k < p@.len() ==> !is_sep(#[trigger] p@[k]),
        decreases i,
    {
        let b = p[i - 1];
        if b == 47 || b == 92 {
            proof {
                lemma_last_sep_skip(p@, i as int);
                assert(p@.subrange(0, i as int)[i - 1] == p@[i - 1]);
            }
            return Some(i - 1);
        }
        i = i - 1;
    }
    proof {
        lemma_last_sep_skip(p@, 0);
    }
    None
}

/// Find the index of the last extension-separating dot of `name`,
/// scanning from the end and never counting index 0.
pub fn find_last_dot(name: &Vec<u8>) -> (r: Option<usize>)
    ensures
        match r {
            Some(i) => i as int == last_dot(name@) && 0 < i < name@.len(),
            None => last_dot(name@) == -1,
        },
{
    let mut i: usize = name.len();
    while i > 1
        invariant
            i <= name.len(),
            forall|k: int| i <= k < name@.len() ==> #[trigger] name@[k] != 46,
        decreases i,
    {
        if name[i - 1] == 46 {
            proof {
                lemma_last_dot_skip(name@, i as int);
                assert(name@.subrange(0, i as int)[i - 1] == name@[i - 1]);
            }
            return Some(i - 1);
        }
        i = i - 1;
    }
    proof {
        if name@.len() > 0 {
            lemma_last_dot_skip(name@, 1);
        }
    }
    None
}

/// Copy the byte range `[from, to)` of `p` into a fresh vector.
pub fn bytes_range(p: &Vec<u8>, from: usize, to: usize) -> (r: Vec<u8>)
    requires
        from <= to <= p@.len(),
    ensures
        r@ == p@.subrange(from as int, to as int),
{
    let mut out: Vec<u8> = Vec::new();
    let mut i: usize = from;
    while i < to
        invariant
            from <= i <= to <= p@.len(),
            out@ == p@.subrange(from as int, i as int),
        decreases to - i,
    {
        out.push(p[i]);
        proof {
            assert(out@ =~= p@.subrange(from as int, i + 1 as int));
        }
        i = i + 1;
    }
    out
}

/// Copy a whole byte vector.
pub fn copy_bytes(p: &Vec<u8>) -> (r: Vec<u8>)
    ensures
        r@ == p@,
{
    let r = bytes_range(p, 0, p.len());
    proof {
        assert(p@.subrange(0, p@.len() as int) =~= p@);
    }
    r
}

} // verus!
