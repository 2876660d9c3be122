use vstd::prelude::*;

verus! {

/// A path separator: both forward and backward slashes are accepted.
pub open spec fn is_sep(c: char) -> bool {
    c == '/' || c == '\\'
}

/// `rel` placed under `base`.
pub open spec fn join(base: Seq<char>, rel: Seq<char>) -> Seq<char> {
    base + seq!['/'] + rel
}

/// Whether `p` is a root: a lone separator, or a drive and a separator.
pub open spec fn is_root(p: Seq<char>) -> bool {
    (p.len() == 1 && is_sep(p[0])) || (p.len() == 3 && p[1] == ':' && is_sep(p[2]))
}

/// The directory part of a path: everything before its last separator, kept
/// whole when that leaves a root, and empty when there is no separator.
pub open spec fn parent_of(p: Seq<char>) -> Seq<char>
    decreases p.len(),
{
    if p.len() == 0 {
        p
    } else if is_sep(p.last()) {
        if is_root(p) {
            p
        } else {
            p.drop_last()
        }
    } else {
        parent_of(p.drop_last())
    }
}

/// Whether `p` has a segment ".." at position `i`.
pub open spec fn parent_segment_at(p: Seq<char>, i: int) -> bool {
    0 <= i && i + 2 <= p.len() && p[i] == '.' && p[i + 1] == '.' && (i == 0 || is_sep(p[i - 1]))
        && (i + 2 == p.len() || is_sep(p[i + 2]))
}

/// A relative path that stays below the directory it is joined to: not
/// starting at a root or with a drive, with no ".." segment.
pub open spec fn stays_inside(p: Seq<char>) -> bool {
    &&& !(p.len() > 0 && is_sep(p[0]))
    &&& !(p.len() > 1 && p[1] == ':')
    &&& forall|i: int| !#[trigger] parent_segment_at(p, i)
}

/// Whether `q` lies strictly below `p`.
pub open spec fn strictly_below(q: Seq<char>, p: Seq<char>) -> bool {
    q.len() > p.len() && q.subrange(0, p.len() as int) == p && is_sep(q[p.len() as int])
}

/// Whether `q` is `p` or lies below it.
pub open spec fn at_or_below(q: Seq<char>, p: Seq<char>) -> bool {
    q == p || strictly_below(q, p)
}

/// A path joined below `base` lies strictly below it, and different relative
/// paths give different joined paths.
pub proof fn lemma_join_below(base: Seq<char>, rel: Seq<char>)
    ensures
        strictly_below(join(base, rel), base),
        forall|other: Seq<char>| #[trigger] join(base, other) == join(base, rel) ==> other == rel,
{
    let d = join(base, rel);
    assert(d.subrange(0, base.len() as int) =~= base);
    assert(d[base.len() as int] == '/');
    assert forall|other: Seq<char>| #[trigger] join(base, other) == join(base, rel) implies other == rel by {
        let e = join(base, other);
        assert(other =~= e.subrange(base.len() as int + 1, e.len() as int));
        assert(rel =~= d.subrange(base.len() as int + 1, d.len() as int));
    }
}

pub fn is_separator(c: char) -> (r: bool)
    ensures
        r == is_sep(c),
{
    c == '/' || c == '\\'
}

/// Places `rel` under `base`.
pub fn join_path(base: &str, rel: &str) -> (r: String)
    ensures
        r@ == join(base@, rel@),
{
    let r = String::from_str(base).concat("/").concat(rel);
    proof {
        reveal_strlit("/");
    }
    r
}

/// The directory part of `path`.
pub fn parent_path(path: &str) -> (r: String)
    ensures
        r@ == parent_of(path@),
{
    let mut i: usize = path.unicode_len();
    assert(path@.subrange(0, i as int) =~= path@);
    while i > 0
        invariant
            i <= path@.len(),
            parent_of(path@) == parent_of(path@.subrange(0, i as int)),
        decreases i,
    {
        let c = path.get_char(i - 1);
        if is_separator(c) {
            let ghost q = path@.subrange(0, i as int);
            assert(q.last() == c);
            let root = i == 1 || (i == 3 && path.get_char(1) == ':');
            if root {
                assert(is_root(q));
                return String::from_str(path.substring_char(0, i));
            } else {
                assert(q.drop_last() =~= path@.subrange(0, i - 1));
                return String::from_str(path.substring_char(0, i - 1));
            }
        }
        assert(path@.subrange(0, i as int).drop_last() =~= path@.subrange(0, i - 1));
        i = i - 1;
    }
    assert(path@.subrange(0, 0) =~= Seq::<char>::empty());
    String::new()
}

/// Whether joining `rel` below a directory stays below it.
pub fn is_inside_path(rel: &str) -> (r: bool)
    ensures
        r == stays_inside(rel@),
{
    let n = rel.unicode_len();
    if n > 0 && is_separator(rel.get_char(0)) {
        return false;
    }
    if n > 1 && rel.get_char(1) == ':' {
        return false;
    }
    let mut i: usize = 0;
    while i < n
        invariant
            n == rel@.len(),
            i <= n,
            forall|k: int| 0 <= k < i ==> !#[trigger] parent_segment_at(rel@, k),
        decreases n - i,
    {
        let c = rel.get_char(i);
        if c == '.' && i + 1 < n && rel.get_char(i + 1) == '.' {
            let starts = i == 0 || is_separator(rel.get_char(i - 1));
            let ends = i + 2 == n || is_separator(rel.get_char(i + 2));
            if starts && ends {
                assert(parent_segment_at(rel@, i as int));
                return false;
            }
        }
        i = i + 1;
    }
    assert forall|k: int| !#[trigger] parent_segment_at(rel@, k) by {
        if 0 <= k < n {
        }
    }
    true
}

} // verus!
