//! A string model of filesystem and remote paths: `/`-separated character
//! sequences, with the parent / file-name / join / strip-prefix operations
//! the pipeline's path rewriting is specified with, and the lexicographic
//! order used to pick the common local prefix.

use vstd::prelude::*;

verus! {

/// Some `/` occurs in `s`.
pub open spec fn has_slash(s: Seq<char>) -> bool {
    exists|k: int| 0 <= k < s.len() && s[k] == '/'
}

/// The position of the rightmost `/` in `s`.
pub open spec fn last_slash(s: Seq<char>) -> int {
    choose|k: int|
        0 <= k < s.len() && s[k] == '/' && forall|j: int| k < j < s.len() ==> s[j] != '/'
}

/// A canonical absolute path: starts at the root, no empty components, and
/// no trailing separator (the root itself is written `/`).
pub open spec fn wf_path(s: Seq<char>) -> bool {
    &&& s.len() >= 1
    &&& s[0] == '/'
    &&& (s.len() > 1 ==> s[s.len() - 1] != '/')
    &&& forall|k: int| 0 <= k < s.len() - 1 ==> !(s[k] == '/' && #[trigger] s[k + 1] == '/')
}

/// The path without its final component: `/a/b` has parent `/a`, `/a` has
/// parent `/`, a bare name has parent `` (the empty path), and the root and
/// the empty path have none.
pub open spec fn parent_of(s: Seq<char>) -> Option<Seq<char>> {
    if s.len() == 0 {
        None
    } else if !has_slash(s) {
        Some(seq![])
    } else if last_slash(s) == 0 {
        if s.len() == 1 {
            None
        } else {
            Some(seq!['/'])
        }
    } else {
        Some(s.take(last_slash(s)))
    }
}

/// The final component of a path: what follows the rightmost `/`, or the
/// whole of a bare name.
pub open spec fn file_name_of(s: Seq<char>) -> Seq<char> {
    if !has_slash(s) {
        s
    } else {
        s.skip(last_slash(s) + 1)
    }
}

/// Joining paths: an absolute right side replaces the left side; otherwise
/// the two are glued with exactly one separator.
pub open spec fn join(a: Seq<char>, b: Seq<char>) -> Seq<char> {
    if b.len() > 0 && b[0] == '/' {
        b
    } else if a.len() == 0 {
        b
    } else if a[a.len() - 1] == '/' {
        a + b
    } else {
        a + seq!['/'] + b
    }
}

/// The remainder of `p` under the base `base`, component-wise: `Some` of the
/// relative rest when `p` equals `base` or continues it past a separator.
pub open spec fn strip_prefix(p: Seq<char>, base: Seq<char>) -> Option<Seq<char>> {
    if p == base {
        Some(seq![])
    } else if base.len() == 0 {
        Some(p)
    } else if base[base.len() - 1] == '/' {
        if p.len() > base.len() && p.take(base.len() as int) == base {
            Some(p.skip(base.len() as int))
        } else {
            None
        }
    } else if p.len() > base.len() && p.take(base.len() as int) == base && p[base.len() as int]
        == '/' {
        Some(p.skip(base.len() + 1 as int))
    } else {
        None
    }
}

/// `p` lies at or under `base`, component-wise.
pub open spec fn path_starts_with(p: Seq<char>, base: Seq<char>) -> bool {
    strip_prefix(p, base).is_some()
}

/// Plain lexicographic order on character sequences, by character code; a
/// prefix comes before its extensions.
pub open spec fn lex_le(a: Seq<char>, b: Seq<char>) -> bool
    decreases a.len(),
{
    if a.len() == 0 {
        true
    } else if b.len() == 0 {
        false
    } else if a[0] != b[0] {
        a[0] < b[0]
    } else {
        lex_le(a.skip(1), b.skip(1))
    }
}

/// The order is reflexive.
pub proof fn lemma_lex_refl(a: Seq<char>)
    ensures
        lex_le(a, a),
    decreases a.len(),
{
    if a.len() > 0 {
        lemma_lex_refl(a.skip(1));
    }
}

/// The order is total.
pub proof fn lemma_lex_total(a: Seq<char>, b: Seq<char>)
    ensures
        lex_le(a, b) || lex_le(b, a),
    decreases a.len(),
{
    if a.len() > 0 && b.len() > 0 {
        if a[0] == b[0] {
            lemma_lex_total(a.skip(1), b.skip(1));
        } else {
            assert(a[0] < b[0] || b[0] < a[0]);
        }
    }
}

/// The order is transitive.
pub proof fn lemma_lex_trans(a: Seq<char>, b: Seq<char>, c: Seq<char>)
    requires
        lex_le(a, b),
        lex_le(b, c),
    ensures
        lex_le(a, c),
    decreases a.len(),
{
    if a.len() > 0 && b.len() > 0 && c.len() > 0 && a[0] == b[0] && b[0] == c[0] {
        lemma_lex_trans(a.skip(1), b.skip(1), c.skip(1));
    }
}

/// Order two smallest-first: both directions hold only for equal sequences.
pub proof fn lemma_lex_antisym(a: Seq<char>, b: Seq<char>)
    requires
        lex_le(a, b),
        lex_le(b, a),
    ensures
        a == b,
    decreases a.len(),
{
    if a.len() > 0 && b.len() > 0 && a[0] == b[0] {
        lemma_lex_antisym(a.skip(1), b.skip(1));
        assert(a =~= seq![a[0]] + a.skip(1));
        assert(b =~= seq![b[0]] + b.skip(1));
    }
}

/// Decides `lex_le` on character vectors.
pub fn lex_le_chars(a: &Vec<char>, b: &Vec<char>) -> (r: bool)
    ensures
        r == lex_le(a@, b@),
{
    let n = if a.len() < b.len() {
        a.len()
    } else {
        b.len()
    };
    proof {
        assert(a@.skip(0) =~= a@);
        assert(b@.skip(0) =~= b@);
    }
    let mut i: usize = 0;
    while i < n
        invariant
            n == if a@.len() < b@.len() {
                a@.len()
            } else {
                b@.len()
            },
            i <= n,
            forall|j: int| 0 <= j < i ==> a@[j] == b@[j],
            lex_le(a@, b@) == lex_le(a@.skip(i as int), b@.skip(i as int)),
        decreases n - i,
    {
        let ca = a[i];
        let cb = b[i];
        proof {
            assert(a@.skip(i as int)[0] == a@[i as int]);
            assert(b@.skip(i as int)[0] == b@[i as int]);
        }
        if ca != cb {
            proof {
                assert(lex_le(a@.skip(i as int), b@.skip(i as int)) == (ca < cb));
            }
            return ca < cb;
        }
        proof {
            assert(a@.skip(i as int).skip(1) =~= a@.skip(i + 1));
            assert(b@.skip(i as int).skip(1) =~= b@.skip(i + 1));
        }
        i = i + 1;
    }
    proof {
        let ta = a@.skip(i as int);
        let tb = b@.skip(i as int);
        assert(ta.len() == 0 || tb.len() == 0);
    }
    a.len() <= b.len()
}

} // verus!

verus! {

use crate::text::match_at;

/// Copies `s[from..to]`.
pub fn sub_chars(s: &Vec<char>, from: usize, to: usize) -> (r: Vec<char>)
    requires
        from <= to <= s@.len(),
    ensures
        r@ == s@.subrange(from as int, to as int),
{
    proof {
        assert(s.len() <= usize::MAX);
    }
    let mut out: Vec<char> = Vec::new();
    let mut i: usize = from;
    while i < to
        invariant
            from <= i <= to <= s@.len(),
            s@.len() <= usize::MAX,
            out@ == s@.subrange(from as int, i as int),
        decreases to - i,
    {
        out.push(s[i]);
        proof {
            assert(s@.subrange(from as int, i + 1 as int) =~= s@.subrange(from as int, i as int)
                .push(s@[i as int]));
        }
        i = i + 1;
    }
    out
}

/// Finds the rightmost `/`.
fn rfind_slash(s: &Vec<char>) -> (r: Option<usize>)
    ensures
        match r {
            Some(k) => {
                &&& k < s@.len()
                &&& s@[k as int] == '/'
                &&& forall|j: int| k < j < s@.len() ==> s@[j] != '/'
                &&& has_slash(s@)
                &&& last_slash(s@) == k as int
            },
            None => !has_slash(s@),
        },
{
    proof {
        assert(s.len() <= usize::MAX);
    }
    let mut i: usize = s.len();
    while i > 0
        invariant
            i <= s@.len(),
            s@.len() <= usize::MAX,
            forall|j: int| i <= j < s@.len() ==> s@[j] != '/',
        decreases i,
    {
        i = i - 1;
        if s[i] == '/' {
            proof {
                let k = i as int;
                assert(0 <= k < s@.len() && s@[k] == '/');
                let w = choose|w: int|
                    0 <= w < s@.len() && s@[w] == '/' && forall|j: int|
                        w < j < s@.len() ==> s@[j] != '/';
                assert(0 <= k < s@.len() && s@[k] == '/' && forall|j: int|
                    k < j < s@.len() ==> s@[j] != '/');
                if w != k {
                    assert(s@[w] == '/');
                }
            }
            return Some(i);
        }
    }
    proof {
        assert(forall|k: int| 0 <= k < s@.len() ==> s@[k] != '/');
    }
    None
}

/// The parent path, as `parent_of` defines it.
pub fn parent_chars(s: &Vec<char>) -> (r: Option<Vec<char>>)
    ensures
        match r {
            Some(v) => parent_of(s@) == Some(v@),
            None => parent_of(s@).is_none(),
        },
{
    if s.len() == 0 {
        return None;
    }
    match rfind_slash(s) {
        None => {
            let empty: Vec<char> = Vec::new();
            Some(empty)
        },
        Some(k) => {
            if k == 0 {
                if s.len() == 1 {
                    None
                } else {
                    let mut root: Vec<char> = Vec::new();
                    root.push('/');
                    proof {
                        assert(root@ =~= seq!['/']);
                    }
                    Some(root)
                }
            } else {
                let v = sub_chars(s, 0, k);
                proof {
                    assert(s@.subrange(0, k as int) =~= s@.take(k as int));
                }
                Some(v)
            }
        },
    }
}

/// The final component, as `file_name_of` defines it.
pub fn file_name_chars(s: &Vec<char>) -> (r: Vec<char>)
    ensures
        r@ == file_name_of(s@),
{
    proof {
        assert(s.len() <= usize::MAX);
    }
    match rfind_slash(s) {
        None => sub_chars(s, 0, s.len()),
        Some(k) => {
            let v = sub_chars(s, k + 1, s.len());
            proof {
                assert(s@.subrange(k + 1 as int, s@.len() as int) =~= s@.skip(k + 1));
            }
            v
        },
    }
}

/// Joins two paths, as `join` defines it.
pub fn join_chars(a: &Vec<char>, b: &Vec<char>) -> (r: Vec<char>)
    ensures
        r@ == join(a@, b@),
{
    if b.len() > 0 && b[0] == '/' {
        return sub_chars(b, 0, b.len());
    }
    if a.len() == 0 {
        return sub_chars(b, 0, b.len());
    }
    let mut out = sub_chars(a, 0, a.len());
    if a[a.len() - 1] != '/' {
        out.push('/');
    }
    crate::text::push_all(&mut out, b);
    proof {
        if a@[a@.len() - 1] == '/' {
            assert(out@ =~= a@ + b@);
        } else {
            assert(out@ =~= a@ + seq!['/'] + b@);
        }
    }
    out
}

/// The relative remainder of `p` under `base`, as `strip_prefix` defines it.
pub fn strip_prefix_chars(p: &Vec<char>, base: &Vec<char>) -> (r: Option<Vec<char>>)
    ensures
        match r {
            Some(v) => strip_prefix(p@, base@) == Some(v@),
            None => strip_prefix(p@, base@).is_none(),
        },
{
    proof {
        assert(p.len() <= usize::MAX);
    }
    if p.len() == base.len() && crate::text::matches_at(p, base, 0) {
        proof {
            assert(p@ =~= p@.subrange(0, p@.len() as int));
            assert(base@ =~= base@.subrange(0, base@.len() as int));
            assert forall|j: int| 0 <= j < p@.len() implies p@[j] == base@[j] by {
                assert(p@[0 + j] == base@[j]);
            }
            assert(p@ =~= base@);
        }
        let empty: Vec<char> = Vec::new();
        return Some(empty);
    }
    proof {
        if p@ == base@ {
            assert(p@.len() == base@.len());
            assert(match_at(p@, base@, 0));
        }
        assert(p@ != base@);
    }
    if base.len() == 0 {
        return Some(sub_chars(p, 0, p.len()));
    }
    if p.len() <= base.len() {
        proof {
            if base@[base@.len() - 1] == '/' {
                assert(!(p@.len() > base@.len()));
            }
        }
        return None;
    }
    if !crate::text::matches_at(p, base, 0) {
        proof {
            if p@.take(base@.len() as int) == base@ {
                assert forall|j: int| 0 <= j < base@.len() implies p@[0 + j] == base@[j] by {
                    assert(p@.take(base@.len() as int)[j] == base@[j]);
                }
                assert(match_at(p@, base@, 0));
            }
        }
        return None;
    }
    proof {
        assert forall|j: int| 0 <= j < base@.len() implies p@.take(base@.len() as int)[j]
            == base@[j] by {
            assert(p@[0 + j] == base@[j]);
        }
        assert(p@.take(base@.len() as int) =~= base@);
    }
    if base[base.len() - 1] == '/' {
        let v = sub_chars(p, base.len(), p.len());
        proof {
            assert(p@.subrange(base@.len() as int, p@.len() as int) =~= p@.skip(
                base@.len() as int,
            ));
        }
        return Some(v);
    }
    if p[base.len()] == '/' {
        let v = sub_chars(p, base.len() + 1, p.len());
        proof {
            assert(p@.subrange(base@.len() + 1 as int, p@.len() as int) =~= p@.skip(base@.len() + 1 as int));
        }
        return Some(v);
    }
    None
}

/// Does `p` lie at or under `base`, component-wise.
pub fn starts_with_path(p: &Vec<char>, base: &Vec<char>) -> (r: bool)
    ensures
        r == path_starts_with(p@, base@),
{
    match strip_prefix_chars(p, base) {
        Some(_) => true,
        None => false,
    }
}

/// `m` is a lexicographically smallest member of the list.
pub open spec fn is_lex_min(l: Seq<Seq<char>>, m: Seq<char>) -> bool {
    &&& l.contains(m)
    &&& forall|i: int| 0 <= i < l.len() ==> lex_le(m, #[trigger] l[i])
}

/// Two smallest members are the same sequence.
pub proof fn lemma_lex_min_unique(l: Seq<Seq<char>>, m1: Seq<char>, m2: Seq<char>)
    requires
        is_lex_min(l, m1),
        is_lex_min(l, m2),
    ensures
        m1 == m2,
{
    let i1 = choose|i: int| 0 <= i < l.len() && l[i] == m1;
    let i2 = choose|i: int| 0 <= i < l.len() && l[i] == m2;
    lemma_lex_antisym(m1, m2);
}

/// Picks the index of a lexicographically smallest element.
pub fn lex_min_index(v: &Vec<Vec<char>>) -> (r: usize)
    requires
        v@.len() > 0,
    ensures
        r < v@.len(),
        is_lex_min(v@.map_values(|x: Vec<char>| x@), v@[r as int]@),
{
    let ghost l = v@.map_values(|x: Vec<char>| x@);
    proof {
        assert(l[0] == v@[0]@);
        lemma_lex_refl(v@[0]@);
    }
    let mut best: usize = 0;
    let mut i: usize = 1;
    while i < v.len()
        invariant
            best < i <= v@.len(),
            l == v@.map_values(|x: Vec<char>| x@),
            forall|j: int| 0 <= j < i ==> lex_le(v@[best as int]@, #[trigger] l[j]),
        decreases v@.len() - i,
    {
        if !lex_le_chars(&v[best], &v[i]) {
            proof {
                lemma_lex_total(v@[best as int]@, v@[i as int]@);
                lemma_lex_refl(v@[i as int]@);
                assert forall|j: int| 0 <= j < i + 1 implies lex_le(v@[i as int]@, #[trigger] l[j])
                    by {
                    if j < i {
                        lemma_lex_trans(v@[i as int]@, v@[best as int]@, l[j]);
                    } else {
                        assert(l[j] == v@[i as int]@);
                    }
                }
            }
            best = i;
        }
        i = i + 1;
    }
    proof {
        assert(l[best as int] == v@[best as int]@);
    }
    best
}

} // verus!
