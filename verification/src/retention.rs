//! Retention: after a compressed upload, the destination folder is listed
//! and the oldest stamped artifacts beyond `keep_last` are chosen for
//! deletion. Age is the timestamp embedded in the artifact's final name
//! component; names with the same stamp are ordered lexicographically, and
//! names without an embedded stamp are never touched.

use vstd::prelude::*;

verus! {

use vstd::relations::{sorted_by, total_ordering};
use crate::paths::{file_name_of, lex_le, lemma_lex_antisym, lemma_lex_total, lemma_lex_trans};
use crate::timestamp::{read_stamp, stamp_of, stamped, Timestamp};

/// The name's final component carries an embedded timestamp.
pub open spec fn name_stamped(n: Seq<char>) -> bool {
    stamped(file_name_of(n))
}

/// The timestamp embedded in the name's final component.
pub open spec fn name_stamp(n: Seq<char>) -> Timestamp {
    stamp_of(file_name_of(n))
}

/// Retention age order: embedded timestamp first, whole name second.
pub open spec fn retention_le(a: Seq<char>, b: Seq<char>) -> bool {
    if name_stamp(a) == name_stamp(b) {
        lex_le(a, b)
    } else {
        name_stamp(a).le(name_stamp(b))
    }
}

/// The retention order as a relation value.
pub open spec fn retention_order() -> spec_fn(Seq<char>, Seq<char>) -> bool {
    |a: Seq<char>, b: Seq<char>| retention_le(a, b)
}

/// The retention order is a total order.
pub proof fn lemma_retention_total_ordering()
    ensures
        total_ordering(retention_order()),
{
    let ord = retention_order();
    assert forall|a: Seq<char>| #[trigger] ord(a, a) by {
        crate::paths::lemma_lex_refl(a);
    }
    assert forall|a: Seq<char>, b: Seq<char>| #[trigger] ord(a, b) && #[trigger] ord(b, a)
        implies a == b by {
        if name_stamp(a) == name_stamp(b) {
            lemma_lex_antisym(a, b);
        }
    }
    assert forall|a: Seq<char>, b: Seq<char>, c: Seq<char>|
        #[trigger] ord(a, b) && #[trigger] ord(b, c) implies ord(a, c) by {
        if name_stamp(a) == name_stamp(b) && name_stamp(b) == name_stamp(c) {
            lemma_lex_trans(a, b, c);
        }
    }
    assert forall|a: Seq<char>, b: Seq<char>| #[trigger] ord(a, b) || #[trigger] ord(b, a) by {
        if name_stamp(a) == name_stamp(b) {
            lemma_lex_total(a, b);
        }
    }
}

/// The stamped names of a listing, in listing order, as character sequences.
pub open spec fn stamped_names(names: Seq<String>) -> Seq<Seq<char>>
    decreases names.len(),
{
    if names.len() == 0 {
        seq![]
    } else {
        let rest = stamped_names(names.drop_last());
        if name_stamped(names.last()@) {
            rest.push(names.last()@)
        } else {
            rest
        }
    }
}

/// How many listed artifacts exceed the keep count.
pub open spec fn surplus_count(names: Seq<String>, keep: int) -> int {
    if stamped_names(names).len() > keep {
        stamped_names(names).len() - keep
    } else {
        0
    }
}

/// The views of a name list.
pub open spec fn views_of(v: Seq<String>) -> Seq<Seq<char>> {
    v.map_values(|x: String| x@)
}

/// Decides the retention order on two stamped names.
fn retention_le_exec(a: &String, b: &String) -> (r: bool)
    requires
        name_stamped(a@),
        name_stamped(b@),
    ensures
        r == retention_le(a@, b@),
{
    let ac = crate::text::chars_of(a.as_str());
    let bc = crate::text::chars_of(b.as_str());
    let an = crate::paths::file_name_chars(&ac);
    let bn = crate::paths::file_name_chars(&bc);
    let sa = read_stamp(&an);
    let sb = read_stamp(&bn);
    match (sa, sb) {
        (Some(ta), Some(tb)) => {
            if ta == tb {
                crate::paths::lex_le_chars(&ac, &bc)
            } else {
                ta.le_exec(&tb)
            }
        },
        _ => false,
    }
}

/// The deletion choice retention makes, as a predicate over the listing and
/// the chosen victims: exactly the surplus count is chosen, oldest-first,
/// from among the listing's stamped names, every name kept is at least as
/// new as every name chosen, and nothing unstamped is chosen. A sequence
/// with these properties is unique up to equal names.
pub open spec fn valid_victims(names: Seq<String>, keep: int, v: Seq<Seq<char>>) -> bool {
    let s = stamped_names(names);
    &&& v.len() == surplus_count(names, keep)
    &&& sorted_by(v, retention_order())
    &&& forall|x: Seq<char>| #[trigger] v.to_multiset().count(x) <= s.to_multiset().count(x)
    &&& forall|x: Seq<char>|
        s.to_multiset().count(x) > v.to_multiset().count(x) ==> forall|i: int|
            0 <= i < v.len() ==> retention_le(#[trigger] v[i], x)
    &&& forall|i: int| 0 <= i < v.len() ==> name_stamped(#[trigger] v[i])
}

/// Picks the artifacts retention deletes: the oldest stamped names of the
/// listing beyond the `keep_last` newest. The result is oldest-first; the
/// names kept are, each of them, no older than any name deleted; a name
/// without an embedded stamp is never picked.
pub fn retention_victims(names: &Vec<String>, keep_last: u32) -> (r: Vec<String>)
    ensures
        valid_victims(names@, keep_last as int, views_of(r@)),
{
    broadcast use vstd::seq_lib::group_seq_properties;

    let ghost s = stamped_names(names@);
    let mut pool: Vec<String> = Vec::new();
    let mut i: usize = 0;
    while i < names.len()
        invariant
            i <= names@.len(),
            views_of(pool@) == stamped_names(names@.take(i as int)),
            forall|j: int| 0 <= j < pool@.len() ==> name_stamped(#[trigger] pool@[j]@),
        decreases names@.len() - i,
    {
        let ghost pre = views_of(pool@);
        let nc = crate::text::chars_of(names[i].as_str());
        let fname = crate::paths::file_name_chars(&nc);
        match read_stamp(&fname) {
            Some(_) => {
                pool.push(names[i].clone());
                proof {
                    assert(views_of(pool@) =~= pre.push(names@[i as int]@));
                }
            },
            None => {},
        }
        proof {
            assert(names@.take(i + 1 as int).drop_last() =~= names@.take(i as int));
            assert(names@.take(i + 1 as int).last() == names@[i as int]);
        }
        i = i + 1;
    }
    proof {
        assert(names@.take(names@.len() as int) =~= names@);
    }
    let total = pool.len();
    let surplus: usize = if total > keep_last as usize {
        total - keep_last as usize
    } else {
        0
    };
    let ghost ord = retention_order();
    proof {
        assert(views_of(pool@).to_multiset().len() == views_of(pool@).len());
        assert(s.to_multiset().len() == s.len());
    }
    let mut out: Vec<String> = Vec::new();
    let mut t: usize = 0;
    while t < surplus
        invariant
            ord == retention_order(),
            s == stamped_names(names@),
            t == out@.len(),
            t <= surplus <= s.len(),
            pool@.len() == s.len() - t,
            views_of(out@).to_multiset().add(views_of(pool@).to_multiset()) == s.to_multiset(),
            sorted_by(views_of(out@), ord),
            forall|a: int, b: int|
                0 <= a < out@.len() && 0 <= b < pool@.len() ==> retention_le(
                    #[trigger] out@[a]@,
                    #[trigger] pool@[b]@,
                ),
            forall|j: int| 0 <= j < pool@.len() ==> name_stamped(#[trigger] pool@[j]@),
            forall|j: int| 0 <= j < out@.len() ==> name_stamped(#[trigger] out@[j]@),
        decreases surplus - t,
    {
        proof {
            crate::paths::lemma_lex_refl(pool@[0]@);
            assert(retention_le(pool@[0]@, pool@[0]@));
        }
        let mut best: usize = 0;
        let mut k: usize = 1;
        while k < pool.len()
            invariant
                pool@.len() >= 1,
                best < k <= pool@.len(),
                forall|j: int| 0 <= j < k ==> retention_le(pool@[best as int]@, #[trigger] pool@[j]@),
                forall|j: int| 0 <= j < pool@.len() ==> name_stamped(#[trigger] pool@[j]@),
            decreases pool@.len() - k,
        {
            proof {
                lemma_retention_total_ordering();
            }
            if !retention_le_exec(&pool[best], &pool[k]) {
                proof {
                    let o = retention_order();
                    assert(o(pool@[best as int]@, pool@[k as int]@) || o(
                        pool@[k as int]@,
                        pool@[best as int]@,
                    ));
                    assert forall|j: int| 0 <= j < k + 1 implies retention_le(
                        pool@[k as int]@,
                        #[trigger] pool@[j]@,
                    ) by {
                        if j < k {
                            assert(o(pool@[k as int]@, pool@[best as int]@));
                            assert(o(pool@[best as int]@, pool@[j]@));
                            assert(o(pool@[k as int]@, pool@[j]@));
                        } else {
                            assert(o(pool@[k as int]@, pool@[k as int]@));
                        }
                    }
                }
                best = k;
            } else {
                proof {
                    lemma_retention_total_ordering();
                    assert(retention_le(pool@[best as int]@, pool@[k as int]@));
                }
            }
            k = k + 1;
        }
        proof {
            crate::paths::lemma_lex_refl(pool@[best as int]@);
            assert(retention_le(pool@[best as int]@, pool@[best as int]@));
        }
        let ghost old_out = out@;
        let ghost old_pool = pool@;
        let x = pool.remove(best);
        out.push(x);
        proof {
            broadcast use vstd::seq_lib::group_to_multiset_ensures;

            assert(views_of(out@) =~= views_of(old_out).push(old_pool[best as int]@));
            assert(views_of(pool@) =~= views_of(old_pool).remove(best as int));
            assert(views_of(old_pool)[best as int] == old_pool[best as int]@);
            assert(views_of(pool@).to_multiset() =~= views_of(old_pool).to_multiset().remove(
                old_pool[best as int]@,
            ));
            assert(views_of(out@).to_multiset() =~= views_of(old_out).to_multiset().insert(
                old_pool[best as int]@,
            ));
            assert(views_of(old_pool).to_multiset().count(old_pool[best as int]@) > 0);
            assert(views_of(out@).to_multiset().add(views_of(pool@).to_multiset())
                =~= s.to_multiset());
            let nv = views_of(out@);
            assert forall|a: int, b: int|
                0 <= a < b < nv.len() implies #[trigger] ord(nv[a], nv[b]) by {
                if b < nv.len() - 1 {
                    assert(ord(views_of(old_out)[a], views_of(old_out)[b]));
                } else {
                    assert(ord(old_out[a]@, old_pool[best as int]@));
                }
            }
            assert forall|a: int, b: int|
                0 <= a < out@.len() && 0 <= b < pool@.len() implies retention_le(
                #[trigger] out@[a]@,
                #[trigger] pool@[b]@,
            ) by {
                let ob = if b < best { b } else { b + 1 };
                assert(pool@[b]@ == old_pool[ob]@);
                if a < out@.len() - 1 {
                    assert(retention_le(old_out[a]@, old_pool[ob]@));
                } else {
                    assert(retention_le(old_pool[best as int]@, old_pool[ob]@));
                }
            }
        }
        t = t + 1;
    }
    proof {
        broadcast use vstd::seq_lib::group_to_multiset_ensures;

        let v = views_of(out@);
        let pv = views_of(pool@);
        assert forall|x: Seq<char>| #[trigger] v.to_multiset().count(x) <= s.to_multiset().count(
            x,
        ) by {
            assert(s.to_multiset().count(x) == v.to_multiset().count(x) + pv.to_multiset().count(
                x,
            ));
        }
        assert forall|x: Seq<char>|
            s.to_multiset().count(x) > v.to_multiset().count(x) implies forall|i: int|
            0 <= i < v.len() ==> retention_le(#[trigger] v[i], x) by {
            assert(pv.to_multiset().count(x) > 0);
            assert(pv.contains(x));
            let b = choose|b: int| 0 <= b < pv.len() && pv[b] == x;
            assert(pool@[b]@ == x);
            assert forall|i: int| 0 <= i < v.len() implies retention_le(#[trigger] v[i], x) by {
                assert(retention_le(out@[i]@, pool@[b]@));
                assert(v[i] == out@[i]@);
            }
        }
    }
    out
}

} // verus!

verus! {

/// Retention bound: once the chosen victims are deleted, at most `keep`
/// stamped artifacts remain of the listing, and every name kept is at least
/// as new as every name deleted — the retained set is the `keep` newest.
pub proof fn lemma_retention_bound(names: Seq<String>, keep: int, v: Seq<Seq<char>>)
    requires
        keep >= 0,
        valid_victims(names, keep, v),
    ensures
        stamped_names(names).len() - v.len() <= keep,
        forall|x: Seq<char>|
            stamped_names(names).to_multiset().count(x) > v.to_multiset().count(x) ==> forall|
                i: int,
            |
                0 <= i < v.len() ==> retention_le(#[trigger] v[i], x),
{
}

} // verus!
