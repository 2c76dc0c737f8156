//! Stable sorting of policy entries by sequence number (`sort_by_key`).

use vstd::prelude::*;

verus! {

/// Position after the last element of the sorted `t` whose key is at most
/// `key`.
pub open spec fn upper<A>(t: Seq<A>, key: u32, k: spec_fn(A) -> u32) -> int
    decreases t.len(),
{
    if t.len() == 0 {
        0
    } else if k(t.last()) <= key {
        t.len() as int
    } else {
        upper(t.drop_last(), key, k)
    }
}

pub open spec fn insert_sorted<A>(t: Seq<A>, x: A, k: spec_fn(A) -> u32) -> Seq<A> {
    let p = upper(t, k(x), k);
    t.take(p) + seq![x] + t.skip(p)
}

/// The stable sort by key: elements in key order, equal keys in the order
/// they had.
pub open spec fn sort_by_seq<A>(s: Seq<A>, k: spec_fn(A) -> u32) -> Seq<A>
    decreases s.len(),
{
    if s.len() == 0 {
        seq![]
    } else {
        insert_sorted(sort_by_seq(s.drop_last(), k), s.last(), k)
    }
}

pub proof fn lemma_upper_bounds<A>(t: Seq<A>, key: u32, k: spec_fn(A) -> u32)
    ensures
        0 <= upper(t, key, k) <= t.len(),
    decreases t.len(),
{
    if t.len() > 0 && k(t.last()) > key {
        lemma_upper_bounds(t.drop_last(), key, k);
    }
}

proof fn lemma_upper_map<A, B>(
    t: Seq<A>,
    key: u32,
    ka: spec_fn(A) -> u32,
    f: spec_fn(A) -> B,
    kb: spec_fn(B) -> u32,
)
    requires
        forall|a: A| #[trigger] kb(f(a)) == ka(a),
    ensures
        upper(t.map_values(f), key, kb) == upper(t, key, ka),
    decreases t.len(),
{
    if t.len() > 0 {
        assert(t.map_values(f).drop_last() =~= t.drop_last().map_values(f));
        assert(t.map_values(f).last() == f(t.last()));
        lemma_upper_map(t.drop_last(), key, ka, f, kb);
    }
}

/// Sorting commutes with a map that keeps the keys.
pub proof fn lemma_sort_map<A, B>(
    s: Seq<A>,
    ka: spec_fn(A) -> u32,
    f: spec_fn(A) -> B,
    kb: spec_fn(B) -> u32,
)
    requires
        forall|a: A| #[trigger] kb(f(a)) == ka(a),
    ensures
        sort_by_seq(s.map_values(f), kb) == sort_by_seq(s, ka).map_values(f),
        sort_by_seq(s, ka).len() == s.len(),
    decreases s.len(),
{
    if s.len() > 0 {
        let t = sort_by_seq(s.drop_last(), ka);
        assert(s.map_values(f).drop_last() =~= s.drop_last().map_values(f));
        lemma_sort_map(s.drop_last(), ka, f, kb);
        let x = s.last();
        assert(s.map_values(f).last() == f(x));
        lemma_upper_map(t, ka(x), ka, f, kb);
        lemma_upper_bounds(t, ka(x), ka);
        let p = upper(t, ka(x), ka);
        assert((t.take(p) + seq![x] + t.skip(p)).map_values(f) =~= t.map_values(f).take(p) + seq![
            f(x),
        ] + t.map_values(f).skip(p));
    } else {
        assert(s.map_values(f) =~= Seq::<B>::empty());
    }
}

/// An entry ordered by a sequence number.
pub trait Sequenced: Sized {
    spec fn seq_key(&self) -> u32;

    fn seq_number(&self) -> (r: u32)
        ensures
            r == self.seq_key(),
    ;
}

pub open spec fn key_of<E: Sequenced>() -> spec_fn(E) -> u32 {
    |e: E| e.seq_key()
}

/// `sort_by_key` on the sequence number.
pub fn sort_entries<E: Sequenced>(v: &mut Vec<E>)
    ensures
        final(v)@ == sort_by_seq(old(v)@, key_of::<E>()),
{
    let ghost orig = v@;
    let mut out: Vec<E> = Vec::new();
    let mut rest: Vec<E> = Vec::new();
    std::mem::swap(v, &mut rest);
    let n = rest.len();
    let mut i: usize = 0;
    while rest.len() > 0
        invariant
            i + rest.len() == n,
            n == orig.len(),
            rest@ == orig.skip(i as int),
            out@ == sort_by_seq(orig.take(i as int), key_of::<E>()),
        decreases rest.len(),
    {
        let x = rest.remove(0);
        let key = x.seq_number();
        let mut p: usize = out.len();
        proof {
            lemma_upper_bounds(out@, key, key_of::<E>());
            assert(out@.take(p as int) =~= out@);
        }
        while p > 0 && out[p - 1].seq_number() > key
            invariant
                p <= out.len(),
                upper(out@, key, key_of::<E>()) == upper(out@.take(p as int), key, key_of::<E>()),
            decreases p,
        {
            proof {
                assert(out@.take(p as int).drop_last() =~= out@.take(p - 1));
            }
            p = p - 1;
        }
        proof {
            assert(out@.take(out.len() as int) =~= out@);
            if p > 0 {
                assert(out@.take(p as int).last() == out@[p - 1]);
            }
            assert(upper(out@, key, key_of::<E>()) == p);
            assert(orig.take(i + 1).drop_last() =~= orig.take(i as int));
            assert(orig.take(i + 1).last() == x);
            assert(rest@ =~= orig.skip(i + 1));
        }
        let ghost before = out@;
        out.insert(p, x);
        proof {
            assert(out@ =~= before.take(p as int) + seq![x] + before.skip(p as int));
        }
        i = i + 1;
    }
    proof {
        assert(orig.take(n as int) =~= orig);
    }
    std::mem::swap(v, &mut out);
}

/// The keys never fall from one element to a later one.
pub open spec fn sorted_by<A>(s: Seq<A>, k: spec_fn(A) -> u32) -> bool {
    forall|i: int, j: int| 0 <= i <= j < s.len() ==> k(#[trigger] s[i]) <= k(#[trigger] s[j])
}

/// In a sorted list, the keys before `upper` are at most `key` and those
/// from it on are greater.
proof fn lemma_upper_split<A>(t: Seq<A>, key: u32, k: spec_fn(A) -> u32)
    requires
        sorted_by(t, k),
    ensures
        0 <= upper(t, key, k) <= t.len(),
        forall|i: int| 0 <= i < upper(t, key, k) ==> k(#[trigger] t[i]) <= key,
        forall|i: int| upper(t, key, k) <= i < t.len() ==> k(#[trigger] t[i]) > key,
    decreases t.len(),
{
    lemma_upper_bounds(t, key, k);
    if t.len() > 0 {
        let n = t.len() - 1;
        if k(t.last()) <= key {
            assert forall|i: int| 0 <= i < upper(t, key, k) implies k(#[trigger] t[i]) <= key by {
                assert(k(t[i]) <= k(t[n]));
            }
        } else {
            let d = t.drop_last();
            assert(sorted_by(d, k)) by {
                assert forall|i: int, j: int| 0 <= i <= j < d.len() implies k(#[trigger] d[i]) <= k(
                    #[trigger] d[j],
                ) by {
                    assert(d[i] == t[i] && d[j] == t[j]);
                }
            }
            lemma_upper_split(d, key, k);
            assert forall|i: int| 0 <= i < upper(t, key, k) implies k(#[trigger] t[i]) <= key by {
                assert(d[i] == t[i]);
            }
            assert forall|i: int| upper(t, key, k) <= i < t.len() implies k(#[trigger] t[i]) > key by {
                if i < n {
                    assert(d[i] == t[i]);
                }
            }
        }
    }
}

/// Sorting by number puts the entries in order of their numbers, keeps
/// exactly the entries it was given, and leaves a list that is already in
/// order as it is, so entries with equal numbers keep their order.
pub proof fn law_sort_by_seq<A>(s: Seq<A>, k: spec_fn(A) -> u32)
    ensures
        sorted_by(sort_by_seq(s, k), k),
        sort_by_seq(s, k).to_multiset() == s.to_multiset(),
        sorted_by(s, k) ==> sort_by_seq(s, k) == s,
    decreases s.len(),
{
    broadcast use vstd::seq_lib::to_multiset_insert;
    broadcast use vstd::seq_lib::group_to_multiset_ensures;

    if s.len() == 0 {
        assert(s =~= Seq::<A>::empty());
    } else {
        let d = s.drop_last();
        let x = s.last();
        law_sort_by_seq(d, k);
        let t = sort_by_seq(d, k);
        lemma_upper_split(t, k(x), k);
        let p = upper(t, k(x), k);
        let r = insert_sorted(t, x, k);
        assert(r =~= t.insert(p, x));
        assert(r.len() == t.len() + 1);
        assert forall|i: int, j: int| 0 <= i <= j < r.len() implies k(#[trigger] r[i]) <= k(
            #[trigger] r[j],
        ) by {
            if i < p {
                assert(r[i] == t[i]);
            } else if i > p {
                assert(r[i] == t[i - 1]);
            }
            if j < p {
                assert(r[j] == t[j]);
            } else if j > p {
                assert(r[j] == t[j - 1]);
            }
        }
        assert(s =~= d.push(x));
        assert(r.to_multiset() == t.to_multiset().insert(x));
        if sorted_by(s, k) {
            assert(sorted_by(d, k)) by {
                assert forall|i: int, j: int| 0 <= i <= j < d.len() implies k(#[trigger] d[i]) <= k(
                    #[trigger] d[j],
                ) by {
                    assert(d[i] == s[i] && d[j] == s[j]);
                }
            }
            assert(t == d);
            if d.len() > 0 {
                assert(k(d.last()) <= k(x)) by {
                    assert(d.last() == s[d.len() - 1]);
                    assert(x == s[s.len() - 1]);
                }
            }
            assert(p == d.len());
            assert(r =~= s);
        }
    }
}

} // verus!
