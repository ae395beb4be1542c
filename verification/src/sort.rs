//! A stable sort by an integer key.
//!
//! The result is specified as insertion sort defines it: items taken in
//! order, each placed after every earlier item whose key is not larger.
//! Lemmas show that the result is ordered by key and is a rearrangement of
//! the input.

use vstd::prelude::*;
use vstd::multiset::Multiset;

verus! {

broadcast use vstd::seq_lib::group_seq_properties;

/// An item that the stable sort orders by an integer key.
pub trait Keyed {
    /// The key by which the item is ordered.
    spec fn key_spec(&self) -> int;

    /// Computes the key.
    fn sort_key(&self) -> (k: i128)
        ensures
            k as int == self.key_spec(),
    ;
}

/// `s` with `x` placed after the last item whose key is at most that of
/// `x`, or at the front when there is none.
pub open spec fn insert_by<A>(s: Seq<A>, x: A, key: spec_fn(A) -> int) -> Seq<A>
    decreases s.len(),
{
    if s.len() == 0 {
        seq![x]
    } else if key(s.last()) <= key(x) {
        s.push(x)
    } else {
        insert_by(s.drop_last(), x, key).push(s.last())
    }
}

/// `s` sorted by `key`, items with equal keys keeping their order.
pub open spec fn stable_sorted_by<A>(s: Seq<A>, key: spec_fn(A) -> int) -> Seq<A>
    decreases s.len(),
{
    if s.len() == 0 {
        s
    } else {
        insert_by(stable_sorted_by(s.drop_last(), key), s.last(), key)
    }
}

/// The keys of `s` never decrease.
pub open spec fn ascending_by<A>(s: Seq<A>, key: spec_fn(A) -> int) -> bool {
    forall|i: int, j: int| 0 <= i <= j < s.len() ==> key(s[i]) <= key(s[j])
}

/// `insert_by` places `x` at `j` when every item from `j` on has a larger
/// key and the item before `j`, if any, does not.
pub proof fn lemma_insert_at<A>(s: Seq<A>, x: A, key: spec_fn(A) -> int, j: int)
    requires
        0 <= j <= s.len(),
        forall|k: int| j <= k < s.len() ==> key(#[trigger] s[k]) > key(x),
        j == 0 || key(s[j - 1]) <= key(x),
    ensures
        insert_by(s, x, key) == s.subrange(0, j).push(x) + s.subrange(j, s.len() as int),
    decreases s.len(),
{
    if s.len() == 0 {
        assert(s.subrange(0, j).push(x) + s.subrange(j, s.len() as int) =~= seq![x]);
    } else if j == s.len() {
        assert(s.subrange(0, j) =~= s);
        assert(s.subrange(0, j).push(x) + s.subrange(j, s.len() as int) =~= s.push(x));
    } else {
        let t = s.drop_last();
        assert(key(s[s.len() - 1]) > key(x));
        assert forall|k: int| j <= k < t.len() implies key(#[trigger] t[k]) > key(x) by {
            assert(t[k] == s[k]);
        }
        if j > 0 {
            assert(t[j - 1] == s[j - 1]);
        }
        lemma_insert_at(t, x, key, j);
        assert(t.subrange(0, j) =~= s.subrange(0, j));
        assert(t.subrange(0, j).push(x) + t.subrange(j, t.len() as int) + seq![s.last()]
            =~= s.subrange(0, j).push(x) + s.subrange(j, s.len() as int));
    }
}

/// Inserting into an ascending sequence gives an ascending sequence with
/// one more item, and the same items plus `x`.
pub proof fn lemma_insert_by_props<A>(s: Seq<A>, x: A, key: spec_fn(A) -> int)
    requires
        ascending_by(s, key),
    ensures
        ascending_by(insert_by(s, x, key), key),
        insert_by(s, x, key).len() == s.len() + 1,
        insert_by(s, x, key).to_multiset() == s.to_multiset().insert(x),
    decreases s.len(),
{
    broadcast use vstd::multiset::group_multiset_axioms, vstd::seq_lib::group_to_multiset_ensures;
    if s.len() == 0 {
        assert(seq![x] =~= Seq::<A>::empty().push(x));
    } else if key(s.last()) <= key(x) {
    } else {
        let t = s.drop_last();
        assert(ascending_by(t, key)) by {
            assert forall|i: int, j: int| 0 <= i <= j < t.len() implies key(t[i]) <= key(t[j]) by {
                assert(t[i] == s[i] && t[j] == s[j]);
            }
        }
        lemma_insert_by_props(t, x, key);
        let r = insert_by(t, x, key);
        assert(r.push(s.last()) == insert_by(s, x, key));
        // every item of r is an item of t or x, all with keys at most that of s.last()
        assert forall|i: int| 0 <= i < r.len() implies key(#[trigger] r[i]) <= key(s.last()) by {
            assert(r.to_multiset().count(r[i]) > 0);
            if r[i] != x {
                assert(t.to_multiset().count(r[i]) > 0);
                assert(t.contains(r[i]));
                let k = choose|k: int| 0 <= k < t.len() && t[k] == r[i];
                assert(s[k] == t[k]);
            }
        }
        assert(ascending_by(r.push(s.last()), key)) by {
            assert forall|i: int, j: int|
                0 <= i <= j < r.push(s.last()).len() implies key(r.push(s.last())[i]) <= key(
                r.push(s.last())[j],
            ) by {
                if j < r.len() {
                    assert(r.push(s.last())[i] == r[i]);
                    assert(r.push(s.last())[j] == r[j]);
                } else if i < r.len() {
                    assert(r.push(s.last())[i] == r[i]);
                }
            }
        }
        assert(t.push(s.last()) =~= s);
    }
}

/// The stable sort orders by key, keeps the length and rearranges the items.
pub proof fn lemma_stable_sorted_props<A>(s: Seq<A>, key: spec_fn(A) -> int)
    ensures
        ascending_by(stable_sorted_by(s, key), key),
        stable_sorted_by(s, key).len() == s.len(),
        stable_sorted_by(s, key).to_multiset() == s.to_multiset(),
    decreases s.len(),
{
    broadcast use vstd::multiset::group_multiset_axioms, vstd::seq_lib::group_to_multiset_ensures;
    if s.len() == 0 {
        assert(s.to_multiset() =~= Multiset::empty());
    } else {
        let t = s.drop_last();
        lemma_stable_sorted_props(t, key);
        lemma_insert_by_props(stable_sorted_by(t, key), s.last(), key);
        assert(t.push(s.last()) =~= s);
    }
}

/// Inserting commutes with a map that keeps keys.
pub proof fn lemma_insert_by_map<A, B>(
    s: Seq<A>,
    x: A,
    f: spec_fn(A) -> B,
    ka: spec_fn(A) -> int,
    kb: spec_fn(B) -> int,
)
    requires
        forall|a: A| #[trigger] kb(f(a)) == ka(a),
    ensures
        insert_by(s, x, ka).map_values(f) == insert_by(s.map_values(f), f(x), kb),
    decreases s.len(),
{
    if s.len() == 0 {
        assert(seq![x].map_values(f) =~= seq![f(x)]);
    } else {
        assert(s.map_values(f).last() == f(s.last()));
        assert(kb(f(s.last())) == ka(s.last()));
        assert(kb(f(x)) == ka(x));
        if ka(s.last()) <= ka(x) {
            assert(s.push(x).map_values(f) =~= s.map_values(f).push(f(x)));
        } else {
            lemma_insert_by_map(s.drop_last(), x, f, ka, kb);
            assert(s.drop_last().map_values(f) =~= s.map_values(f).drop_last());
            let r = insert_by(s.drop_last(), x, ka);
            assert(r.push(s.last()).map_values(f) =~= r.map_values(f).push(f(s.last())));
        }
    }
}

/// The stable sort commutes with a map that keeps keys.
pub proof fn lemma_stable_sorted_map<A, B>(
    s: Seq<A>,
    f: spec_fn(A) -> B,
    ka: spec_fn(A) -> int,
    kb: spec_fn(B) -> int,
)
    requires
        forall|a: A| #[trigger] kb(f(a)) == ka(a),
    ensures
        stable_sorted_by(s, ka).map_values(f) == stable_sorted_by(s.map_values(f), kb),
    decreases s.len(),
{
    if s.len() == 0 {
        assert(s.map_values(f) =~= Seq::<B>::empty());
        assert(s.map_values(f).len() == 0);
    } else {
        lemma_stable_sorted_map(s.drop_last(), f, ka, kb);
        assert(s.drop_last().map_values(f) =~= s.map_values(f).drop_last());
        lemma_insert_by_map(stable_sorted_by(s.drop_last(), ka), s.last(), f, ka, kb);
    }
}

/// Sorts `v` by key; items with equal keys keep their order.
pub fn sort_stable<T: Keyed>(v: &mut Vec<T>)
    ensures
        final(v)@ == stable_sorted_by(old(v)@, |t: T| t.key_spec()),
{
    let ghost key = |t: T| t.key_spec();
    let ghost orig = v@;
    let n = v.len();
    let mut i: usize = 0;
    while i < n
        invariant
            i <= n,
            n == orig.len(),
            v@.len() == n,
            orig == old(v)@,
            key == (|t: T| t.key_spec()),
            v@.subrange(0, i as int) == stable_sorted_by(orig.subrange(0, i as int), key),
            v@.subrange(i as int, n as int) == orig.subrange(i as int, n as int),
        decreases n - i,
    {
        let ghost prefix = v@.subrange(0, i as int);
        let ghost rest = v@.subrange(i as int + 1, n as int);
        assert(v@[i as int] == orig[i as int]) by {
            assert(v@.subrange(i as int, n as int)[0] == orig.subrange(i as int, n as int)[0]);
        }
        assert(rest =~= orig.subrange(i as int + 1, n as int)) by {
            assert forall|k: int| 0 <= k < rest.len() implies rest[k] == orig.subrange(
                i as int + 1,
                n as int,
            )[k] by {
                assert(v@.subrange(i as int, n as int)[k + 1] == orig.subrange(i as int, n as int)[k
                    + 1]);
            }
        }
        let x = v.remove(i);
        assert(v@ =~= prefix + rest);
        let kx = x.sort_key();
        let mut j: usize = i;
        loop
            invariant
                j <= i,
                i < n,
                v@ == prefix + rest,
                prefix.len() == i,
                kx as int == key(x),
                key == (|t: T| t.key_spec()),
                forall|k: int| j <= k < i ==> key(#[trigger] prefix[k]) > key(x),
            ensures
                j <= i,
                v@ == prefix + rest,
                forall|k: int| j <= k < i ==> key(#[trigger] prefix[k]) > key(x),
                j == 0 || key(prefix[j - 1]) <= key(x),
            decreases j,
        {
            if j == 0 {
                break;
            }
            let kp = v[j - 1].sort_key();
            assert(v@[j - 1] == prefix[j - 1]);
            if kp <= kx {
                break;
            }
            j = j - 1;
        }
        v.insert(j, x);
        proof {
            lemma_insert_at(prefix, x, key, j as int);
            let sub = orig.subrange(0, i as int + 1);
            assert(sub.drop_last() =~= orig.subrange(0, i as int));
            assert(sub.last() == x);
            assert(v@ =~= insert_by(prefix, x, key) + rest);
            assert(v@.subrange(0, i as int + 1) =~= insert_by(prefix, x, key));
            assert(v@.subrange(i as int + 1, n as int) =~= rest);
        }
        i = i + 1;
    }
    proof {
        assert(orig.subrange(0, n as int) =~= orig);
        assert(v@.subrange(0, n as int) =~= v@);
    }
}

} // verus!
