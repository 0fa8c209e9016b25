//! Stable sort by a descending integer key (what `sort_by_key(Reverse(..))` and
//! `sort_by(|a, b| b.cmp(a))` do on a key), specified as insertion into a sorted prefix.
use vstd::prelude::*;
use vstd::multiset::Multiset;

verus! {

/// `x` inserted after every leading element whose key is at least `x`'s key.
pub open spec fn insert_desc<T>(x: (i128, T), s: Seq<(i128, T)>) -> Seq<(i128, T)>
    decreases s.len(),
{
    if s.len() == 0 {
        seq![x]
    } else if s[0].0 >= x.0 {
        seq![s[0]] + insert_desc(x, s.skip(1))
    } else {
        seq![x] + s
    }
}

/// Elements of `s` ordered by non-increasing key; elements with equal keys keep their order.
pub open spec fn sort_desc<T>(s: Seq<(i128, T)>) -> Seq<(i128, T)>
    decreases s.len(),
{
    if s.len() == 0 {
        s
    } else {
        insert_desc(s.last(), sort_desc(s.drop_last()))
    }
}

/// Keys never increase from left to right.
pub open spec fn is_desc<T>(s: Seq<(i128, T)>) -> bool {
    forall|i: int, j: int| 0 <= i < j < s.len() ==> s[i].0 >= s[j].0
}

proof fn lemma_insert_at<T>(x: (i128, T), s: Seq<(i128, T)>, p: int)
    requires
        0 <= p <= s.len(),
        forall|k: int| 0 <= k < p ==> s[k].0 >= x.0,
        p < s.len() ==> s[p].0 < x.0,
    ensures
        insert_desc(x, s) == s.insert(p, x),
    decreases s.len(),
{
    if s.len() == 0 {
        assert(s.insert(p, x) =~= seq![x]);
    } else if s[0].0 >= x.0 {
        assert(p > 0);
        lemma_insert_at(x, s.skip(1), p - 1);
        assert(seq![s[0]] + s.skip(1).insert(p - 1, x) =~= s.insert(p, x));
    } else {
        assert(p == 0);
        assert(seq![x] + s =~= s.insert(0, x));
    }
}

proof fn lemma_insert_len_multiset<T>(x: (i128, T), s: Seq<(i128, T)>)
    ensures
        insert_desc(x, s).len() == s.len() + 1,
        insert_desc(x, s).to_multiset() == s.to_multiset().insert(x),
    decreases s.len(),
{
    broadcast use vstd::seq_lib::group_to_multiset_ensures;
    if s.len() == 0 {
        assert(seq![x] =~= Seq::<(i128, T)>::empty().push(x));
    } else if s[0].0 >= x.0 {
        lemma_insert_len_multiset(x, s.skip(1));
        let t = insert_desc(x, s.skip(1));
        assert(s =~= seq![s[0]] + s.skip(1));
        vstd::seq_lib::lemma_multiset_commutative(seq![s[0]], t);
        vstd::seq_lib::lemma_multiset_commutative(seq![s[0]], s.skip(1));
        assert(seq![s[0]] =~= Seq::<(i128, T)>::empty().push(s[0]));
    } else {
        vstd::seq_lib::lemma_multiset_commutative(seq![x], s);
        assert(seq![x] =~= Seq::<(i128, T)>::empty().push(x));
    }
}

proof fn lemma_insert_desc_sorted<T>(x: (i128, T), s: Seq<(i128, T)>)
    requires
        is_desc(s),
    ensures
        is_desc(insert_desc(x, s)),
        insert_desc(x, s).len() == s.len() + 1,
        forall|k: int|
            0 <= k < insert_desc(x, s).len() ==> #[trigger] insert_desc(x, s)[k] == x || exists|
                m: int,
            |
                0 <= m < s.len() && insert_desc(x, s)[k] == s[m],
    decreases s.len(),
{
    lemma_insert_len_multiset(x, s);
    if s.len() == 0 {
    } else if s[0].0 >= x.0 {
        let r = s.skip(1);
        assert forall|i: int, j: int| 0 <= i < j < r.len() implies r[i].0 >= r[j].0 by {
            assert(r[i] == s[i + 1] && r[j] == s[j + 1]);
        }
        lemma_insert_desc_sorted(x, r);
        let t = insert_desc(x, r);
        let u = seq![s[0]] + t;
        assert forall|k: int| 0 <= k < u.len() implies #[trigger] u[k] == x || exists|m: int|
            0 <= m < s.len() && u[k] == s[m] by {
            if k == 0 {
                assert(u[k] == s[0]);
            } else {
                assert(u[k] == t[k - 1]);
                if t[k - 1] != x {
                    let m = choose|m: int| 0 <= m < r.len() && t[k - 1] == r[m];
                    assert(u[k] == s[m + 1]);
                }
            }
        }
        assert forall|i: int, j: int| 0 <= i < j < u.len() implies u[i].0 >= u[j].0 by {
            if i == 0 {
                assert(u[j] == t[j - 1]);
                if t[j - 1] != x {
                    let m = choose|m: int| 0 <= m < r.len() && t[j - 1] == r[m];
                    assert(s[0].0 >= s[m + 1].0);
                }
            } else {
                assert(u[i] == t[i - 1] && u[j] == t[j - 1]);
            }
        }
    } else {
        let u = seq![x] + s;
        assert forall|k: int| 0 <= k < u.len() implies #[trigger] u[k] == x || exists|m: int|
            0 <= m < s.len() && u[k] == s[m] by {
            if k > 0 {
                assert(u[k] == s[k - 1]);
            }
        }
        assert forall|i: int, j: int| 0 <= i < j < u.len() implies u[i].0 >= u[j].0 by {
            if i == 0 {
                assert(u[j] == s[j - 1]);
                assert(s[0].0 >= s[j - 1].0 || j - 1 == 0);
            } else {
                assert(u[i] == s[i - 1] && u[j] == s[j - 1]);
            }
        }
    }
}

/// Sorting orders keys from largest to smallest.
pub proof fn lemma_sort_desc_sorted<T>(s: Seq<(i128, T)>)
    ensures
        is_desc(sort_desc(s)),
        sort_desc(s).len() == s.len(),
    decreases s.len(),
{
    if s.len() > 0 {
        lemma_sort_desc_sorted(s.drop_last());
        lemma_insert_desc_sorted(s.last(), sort_desc(s.drop_last()));
    }
}

/// Sorting neither adds nor drops elements.
pub proof fn lemma_sort_desc_permutation<T>(s: Seq<(i128, T)>)
    ensures
        sort_desc(s).to_multiset() == s.to_multiset(),
    decreases s.len(),
{
    broadcast use vstd::seq_lib::group_to_multiset_ensures;
    if s.len() > 0 {
        lemma_sort_desc_permutation(s.drop_last());
        lemma_insert_len_multiset(s.last(), sort_desc(s.drop_last()));
        assert(s =~= s.drop_last().push(s.last()));
    }
}

/// Stable sort of `v` by descending key.
pub fn stable_sort_desc<T>(v: Vec<(i128, T)>) -> (r: Vec<(i128, T)>)
    ensures
        r@ == sort_desc(v@),
{
    let ghost orig = v@;
    let mut rest = v;
    let mut out: Vec<(i128, T)> = Vec::new();
    let mut k: usize = 0;
    let n = rest.len();
    assert(orig.take(0) =~= Seq::<(i128, T)>::empty());
    assert(orig.skip(0) =~= orig);
    while rest.len() > 0
        invariant
            n == orig.len(),
            k <= n,
            rest@ == orig.skip(k as int),
            out@ == sort_desc(orig.take(k as int)),
            out@.len() == k,
        decreases rest@.len(),
    {
        let x = rest.remove(0);
        let mut p: usize = 0;
        while p < out.len() && out[p].0 >= x.0
            invariant
                p <= out@.len(),
                forall|m: int| 0 <= m < p ==> out@[m].0 >= x.0,
            decreases out@.len() - p,
        {
            p = p + 1;
        }
        proof {
            lemma_insert_at(x, out@, p as int);
            assert(orig.take(k + 1).drop_last() =~= orig.take(k as int));
            assert(orig.take(k + 1).last() == orig[k as int]);
            assert(orig.skip(k as int)[0] == orig[k as int]);
            assert(orig.skip(k as int).remove(0) =~= orig.skip(k + 1));
            lemma_sort_desc_sorted(orig.take(k as int));
        }
        out.insert(p, x);
        k = k + 1;
    }
    assert(orig.take(n as int) =~= orig);
    out
}

/// Every element of the sorted sequence comes from the input.
pub proof fn lemma_sort_desc_members<T>(s: Seq<(i128, T)>)
    ensures
        sort_desc(s).len() == s.len(),
        forall|i: int| 0 <= i < sort_desc(s).len() ==> s.contains(#[trigger] sort_desc(s)[i]),
{
    broadcast use vstd::seq_lib::group_to_multiset_ensures;
    lemma_sort_desc_permutation(s);
    lemma_sort_desc_sorted(s);
    assert forall|i: int| 0 <= i < sort_desc(s).len() implies s.contains(#[trigger] sort_desc(s)[i]) by {
        assert(sort_desc(s).contains(sort_desc(s)[i]));
        assert(sort_desc(s).to_multiset().count(sort_desc(s)[i]) > 0);
    }
}


/// Of two elements with different keys, the one with the larger key comes first after
/// sorting.
pub proof fn lemma_sort_desc_larger_key_first<T>(s: Seq<(i128, T)>, a: int, b: int)
    requires
        0 <= a < s.len(),
        0 <= b < s.len(),
        s[a].0 > s[b].0,
    ensures
        exists|p: int, q: int|
            0 <= p < q < sort_desc(s).len() && #[trigger] sort_desc(s)[p] == s[a] && #[trigger] sort_desc(
                s,
            )[q] == s[b],
{
    broadcast use vstd::seq_lib::group_to_multiset_ensures;
    lemma_sort_desc_permutation(s);
    lemma_sort_desc_sorted(s);
    let t = sort_desc(s);
    assert(s.contains(s[a]));
    assert(s.contains(s[b]));
    assert(t.to_multiset().count(s[a]) > 0);
    assert(t.to_multiset().count(s[b]) > 0);
    assert(t.contains(s[a]));
    assert(t.contains(s[b]));
    let p = choose|p: int| 0 <= p < t.len() && t[p] == s[a];
    let q = choose|q: int| 0 <= q < t.len() && t[q] == s[b];
    if q <= p {
        assert(p != q);
        assert(t[q].0 >= t[p].0);
        assert(false);
    }
    assert(0 <= p < q < t.len() && t[p] == s[a] && t[q] == s[b]);
}

} // verus!
