use vstd::prelude::*;

verus! {

/// Items sorted by an unsigned key.
pub trait SortKey: Sized {
    spec fn sort_key_spec(&self) -> u64;

    fn sort_key(&self) -> (k: u64)
        ensures
            k == self.sort_key_spec(),
    ;
}

/// `e` inserted into `s` after every entry, counted from the back, whose key is
/// not greater than `e`'s: on a sorted `s`, after all entries keyed at or below `e`.
pub open spec fn insert_by_key<T: SortKey>(s: Seq<T>, e: T) -> Seq<T>
    decreases s.len(),
{
    if s.len() == 0 {
        seq![e]
    } else if s.last().sort_key_spec() <= e.sort_key_spec() {
        s.push(e)
    } else {
        insert_by_key(s.drop_last(), e).push(s.last())
    }
}

/// The stable sort of `s` by key: entries with equal keys keep their order.
pub open spec fn stable_sort_by_key<T: SortKey>(s: Seq<T>) -> Seq<T>
    decreases s.len(),
{
    if s.len() == 0 {
        s
    } else {
        insert_by_key(stable_sort_by_key(s.drop_last()), s.last())
    }
}

/// Items appear in non-decreasing key order.
pub open spec fn sorted_by_key<T: SortKey>(s: Seq<T>) -> bool {
    forall|i: int, j: int| 0 <= i <= j < s.len() ==> s[i].sort_key_spec() <= s[j].sort_key_spec()
}

/// Where `e` goes in `s`: the length of the longest prefix after which every entry is
/// stamped later than `e`.
pub open spec fn insertion_point<T: SortKey>(s: Seq<T>, e: T) -> int
    decreases s.len(),
{
    if s.len() == 0 {
        0
    } else if s.last().sort_key_spec() <= e.sort_key_spec() {
        s.len() as int
    } else {
        insertion_point(s.drop_last(), e)
    }
}

proof fn lemma_insertion_point<T: SortKey>(s: Seq<T>, e: T)
    ensures
        0 <= insertion_point(s, e) <= s.len(),
        insert_by_key(s, e) == s.take(insertion_point(s, e)).push(e) + s.skip(insertion_point(s, e)),
        forall|k: int| insertion_point(s, e) <= k < s.len() ==> (#[trigger] s[k]).sort_key_spec() > e.sort_key_spec(),
        insertion_point(s, e) > 0 ==> s[insertion_point(s, e) - 1].sort_key_spec() <= e.sort_key_spec(),
    decreases s.len(),
{
    if s.len() == 0 {
        assert(insert_by_key(s, e) =~= s.take(0).push(e) + s.skip(0));
    } else if s.last().sort_key_spec() <= e.sort_key_spec() {
        assert(insert_by_key(s, e) =~= s.take(s.len() as int).push(e) + s.skip(s.len() as int));
    } else {
        let t = s.drop_last();
        lemma_insertion_point(t, e);
        let p = insertion_point(t, e);
        assert(insert_by_key(s, e) =~= s.take(p).push(e) + s.skip(p));
        assert forall|k: int| p <= k < s.len() implies (#[trigger] s[k]).sort_key_spec() > e.sort_key_spec() by {
            if k < s.len() - 1 {
                assert(s[k] == t[k]);
            }
        }
        if p > 0 {
            assert(s[p - 1] == t[p - 1]);
        }
    }
}

/// Inserting into a sorted sequence keeps it sorted and adds exactly the entry.
pub proof fn lemma_insert_sorted<T: SortKey>(s: Seq<T>, e: T)
    requires
        sorted_by_key(s),
    ensures
        sorted_by_key(insert_by_key(s, e)),
        insert_by_key(s, e).to_multiset() == s.to_multiset().insert(e),
        insert_by_key(s, e).len() == s.len() + 1,
    decreases s.len(),
{
    if s.len() == 0 {
        assert(insert_by_key(s, e) =~= s.push(e));
        s.to_multiset_ensures();
    } else if s.last().sort_key_spec() <= e.sort_key_spec() {
        s.to_multiset_ensures();
    } else {
        let t = s.drop_last();
        assert(sorted_by_key(t));
        lemma_insert_sorted(t, e);
        let u = insert_by_key(t, e);
        lemma_insertion_point(t, e);
        let r = u.push(s.last());
        assert forall|i: int, j: int| 0 <= i <= j < r.len() implies r[i].sort_key_spec() <= r[j].sort_key_spec() by {
            if j == r.len() - 1 && i < j {
                let p = insertion_point(t, e);
                if i < p {
                    assert(r[i] == t[i]);
                    assert(t[i] == s[i]);
                } else if i == p {
                    assert(r[i] == e);
                } else {
                    assert(r[i] == t[i - 1]);
                    assert(t[i - 1] == s[i - 1]);
                }
            }
        }
        u.to_multiset_ensures();
        t.to_multiset_ensures();
        s.to_multiset_ensures();
        assert(s =~= t.push(s.last()));
        assert(r.to_multiset() =~= s.to_multiset().insert(e));
    }
}

/// The stable sort is sorted and holds exactly the entries it was given.
pub proof fn lemma_stable_sort<T: SortKey>(s: Seq<T>)
    ensures
        sorted_by_key(stable_sort_by_key(s)),
        stable_sort_by_key(s).to_multiset() == s.to_multiset(),
        stable_sort_by_key(s).len() == s.len(),
    decreases s.len(),
{
    if s.len() == 0 {
    } else {
        let t = s.drop_last();
        lemma_stable_sort(t);
        lemma_insert_sorted(stable_sort_by_key(t), s.last());
        t.to_multiset_ensures();
        assert(s =~= t.push(s.last()));
    }
}

/// Sorts by key, stably.
pub fn sort_by_key<T: SortKey>(v: Vec<T>) -> (r: Vec<T>)
    ensures
        r@ == stable_sort_by_key(v@),
{
    let mut r: Vec<T> = Vec::new();
    let mut src = v;
    let ghost orig = src@;
    // Take the items out back to front, then insert them front to back.
    let mut rev: Vec<T> = Vec::new();
    while src.len() > 0
        invariant
            src@.len() + rev@.len() == orig.len(),
            src@ == orig.take(src@.len() as int),
            forall|k: int| 0 <= k < rev@.len() ==> #[trigger] rev@[k] == orig[orig.len() - 1 - k],
        decreases src@.len(),
    {
        let e = src.pop().unwrap();
        rev.push(e);
    }
    proof {
        assert(r@ =~= stable_sort_by_key(orig.take(0)));
    }
    while rev.len() > 0
        invariant
            rev@.len() <= orig.len(),
            forall|k: int| 0 <= k < rev@.len() ==> #[trigger] rev@[k] == orig[orig.len() - 1 - k],
            r@ == stable_sort_by_key(orig.take(orig.len() - rev@.len())),
        decreases rev@.len(),
    {
        let ghost done_len = orig.len() - rev@.len();
        let e = rev.pop().unwrap();
        proof {
            assert(e == orig[done_len]);
            assert(orig.take(done_len + 1).drop_last() =~= orig.take(done_len));
            lemma_insertion_point(r@, e);
        }
        let ghost before = r@;
        let mut p: usize = r.len();
        while p > 0 && r[p - 1].sort_key() > e.sort_key()
            invariant
                p <= r@.len(),
                r@ == before,
                forall|k: int| p <= k < r@.len() ==> (#[trigger] r@[k]).sort_key_spec() > e.sort_key_spec(),
                insertion_point(r@, e) <= p,
            decreases p,
        {
            proof {
                lemma_insertion_point_bound(r@, e, p as int);
            }
            p = p - 1;
        }
        proof {
            lemma_insertion_point_exact(r@, e, p as int);
        }
        r.insert(p, e);
        proof {
            assert(r@ =~= before.take(p as int).push(e) + before.skip(p as int));
            assert(orig.take(done_len + 1).last() == e);
        }
    }
    proof {
        assert(orig.take(orig.len() as int) =~= orig);
    }
    r
}

proof fn lemma_insertion_point_bound<T: SortKey>(s: Seq<T>, e: T, p: int)
    requires
        0 < p <= s.len(),
        s[p - 1].sort_key_spec() > e.sort_key_spec(),
        forall|k: int| p <= k < s.len() ==> (#[trigger] s[k]).sort_key_spec() > e.sort_key_spec(),
    ensures
        insertion_point(s, e) <= p - 1,
    decreases s.len(),
{
    if s.last().sort_key_spec() <= e.sort_key_spec() {
        assert(false);
    } else {
        if p == s.len() {
            lemma_insertion_point(s.drop_last(), e);
        } else {
            lemma_insertion_point_bound(s.drop_last(), e, p);
        }
    }
}

proof fn lemma_insertion_point_exact<T: SortKey>(s: Seq<T>, e: T, p: int)
    requires
        0 <= p <= s.len(),
        p == 0 || s[p - 1].sort_key_spec() <= e.sort_key_spec(),
        forall|k: int| p <= k < s.len() ==> (#[trigger] s[k]).sort_key_spec() > e.sort_key_spec(),
        insertion_point(s, e) <= p,
    ensures
        insertion_point(s, e) == p,
{
    lemma_insertion_point(s, e);
    let q = insertion_point(s, e);
    if q < p {
        assert(s[p - 1].sort_key_spec() > e.sort_key_spec());
    }
}

} // verus!
