//! Stable sorting by a ranking that the items bring with them.

use vstd::prelude::*;

verus! {

/// Items that can be ranked. `ranks_before` says that an item has to stand
/// in front of another; two items of which neither ranks before the other
/// keep the order in which they came.
pub trait Ranked: Sized {
    /// `self` has to stand in front of `other`.
    spec fn ranks_before(&self, other: &Self) -> bool;

    /// Whether `self` has to stand in front of `other`.
    fn before(&self, other: &Self) -> (r: bool)
        ensures
            r == self.ranks_before(other),
    ;
}

/// The least index at or after `from` of an item that `x` ranks before, or
/// the length.
pub open spec fn insert_point<T: Ranked>(s: Seq<T>, x: T, from: int) -> int
    decreases s.len() - from,
{
    if from < 0 || from >= s.len() {
        s.len() as int
    } else if x.ranks_before(&s[from]) {
        from
    } else {
        insert_point(s, x, from + 1)
    }
}

/// The items in the order of their ranks: each item, in turn, is put in
/// front of the first item that it ranks before.
pub open spec fn sorted<T: Ranked>(s: Seq<T>) -> Seq<T>
    decreases s.len(),
{
    if s.len() == 0 {
        Seq::empty()
    } else {
        let front = sorted(s.drop_last());
        front.insert(insert_point(front, s.last(), 0), s.last())
    }
}

/// No item stands behind one that it ranks before.
pub open spec fn in_order<T: Ranked>(s: Seq<T>) -> bool {
    forall|i: int, j: int| #![trigger s[i], s[j]] 0 <= i < j < s.len() ==> !s[j].ranks_before(&s[i])
}

/// Whether `x` is one of `s`.
pub open spec fn among<T>(s: Seq<T>, x: T) -> bool {
    exists|k: int| 0 <= k < s.len() && #[trigger] s[k] == x
}

/// Ranking is a strict order on the items of `s`: no two items rank before
/// each other, and an item that ranks before a second, which ranks before a
/// third, ranks before the third.
pub open spec fn consistent<T: Ranked>(s: Seq<T>) -> bool {
    &&& forall|a: T, b: T|
        #![trigger a.ranks_before(&b)]
        among(s, a) && among(s, b) && a.ranks_before(&b) ==> !b.ranks_before(&a)
    &&& forall|a: T, b: T, c: T|
        #![trigger a.ranks_before(&b), b.ranks_before(&c)]
        among(s, a) && among(s, b) && among(s, c) && a.ranks_before(&b) && b.ranks_before(&c)
            ==> a.ranks_before(&c)
}

pub proof fn lemma_insert_point<T: Ranked>(s: Seq<T>, x: T, from: int)
    requires
        0 <= from <= s.len(),
    ensures
        from <= insert_point(s, x, from) <= s.len(),
        insert_point(s, x, from) < s.len() ==> x.ranks_before(&s[insert_point(s, x, from)]),
        forall|i: int| from <= i < insert_point(s, x, from) ==> !x.ranks_before(&#[trigger] s[i]),
    decreases s.len() - from,
{
    if from < s.len() && !x.ranks_before(&s[from]) {
        lemma_insert_point(s, x, from + 1);
    }
}

pub proof fn lemma_insert_point_unique<T: Ranked>(s: Seq<T>, x: T, from: int, at: int)
    requires
        0 <= from <= at <= s.len(),
        at < s.len() ==> x.ranks_before(&s[at]),
        forall|i: int| from <= i < at ==> !x.ranks_before(&#[trigger] s[i]),
    ensures
        insert_point(s, x, from) == at,
    decreases at - from,
{
    if from < at {
        lemma_insert_point_unique(s, x, from + 1, at);
    }
}

/// Sorting keeps the items: the result has the same length, and an item is
/// in the result exactly when it was there before.
pub proof fn sorted_has_the_same_items<T: Ranked>(s: Seq<T>)
    ensures
        sorted(s).len() == s.len(),
        forall|x: T|
            #![trigger among(sorted(s), x)]
            #![trigger among(s, x)]
            among(sorted(s), x) <==> among(s, x),
    decreases s.len(),
{
    if s.len() > 0 {
        let front_in = s.drop_last();
        sorted_has_the_same_items(front_in);
        let front = sorted(front_in);
        let x = s.last();
        lemma_insert_point(front, x, 0);
        let p = insert_point(front, x, 0);
        let out = front.insert(p, x);
        assert forall|y: T| among(out, y) <==> among(s, y) by {
            if among(out, y) {
                let k = choose|k: int| 0 <= k < out.len() && out[k] == y;
                if k == p {
                    assert(s[s.len() - 1] == y);
                } else {
                    let k0 = if k < p { k } else { k - 1 };
                    assert(front[k0] == y);
                    assert(among(front, y));
                    let m = choose|m: int| 0 <= m < front_in.len() && front_in[m] == y;
                    assert(s[m] == y);
                }
            }
            if among(s, y) {
                let m = choose|m: int| 0 <= m < s.len() && s[m] == y;
                if m == s.len() - 1 {
                    assert(out[p] == y);
                } else {
                    assert(front_in[m] == y);
                    assert(among(front_in, y));
                    let k0 = choose|k0: int| 0 <= k0 < front.len() && front[k0] == y;
                    let k = if k0 < p { k0 } else { k0 + 1 };
                    assert(out[k] == y);
                }
            }
        }
    }
}

/// Where ranking is consistent, sorting puts the items in order.
pub proof fn sorted_is_in_order<T: Ranked>(s: Seq<T>)
    requires
        consistent(s),
    ensures
        in_order(sorted(s)),
    decreases s.len(),
{
    if s.len() > 0 {
        let front_in = s.drop_last();
        assert forall|a: T| among(front_in, a) implies among(s, a) by {
            let m = choose|m: int| 0 <= m < front_in.len() && front_in[m] == a;
            assert(s[m] == a);
        }
        assert(consistent(front_in));
        sorted_is_in_order(front_in);
        sorted_has_the_same_items(front_in);
        let front = sorted(front_in);
        let x = s.last();
        lemma_insert_point(front, x, 0);
        let p = insert_point(front, x, 0);
        let out = front.insert(p, x);
        assert(s[s.len() - 1] == x);
        assert(among(s, x));
        assert forall|k: int| 0 <= k < front.len() implies among(s, #[trigger] front[k]) by {
            assert(among(front, front[k]));
        }
        assert forall|i: int, j: int| #![trigger out[i], out[j]] 0 <= i < j < out.len() implies !out[j].ranks_before(
            &out[i],
        ) by {
            if j == p {
                assert(out[i] == front[i]);
            } else if i == p {
                assert(out[j] == front[j - 1]);
                assert(among(s, front[j - 1]));
                assert(among(s, front[p]));
                assert(x.ranks_before(&front[p]));
                if j - 1 > p {
                    assert(!front[j - 1].ranks_before(&front[p]));
                    if front[j - 1].ranks_before(&x) {
                        assert(front[j - 1].ranks_before(&front[p]));
                    }
                } else {
                    assert(!front[p].ranks_before(&x));
                }
            } else {
                let i0 = if i < p { i } else { i - 1 };
                let j0 = if j < p { j } else { j - 1 };
                assert(out[i] == front[i0]);
                assert(out[j] == front[j0]);
            }
        }
    }
}

/// Sorts the items by rank; items of equal rank keep their order.
pub fn sort_stable<T: Ranked>(items: Vec<T>) -> (r: Vec<T>)
    ensures
        r@ == sorted(items@),
        r@.len() == items@.len(),
{
    let mut v = items;
    let ghost all = v@;
    let mut k: usize = 0;
    proof {
        assert(all.take(0) =~= Seq::<T>::empty());
        assert(v@.skip(0) =~= all);
    }
    while k < v.len()
        invariant
            k <= v.len(),
            v@.len() == all.len(),
            v@.take(k as int) == sorted(all.take(k as int)),
            v@.skip(k as int) == all.skip(k as int),
        decreases v.len() - k,
    {
        let ghost before = v@;
        let ghost head = before.take(k as int);
        proof {
            let upto = all.take(k + 1);
            assert(upto.drop_last() =~= all.take(k as int));
            assert(upto.last() == all[k as int]);
            assert(before[k as int] == before.skip(k as int)[0]);
            assert(all[k as int] == all.skip(k as int)[0]);
        }
        let x = v.remove(k);
        let mut p: usize = 0;
        while p < k && !x.before(&v[p])
            invariant
                p <= k,
                k < before.len(),
                v@ == before.remove(k as int),
                head == before.take(k as int),
                forall|i: int| 0 <= i < p ==> !x.ranks_before(&#[trigger] head[i]),
            decreases k - p,
        {
            assert(head[p as int] == v@[p as int]);
            p += 1;
        }
        proof {
            if p < k {
                assert(head[p as int] == v@[p as int]);
            }
            lemma_insert_point_unique(head, x, 0, p as int);
        }
        v.insert(p, x);
        proof {
            assert(v@.take(k + 1) =~= head.insert(p as int, x));
            assert(v@.skip(k + 1) =~= all.skip(k + 1)) by {
                let a = v@.skip(k + 1);
                let b = all.skip(k + 1);
                assert forall|i: int| 0 <= i < all.len() - (k + 1) implies #[trigger] a[i]
                    == b[i] by {
                    assert(v@[k + 1 + i] == before[k + 1 + i]);
                    assert(before[k + 1 + i] == before.skip(k as int)[i + 1]);
                    assert(all[k + 1 + i] == all.skip(k as int)[i + 1]);
                }
            }
        }
        k += 1;
    }
    proof {
        assert(v@.take(v.len() as int) =~= v@);
        assert(all.take(all.len() as int) =~= all);
        sorted_has_the_same_items(all);
    }
    v
}

} // verus!
