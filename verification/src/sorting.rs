//! A stable sort.

use vstd::prelude::*;

verus! {

/// Values with a strict weak order.
pub trait Ranked: Sized + Copy {
    /// Whether `self` sorts strictly before `other`.
    spec fn before(self, other: Self) -> bool;

    /// No two values sort before each other.
    proof fn asymmetric(a: Self, b: Self)
        requires
            a.before(b),
        ensures
            !b.before(a),
    ;

    /// Not sorting before carries over.
    proof fn not_before_carries(a: Self, b: Self, c: Self)
        requires
            !a.before(b),
            !b.before(c),
        ensures
            !a.before(c),
    ;

    /// Whether `self` sorts strictly before `other`.
    fn comes_before(&self, other: &Self) -> (result: bool)
        ensures
            result == self.before(*other),
    ;
}

/// `x` put into a sorted sequence, behind everything that does not sort after it.
pub open spec fn inserted<T: Ranked>(s: Seq<T>, x: T) -> Seq<T>
    decreases s.len(),
{
    if s.len() > 0 && x.before(s.last()) {
        inserted(s.drop_last(), x).push(s.last())
    } else {
        s.push(x)
    }
}

/// The sequence sorted; equal values keep their order.
pub open spec fn sorted<T: Ranked>(s: Seq<T>) -> Seq<T>
    decreases s.len(),
{
    if s.len() == 0 {
        s
    } else {
        inserted(sorted(s.drop_last()), s.last())
    }
}

/// No later value sorts before an earlier one.
pub open spec fn in_order<T: Ranked>(s: Seq<T>) -> bool {
    forall|i: int, j: int| 0 <= i < j < s.len() ==> !(#[trigger] s[j]).before(#[trigger] s[i])
}

proof fn lemma_inserted<T: Ranked>(s: Seq<T>, x: T)
    requires
        in_order(s),
    ensures
        in_order(inserted(s, x)),
        inserted(s, x).to_multiset() =~= s.to_multiset().insert(x),
        inserted(s, x).len() == s.len() + 1,
        forall|k: int|
            0 <= k < inserted(s, x).len() ==> (#[trigger] inserted(s, x)[k]) == x || s.contains(
                inserted(s, x)[k],
            ),
    decreases s.len(),
{
    broadcast use vstd::seq_lib::group_to_multiset_ensures;

    if s.len() > 0 && x.before(s.last()) {
        let shorter = s.drop_last();
        let last = s.last();
        assert(in_order(shorter));
        lemma_inserted(shorter, x);
        let front = inserted(shorter, x);
        let all = front.push(last);
        assert(shorter.push(last) =~= s);
        assert forall|i: int, j: int| 0 <= i < j < all.len() implies !(#[trigger] all[j]).before(
            #[trigger] all[i],
        ) by {
            if j == all.len() - 1 {
                assert(all[i] == front[i]);
                if front[i] == x {
                    T::asymmetric(x, last);
                } else {
                    let k = choose|k: int| 0 <= k < shorter.len() && shorter[k] == front[i];
                    assert(s[k] == front[i]);
                    assert(!s[s.len() - 1].before(s[k]));
                }
            } else {
                assert(all[i] == front[i] && all[j] == front[j]);
            }
        }
        assert forall|k: int| 0 <= k < all.len() implies (#[trigger] all[k]) == x || s.contains(
            all[k],
        ) by {
            if k < front.len() && front[k] != x {
                let m = choose|m: int| 0 <= m < shorter.len() && shorter[m] == front[k];
                assert(s[m] == front[k]);
            } else if k == front.len() {
                assert(s[s.len() - 1] == last);
            }
        }
    } else {
        let all = s.push(x);
        assert forall|i: int, j: int| 0 <= i < j < all.len() implies !(#[trigger] all[j]).before(
            #[trigger] all[i],
        ) by {
            if j == s.len() {
                if i < s.len() - 1 {
                    T::not_before_carries(x, s.last(), s[i]);
                }
            }
        }
        assert forall|k: int| 0 <= k < all.len() implies (#[trigger] all[k]) == x || s.contains(
            all[k],
        ) by {
            if k < s.len() {
                assert(s[k] == all[k]);
            }
        }
    }
}

/// Sorting puts the values in order and neither loses nor adds one.
pub proof fn law_sorted<T: Ranked>(s: Seq<T>)
    ensures
        in_order(sorted(s)),
        sorted(s).to_multiset() =~= s.to_multiset(),
        sorted(s).len() == s.len(),
    decreases s.len(),
{
    broadcast use vstd::seq_lib::group_to_multiset_ensures;

    if s.len() > 0 {
        let front = s.drop_last();
        law_sorted(front);
        lemma_inserted(sorted(front), s.last());
        assert(front.push(s.last()) =~= s);
    }
}

fn insert_sorted<T: Ranked>(v: &mut Vec<T>, x: T)
    ensures
        final(v)@ == inserted(old(v)@, x),
{
    let mut at: usize = v.len();
    let ghost whole = v@;
    assert(whole.take(at as int) =~= whole);
    while at > 0 && x.comes_before(&v[at - 1])
        invariant
            at <= v@.len(),
            v@ == whole,
            inserted(whole, x) =~= inserted(whole.take(at as int), x) + whole.skip(at as int),
        decreases at,
    {
        let ghost front = whole.take(at as int);
        assert(front.drop_last() =~= whole.take(at - 1));
        assert(front.last() == whole[at - 1]);
        assert(inserted(front, x) == inserted(front.drop_last(), x).push(front.last()));
        assert(inserted(front.drop_last(), x).push(front.last()) + whole.skip(at as int)
            =~= inserted(front.drop_last(), x) + whole.skip(at - 1));
        at = at - 1;
    }
    assert(inserted(whole.take(at as int), x) == whole.take(at as int).push(x));
    v.insert(at, x);
    assert(v@ =~= whole.take(at as int).push(x) + whole.skip(at as int));
}

/// Sorts a vector; see [`sorted`].
pub fn sort_ranked<T: Ranked>(items: &Vec<T>) -> (result: Vec<T>)
    ensures
        result@ == sorted(items@),
{
    let mut out: Vec<T> = Vec::new();
    let mut i: usize = 0;
    while i < items.len()
        invariant
            i <= items@.len(),
            out@ == sorted(items@.take(i as int)),
        decreases items@.len() - i,
    {
        assert(items@.take(i + 1).drop_last() =~= items@.take(i as int));
        insert_sorted(&mut out, items[i]);
        i = i + 1;
    }
    assert(items@.take(i as int) =~= items@);
    out
}

} // verus!
