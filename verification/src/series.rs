//! Shared behavior of causal series: keyframes carry a timestamp, a
//! series is kept sorted by it, and construction stable-sorts an
//! arbitrary collection of keyframes (ties keep their original
//! relative order).

use vstd::prelude::*;

verus! {

/// A keyframe kind with a timestamp.
pub trait Timed: Sized + Copy {
    /// The timestamp of this keyframe, as a mathematical integer.
    spec fn time(self) -> int;

    /// Executable access to the timestamp.
    fn time_exec(&self) -> (t: i64)
        ensures
            t as int == self.time(),
    ;
}

/// Timestamps never decrease along the sequence.
pub open spec fn sorted_by_time<T: Timed>(s: Seq<T>) -> bool {
    forall|i: int, j: int| 0 <= i < j < s.len() ==> s[i].time() <= s[j].time()
}

/// Insert `x` into the already-sorted `s`, after every element whose
/// timestamp is less than or equal to `x`'s (this is what keeps the
/// overall sort stable).
pub open spec fn insert_by_time<T: Timed>(x: T, s: Seq<T>) -> Seq<T>
    decreases s.len(),
{
    if s.len() == 0 {
        seq![x]
    } else if x.time() < s[0].time() {
        seq![x] + s
    } else {
        seq![s[0]] + insert_by_time(x, s.drop_first())
    }
}

/// Stable insertion sort by timestamp: elements are taken in input
/// order and each is placed after all earlier-or-equal timestamps.
pub open spec fn sort_by_time<T: Timed>(s: Seq<T>) -> Seq<T>
    decreases s.len(),
{
    if s.len() == 0 {
        Seq::empty()
    } else {
        insert_by_time(s.last(), sort_by_time(s.drop_last()))
    }
}

/// Inserting into a sorted sequence keeps it sorted.
pub proof fn lemma_insert_by_time_sorted<T: Timed>(x: T, s: Seq<T>)
    requires
        sorted_by_time(s),
    ensures
        sorted_by_time(insert_by_time(x, s)),
        insert_by_time(x, s).len() == s.len() + 1,
    decreases s.len(),
{
    if s.len() == 0 {
    } else if x.time() < s[0].time() {
        let r = seq![x] + s;
        assert forall|i: int, j: int| 0 <= i < j < r.len() implies r[i].time() <= r[j].time() by {
            if i > 0 {
                assert(s[i - 1].time() <= s[j - 1].time());
            } else if j > 0 {
                assert(s[0].time() <= s[j - 1].time());
            }
        }
    } else {
        assert(sorted_by_time(s.drop_first())) by {
            assert(forall|i: int, j: int|
                0 <= i < j < s.len() - 1 ==> s.drop_first()[i].time() <= s.drop_first()[j].time());
        }
        lemma_insert_by_time_sorted(x, s.drop_first());
        let t = insert_by_time(x, s.drop_first());
        let r = seq![s[0]] + t;
        assert forall|i: int, j: int| 0 <= i < j < r.len() implies r[i].time() <= r[j].time() by {
            if i == 0 {
                lemma_insert_by_time_elems(x, s.drop_first());
                let e = t[j - 1];
                if e == x {
                    assert(s[0].time() <= x.time());
                } else {
                    let k = choose|k: int| 0 <= k < s.len() - 1 && s.drop_first()[k] == e;
                    assert(s[0].time() <= s[k + 1].time());
                }
            } else {
                assert(t[i - 1].time() <= t[j - 1].time());
            }
        }
    }
}

/// Every element of `insert_by_time(x, s)` is `x` or an element of `s`.
pub proof fn lemma_insert_by_time_elems<T: Timed>(x: T, s: Seq<T>)
    ensures
        insert_by_time(x, s).len() == s.len() + 1,
        forall|i: int|
            0 <= i < insert_by_time(x, s).len() ==> insert_by_time(x, s)[i] == x || exists|k: int|
                0 <= k < s.len() && s[k] == #[trigger] insert_by_time(x, s)[i],
    decreases s.len(),
{
    if s.len() == 0 {
    } else if x.time() < s[0].time() {
        let r = seq![x] + s;
        assert forall|i: int| 0 <= i < r.len() implies r[i] == x || exists|k: int|
            0 <= k < s.len() && s[k] == r[i] by {
            if i > 0 {
                assert(s[i - 1] == r[i]);
            }
        }
    } else {
        lemma_insert_by_time_elems(x, s.drop_first());
        let t = insert_by_time(x, s.drop_first());
        let r = seq![s[0]] + t;
        assert forall|i: int| 0 <= i < r.len() implies r[i] == x || exists|k: int|
            0 <= k < s.len() && s[k] == r[i] by {
            if i == 0 {
                assert(s[0] == r[0]);
            } else {
                assert(r[i] == t[i - 1]);
                if t[i - 1] != x {
                    let k = choose|k: int| 0 <= k < s.len() - 1 && s.drop_first()[k] == t[i - 1];
                    assert(s[k + 1] == r[i]);
                }
            }
        }
    }
}

/// The stable sort returns a sorted sequence (the timestamps read off
/// a freshly constructed series never decrease).
pub proof fn lemma_sort_by_time_sorted<T: Timed>(s: Seq<T>)
    ensures
        sorted_by_time(sort_by_time(s)),
        sort_by_time(s).len() == s.len(),
    decreases s.len(),
{
    if s.len() == 0 {
    } else {
        lemma_sort_by_time_sorted(s.drop_last());
        lemma_insert_by_time_sorted(s.last(), sort_by_time(s.drop_last()));
    }
}

/// The stable sort is a permutation of its input.
pub proof fn lemma_sort_by_time_multiset<T: Timed>(s: Seq<T>)
    ensures
        sort_by_time(s).to_multiset() == s.to_multiset(),
    decreases s.len(),
{
    broadcast use vstd::seq_lib::group_to_multiset_ensures;

    if s.len() == 0 {
        assert(sort_by_time(s).to_multiset() =~= s.to_multiset());
    } else {
        lemma_sort_by_time_multiset(s.drop_last());
        lemma_insert_by_time_multiset(s.last(), sort_by_time(s.drop_last()));
        assert(s =~= s.drop_last().push(s.last()));
        assert(s.to_multiset() =~= s.drop_last().to_multiset().insert(s.last()));
    }
}

/// Insertion adds exactly the new element to the sequence's multiset.
pub proof fn lemma_insert_by_time_multiset<T: Timed>(x: T, s: Seq<T>)
    ensures
        insert_by_time(x, s).to_multiset() == s.to_multiset().insert(x),
    decreases s.len(),
{
    broadcast use vstd::seq_lib::group_to_multiset_ensures;

    if s.len() == 0 {
        assert(seq![x] =~= Seq::<T>::empty().push(x));
        assert(insert_by_time(x, s).to_multiset() =~= s.to_multiset().insert(x));
    } else if x.time() < s[0].time() {
        let r = seq![x] + s;
        lemma_multiset_of_cons(x, s);
        assert(r.to_multiset() =~= s.to_multiset().insert(x));
    } else {
        lemma_insert_by_time_multiset(x, s.drop_first());
        let t = insert_by_time(x, s.drop_first());
        lemma_multiset_of_cons(s[0], t);
        lemma_multiset_of_cons(s[0], s.drop_first());
        assert(seq![s[0]] + s.drop_first() =~= s);
        assert((seq![s[0]] + t).to_multiset() =~= s.to_multiset().insert(x));
    }
}

proof fn lemma_multiset_of_cons<T>(x: T, s: Seq<T>)
    ensures
        (seq![x] + s).to_multiset() == s.to_multiset().insert(x),
    decreases s.len(),
{
    broadcast use vstd::seq_lib::group_to_multiset_ensures;

    if s.len() == 0 {
        assert(seq![x] + s =~= Seq::<T>::empty().push(x));
        assert((seq![x] + s).to_multiset() =~= s.to_multiset().insert(x));
    } else {
        lemma_multiset_of_cons(x, s.drop_last());
        assert(seq![x] + s =~= (seq![x] + s.drop_last()).push(s.last()));
        assert(s =~= s.drop_last().push(s.last()));
        assert((seq![x] + s).to_multiset() =~= (seq![x] + s.drop_last()).to_multiset().insert(
            s.last(),
        ));
        assert(s.to_multiset() =~= s.drop_last().to_multiset().insert(s.last()));
        assert((seq![x] + s).to_multiset() =~= s.to_multiset().insert(x)) by {
            assert((seq![x] + s.drop_last()).to_multiset().insert(s.last()) =~= s.drop_last()
                .to_multiset()
                .insert(x)
                .insert(s.last()));
            assert(s.drop_last().to_multiset().insert(x).insert(s.last()) =~= s.drop_last()
                .to_multiset()
                .insert(s.last())
                .insert(x));
        }
    }
}

/// Every element of the sorted sequence occurs in the input.
pub proof fn lemma_sort_by_time_elems<T: Timed>(s: Seq<T>)
    ensures
        forall|i: int|
            0 <= i < sort_by_time(s).len() ==> s.contains(#[trigger] sort_by_time(s)[i]),
{
    broadcast use vstd::seq_lib::group_to_multiset_ensures;

    lemma_sort_by_time_multiset(s);
    let r = sort_by_time(s);
    assert forall|i: int| 0 <= i < r.len() implies s.contains(#[trigger] r[i]) by {
        assert(r.contains(r[i]));
        assert(r.to_multiset().count(r[i]) > 0);
    }
}

/// Where the first strictly-later timestamp sits, `insert_by_time`
/// equals a sequence insertion at that position.
proof fn lemma_insert_by_time_at<T: Timed>(x: T, s: Seq<T>, j: int)
    requires
        sorted_by_time(s),
        0 <= j <= s.len(),
        forall|i: int| 0 <= i < j ==> s[i].time() <= x.time(),
        j < s.len() ==> s[j].time() > x.time(),
    ensures
        insert_by_time(x, s) == s.insert(j, x),
    decreases s.len(),
{
    if s.len() == 0 {
        assert(insert_by_time(x, s) =~= s.insert(0, x));
    } else if x.time() < s[0].time() {
        assert(j == 0);
        assert(insert_by_time(x, s) =~= s.insert(0, x));
    } else {
        assert(j >= 1);
        assert(sorted_by_time(s.drop_first())) by {
            assert(forall|i: int, k: int|
                0 <= i < k < s.len() - 1 ==> s.drop_first()[i].time() <= s.drop_first()[k].time());
        }
        lemma_insert_by_time_at(x, s.drop_first(), j - 1);
        assert(seq![s[0]] + s.drop_first().insert(j - 1, x) =~= s.insert(j, x));
    }
}

/// Stable sort of a collection of keyframes by timestamp.
pub fn stable_sort_by_time<T: Timed>(v: &Vec<T>) -> (r: Vec<T>)
    ensures
        r@ == sort_by_time(v@),
        r@.len() == v@.len(),
        sorted_by_time(r@),
{
    let mut r: Vec<T> = Vec::new();
    let mut idx: usize = 0;
    proof {
        assert(v@.subrange(0, 0) =~= Seq::<T>::empty());
    }
    while idx < v.len()
        invariant
            idx <= v.len(),
            r@ == sort_by_time(v@.subrange(0, idx as int)),
            sorted_by_time(r@),
        decreases v.len() - idx,
    {
        let x = v[idx];
        // find the first position whose timestamp strictly exceeds x's
        let mut j: usize = 0;
        let xt = x.time_exec();
        loop
            invariant
                j <= r.len(),
                xt as int == x.time(),
                forall|i: int| 0 <= i < j ==> #[trigger] r@[i].time() <= x.time(),
            ensures
                j <= r.len(),
                forall|i: int| 0 <= i < j ==> #[trigger] r@[i].time() <= x.time(),
                j < r.len() ==> r@[j as int].time() > x.time(),
            decreases r.len() - j,
        {
            if j == r.len() {
                break ;
            }
            if r[j].time_exec() > xt {
                break ;
            }
            j = j + 1;
        }
        proof {
            lemma_insert_by_time_at(x, r@, j as int);
            assert(v@.subrange(0, idx as int + 1).drop_last() =~= v@.subrange(0, idx as int));
            assert(v@.subrange(0, idx as int + 1).last() == v@[idx as int]);
            lemma_insert_by_time_sorted(x, r@);
        }
        r.insert(j, x);
        idx = idx + 1;
    }
    proof {
        assert(v@.subrange(0, v@.len() as int) =~= v@);
        lemma_sort_by_time_sorted(v@);
    }
    r
}

/// Copy a vector of keyframes (series are exclusively owned; operations
/// hand out independent copies).
pub fn copy_keyframes<T: Copy>(v: &Vec<T>) -> (r: Vec<T>)
    ensures
        r@ == v@,
{
    let mut r: Vec<T> = Vec::new();
    let mut i: usize = 0;
    while i < v.len()
        invariant
            i <= v.len(),
            r@ == v@.subrange(0, i as int),
        decreases v.len() - i,
    {
        r.push(v[i]);
        proof {
            assert(v@.subrange(0, i as int + 1) =~= v@.subrange(0, i as int).push(v@[i as int]));
        }
        i = i + 1;
    }
    proof {
        assert(v@.subrange(0, v@.len() as int) =~= v@);
    }
    r
}

} // verus!
