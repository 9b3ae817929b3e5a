//! Stable sorting, stated over an ordering relation `lt` ("strictly
//! before"): the sorted sequence of `s` is built by inserting each element
//! of `s`, in turn, after every element that it does not strictly precede.
//! This is the unique stable sorted arrangement of `s`, the one that std's
//! `sort_by` and `sort_by_key` produce.
use vstd::prelude::*;

verus! {

/// Inserts `x` into `r` just after the last element that `x` does not
/// strictly precede (scanning from the end).
pub open spec fn insert_sorted<T>(r: Seq<T>, x: T, lt: spec_fn(T, T) -> bool) -> Seq<T>
    decreases r.len(),
{
    if r.len() == 0 {
        seq![x]
    } else if lt(x, r.last()) {
        insert_sorted(r.drop_last(), x, lt).push(r.last())
    } else {
        r.push(x)
    }
}

/// The stable sorted arrangement of `s` under `lt`.
pub open spec fn sorted_by<T>(s: Seq<T>, lt: spec_fn(T, T) -> bool) -> Seq<T>
    decreases s.len(),
{
    if s.len() == 0 {
        s
    } else {
        insert_sorted(sorted_by(s.drop_last(), lt), s.last(), lt)
    }
}

/// No element of `r` strictly precedes an element before it.
pub open spec fn is_sorted_by<T>(r: Seq<T>, lt: spec_fn(T, T) -> bool) -> bool {
    forall|i: int, j: int| 0 <= i < j < r.len() ==> !lt(#[trigger] r[j], #[trigger] r[i])
}

/// Neither of `a`, `b` strictly precedes the other.
pub open spec fn equivalent<T>(a: T, b: T, lt: spec_fn(T, T) -> bool) -> bool {
    !lt(a, b) && !lt(b, a)
}

/// The elements of `s` equivalent to `v`, in their order in `s`.
pub open spec fn class_of<T>(s: Seq<T>, v: T, lt: spec_fn(T, T) -> bool) -> Seq<T>
    decreases s.len(),
{
    if s.len() == 0 {
        Seq::empty()
    } else if equivalent(s.last(), v, lt) {
        class_of(s.drop_last(), v, lt).push(s.last())
    } else {
        class_of(s.drop_last(), v, lt)
    }
}

/// `lt` is a strict weak order: irreflexive, transitive, and `a < b`
/// implies `a < c` or `c < b` for every `c`.
pub open spec fn strict_weak_order<T>(lt: spec_fn(T, T) -> bool) -> bool {
    &&& forall|a: T| !#[trigger] lt(a, a)
    &&& forall|a: T, b: T, c: T| #[trigger] lt(a, b) && #[trigger] lt(b, c) ==> lt(a, c)
    &&& forall|a: T, b: T, c: T| #[trigger] lt(a, b) ==> lt(a, c) || #[trigger] lt(c, b)
}

/// Where the scan from the end stops is where `insert_sorted` puts `x`.
pub proof fn lemma_insert_sorted_at<T>(r: Seq<T>, x: T, lt: spec_fn(T, T) -> bool, p: int)
    requires
        0 <= p <= r.len(),
        forall|j: int| p <= j < r.len() ==> lt(x, #[trigger] r[j]),
        p == 0 || !lt(x, r[p - 1]),
    ensures
        insert_sorted(r, x, lt) == r.insert(p, x),
    decreases r.len(),
{
    if r.len() == 0 {
        assert(r.insert(p, x) =~= seq![x]);
    } else if p == r.len() {
        assert(r.insert(p, x) =~= r.push(x));
    } else {
        lemma_insert_sorted_at(r.drop_last(), x, lt, p);
        assert(r.drop_last().insert(p, x).push(r.last()) =~= r.insert(p, x));
    }
}

/// Inserting adds exactly one element.
pub proof fn lemma_insert_sorted_len<T>(r: Seq<T>, x: T, lt: spec_fn(T, T) -> bool)
    ensures
        insert_sorted(r, x, lt).len() == r.len() + 1,
    decreases r.len(),
{
    if r.len() > 0 && lt(x, r.last()) {
        lemma_insert_sorted_len(r.drop_last(), x, lt);
    }
}

/// Every element after insertion is `x` or an element of `r`.
pub proof fn lemma_insert_sorted_elements<T>(r: Seq<T>, x: T, lt: spec_fn(T, T) -> bool)
    ensures
        forall|i: int|
            0 <= i < insert_sorted(r, x, lt).len() ==> #[trigger] insert_sorted(r, x, lt)[i] == x
                || r.contains(insert_sorted(r, x, lt)[i]),
    decreases r.len(),
{
    lemma_insert_sorted_len(r, x, lt);
    if r.len() > 0 && lt(x, r.last()) {
        let r2 = r.drop_last();
        lemma_insert_sorted_elements(r2, x, lt);
        lemma_insert_sorted_len(r2, x, lt);
        let res = insert_sorted(r, x, lt);
        assert forall|i: int| 0 <= i < res.len() implies #[trigger] res[i] == x || r.contains(
            res[i],
        ) by {
            if i < res.len() - 1 {
                assert(res[i] == insert_sorted(r2, x, lt)[i]);
                if res[i] != x {
                    let k = choose|k: int| 0 <= k < r2.len() && r2[k] == res[i];
                    assert(r[k] == r2[k]);
                }
            } else {
                assert(res[i] == r[r.len() - 1]);
            }
        }
    } else if r.len() > 0 {
        let res = insert_sorted(r, x, lt);
        assert forall|i: int| 0 <= i < res.len() implies #[trigger] res[i] == x || r.contains(
            res[i],
        ) by {
            if i < r.len() {
                assert(res[i] == r[i]);
            }
        }
    }
}

/// Inserting into a sorted sequence keeps it sorted.
pub proof fn lemma_insert_sorted_sorted<T>(r: Seq<T>, x: T, lt: spec_fn(T, T) -> bool)
    requires
        strict_weak_order(lt),
        is_sorted_by(r, lt),
    ensures
        is_sorted_by(insert_sorted(r, x, lt), lt),
    decreases r.len(),
{
    if r.len() == 0 {
    } else if lt(x, r.last()) {
        let r2 = r.drop_last();
        let last = r.last();
        lemma_insert_sorted_sorted(r2, x, lt);
        lemma_insert_sorted_elements(r2, x, lt);
        lemma_insert_sorted_len(r2, x, lt);
        let mid = insert_sorted(r2, x, lt);
        let res = mid.push(last);
        assert forall|i: int, j: int| 0 <= i < j < res.len() implies !lt(
            #[trigger] res[j],
            #[trigger] res[i],
        ) by {
            if j < res.len() - 1 {
                assert(res[i] == mid[i]);
                assert(res[j] == mid[j]);
            } else {
                assert(res[j] == last);
                assert(res[i] == mid[i]);
                if mid[i] == x {
                    if lt(last, x) {
                        assert(lt(x, x));
                    }
                } else {
                    assert(r2.contains(mid[i]));
                    let k = choose|k: int| 0 <= k < r2.len() && r2[k] == mid[i];
                    assert(r[k] == mid[i]);
                    assert(r[r.len() - 1] == last);
                }
            }
        }
    } else {
        let res = r.push(x);
        assert forall|i: int, j: int| 0 <= i < j < res.len() implies !lt(
            #[trigger] res[j],
            #[trigger] res[i],
        ) by {
            if j < res.len() - 1 {
                assert(res[i] == r[i]);
                assert(res[j] == r[j]);
            } else {
                assert(res[i] == r[i]);
                assert(res[j] == x);
                if lt(x, r[i]) {
                    assert(lt(x, r.last()) || lt(r.last(), r[i]));
                    if i < r.len() - 1 {
                        assert(!lt(r[r.len() - 1], r[i]));
                    }
                }
            }
        }
    }
}

/// Inserting `x` appends `x` to its own class and leaves the others.
pub proof fn lemma_insert_sorted_class<T>(r: Seq<T>, x: T, v: T, lt: spec_fn(T, T) -> bool)
    requires
        strict_weak_order(lt),
    ensures
        class_of(insert_sorted(r, x, lt), v, lt) == if equivalent(x, v, lt) {
            class_of(r, v, lt).push(x)
        } else {
            class_of(r, v, lt)
        },
    decreases r.len(),
{
    if r.len() == 0 {
        let res = seq![x];
        assert(res.drop_last() =~= Seq::<T>::empty());
        assert(class_of(res.drop_last(), v, lt) =~= Seq::<T>::empty());
        assert(class_of(r, v, lt) =~= Seq::<T>::empty());
    } else if lt(x, r.last()) {
        let r2 = r.drop_last();
        let last = r.last();
        lemma_insert_sorted_class(r2, x, v, lt);
        let mid = insert_sorted(r2, x, lt);
        assert(insert_sorted(r, x, lt) == mid.push(last));
        assert(mid.push(last).drop_last() =~= mid);
        assert(mid.push(last).last() == last);
        if equivalent(x, v, lt) {
            assert(lt(x, v) || lt(v, last));
            assert(!equivalent(last, v, lt));
            assert(class_of(r, v, lt) == class_of(r2, v, lt));
        } else {
        }
    } else {
        assert(r.push(x).drop_last() =~= r);
        assert(r.push(x).last() == x);
    }
}

/// Sorting keeps the number of elements.
pub proof fn lemma_sorted_by_len<T>(s: Seq<T>, lt: spec_fn(T, T) -> bool)
    ensures
        sorted_by(s, lt).len() == s.len(),
    decreases s.len(),
{
    if s.len() > 0 {
        lemma_sorted_by_len(s.drop_last(), lt);
        lemma_insert_sorted_len(sorted_by(s.drop_last(), lt), s.last(), lt);
    }
}

/// The sorted arrangement is sorted.
pub proof fn lemma_sorted_by_sorted<T>(s: Seq<T>, lt: spec_fn(T, T) -> bool)
    requires
        strict_weak_order(lt),
    ensures
        is_sorted_by(sorted_by(s, lt), lt),
    decreases s.len(),
{
    if s.len() > 0 {
        lemma_sorted_by_sorted(s.drop_last(), lt);
        lemma_insert_sorted_sorted(sorted_by(s.drop_last(), lt), s.last(), lt);
    }
}

/// Sorting is stable: each class of equivalent elements keeps its members
/// and their order.
pub proof fn lemma_sorted_by_stable<T>(s: Seq<T>, v: T, lt: spec_fn(T, T) -> bool)
    requires
        strict_weak_order(lt),
    ensures
        class_of(sorted_by(s, lt), v, lt) == class_of(s, v, lt),
    decreases s.len(),
{
    if s.len() > 0 {
        lemma_sorted_by_stable(s.drop_last(), v, lt);
        lemma_insert_sorted_class(sorted_by(s.drop_last(), lt), s.last(), v, lt);
    }
}

/// The elements of `s` that satisfy `p`, in order.
pub open spec fn filtered<T>(s: Seq<T>, p: spec_fn(T) -> bool) -> Seq<T>
    decreases s.len(),
{
    if s.len() == 0 {
        Seq::empty()
    } else if p(s.last()) {
        filtered(s.drop_last(), p).push(s.last())
    } else {
        filtered(s.drop_last(), p)
    }
}

/// Filtering a concatenation filters each part.
pub proof fn lemma_filtered_concat<T>(a: Seq<T>, b: Seq<T>, p: spec_fn(T) -> bool)
    ensures
        filtered(a + b, p) == filtered(a, p) + filtered(b, p),
    decreases b.len(),
{
    if b.len() == 0 {
        assert(a + b =~= a);
        assert(filtered(a, p) + filtered(b, p) =~= filtered(a, p));
    } else {
        lemma_filtered_concat(a, b.drop_last(), p);
        assert((a + b).drop_last() =~= a + b.drop_last());
        assert((a + b).last() == b.last());
        if p(b.last()) {
            assert(filtered(a, p) + filtered(b.drop_last(), p).push(b.last()) =~= (filtered(a, p)
                + filtered(b.drop_last(), p)).push(b.last()));
        }
    }
}

/// Each element of `filtered(s, p)` is an element of `s` satisfying `p`.
pub proof fn lemma_filtered_elements<T>(s: Seq<T>, p: spec_fn(T) -> bool)
    ensures
        forall|i: int|
            0 <= i < filtered(s, p).len() ==> exists|j: int|
                0 <= j < s.len() && s[j] == #[trigger] filtered(s, p)[i] && p(s[j]),
    decreases s.len(),
{
    if s.len() > 0 {
        let s2 = s.drop_last();
        lemma_filtered_elements(s2, p);
        let f = filtered(s, p);
        let f2 = filtered(s2, p);
        if p(s.last()) {
            assert(f == f2.push(s.last()));
        } else {
            assert(f == f2);
        }
        assert forall|i: int| 0 <= i < f.len() implies exists|j: int|
            0 <= j < s.len() && s[j] == #[trigger] f[i] && p(s[j]) by {
            if p(s.last()) && i == f2.len() {
                assert(s[s.len() - 1] == f[i]);
            } else {
                assert(f[i] == f2[i]);
                let j = choose|j: int| 0 <= j < s2.len() && s2[j] == f2[i] && p(s2[j]);
                assert(s[j] == s2[j]);
            }
        }
    }
}

/// Where entry `k` of `s` lands when `s` is filtered: after the kept
/// entries before it.
pub proof fn lemma_filtered_position<T>(s: Seq<T>, p: spec_fn(T) -> bool, k: int)
    requires
        0 <= k < s.len(),
        p(s[k]),
    ensures
        filtered(s, p).take(filtered(s.take(k), p).len() as int) == filtered(s.take(k), p),
        filtered(s.take(k), p).len() < filtered(s, p).len(),
        filtered(s, p)[filtered(s.take(k), p).len() as int] == s[k],
{
    let a = s.take(k);
    let rest = s.skip(k);
    let b = s.skip(k + 1);
    assert(s =~= a + rest);
    assert(rest =~= seq![s[k]] + b);
    lemma_filtered_concat(a, rest, p);
    lemma_filtered_concat(seq![s[k]], b, p);
    let one = seq![s[k]];
    assert(one.drop_last() =~= Seq::<T>::empty());
    assert(one.last() == s[k]);
    assert(filtered(one.drop_last(), p) =~= Seq::<T>::empty());
    assert(filtered(one, p) == filtered(one.drop_last(), p).push(s[k]));
    assert(filtered(one, p) =~= seq![s[k]]);
    let fa = filtered(a, p);
    let f = filtered(s, p);
    assert(f =~= fa + (seq![s[k]] + filtered(b, p)));
    assert(f.take(fa.len() as int) =~= fa);
}

/// In a sorted sequence the elements that `x` strictly precedes form a
/// suffix.
proof fn lemma_sorted_suffix<T>(r: Seq<T>, x: T, lt: spec_fn(T, T) -> bool, k: int)
    requires
        strict_weak_order(lt),
        is_sorted_by(r, lt),
        0 <= k < r.len(),
        lt(x, r[k]),
    ensures
        lt(x, r.last()),
{
    if k < r.len() - 1 {
        assert(!lt(r[r.len() - 1], r[k]));
        assert(lt(x, r[r.len() - 1]) || lt(r[r.len() - 1], r[k]));
    }
}

/// Inserting into a sorted sequence and then filtering is filtering and
/// then inserting (when `x` passes the filter).
pub proof fn lemma_filtered_insert_sorted<T>(
    r: Seq<T>,
    x: T,
    lt: spec_fn(T, T) -> bool,
    p: spec_fn(T) -> bool,
)
    requires
        strict_weak_order(lt),
        is_sorted_by(r, lt),
    ensures
        filtered(insert_sorted(r, x, lt), p) == if p(x) {
            insert_sorted(filtered(r, p), x, lt)
        } else {
            filtered(r, p)
        },
    decreases r.len(),
{
    if r.len() == 0 {
        let one = seq![x];
        assert(one.drop_last() =~= Seq::<T>::empty());
        assert(filtered(one.drop_last(), p) =~= Seq::<T>::empty());
        if p(x) {
            assert(filtered(one, p) =~= seq![x]);
        }
    } else if lt(x, r.last()) {
        let r2 = r.drop_last();
        let last = r.last();
        assert(is_sorted_by(r2, lt)) by {
            assert forall|i: int, j: int| 0 <= i < j < r2.len() implies !lt(
                #[trigger] r2[j],
                #[trigger] r2[i],
            ) by {
                assert(r2[i] == r[i]);
                assert(r2[j] == r[j]);
            }
        }
        lemma_filtered_insert_sorted(r2, x, lt, p);
        let mid = insert_sorted(r2, x, lt);
        assert(insert_sorted(r, x, lt) == mid.push(last));
        assert(mid.push(last).drop_last() =~= mid);
        assert(mid.push(last).last() == last);
        if p(x) && p(last) {
            let fr2 = filtered(r2, p);
            assert(filtered(r, p) == fr2.push(last));
            assert(fr2.push(last).drop_last() =~= fr2);
            assert(fr2.push(last).last() == last);
        }
    } else {
        assert(insert_sorted(r, x, lt) == r.push(x));
        assert(r.push(x).drop_last() =~= r);
        assert(r.push(x).last() == x);
        if p(x) {
            let fr = filtered(r, p);
            if fr.len() > 0 {
                lemma_filtered_elements(r, p);
                let i = fr.len() - 1;
                assert(fr[i] == fr.last());
                let j = choose|j: int| 0 <= j < r.len() && r[j] == #[trigger] fr[i] && p(r[j]);
                if lt(x, r[j]) {
                    lemma_sorted_suffix(r, x, lt, j);
                }
            }
        }
    }
}

/// Stable sorting commutes with filtering.
pub proof fn lemma_sorted_by_filtered<T>(s: Seq<T>, lt: spec_fn(T, T) -> bool, p: spec_fn(T) -> bool)
    requires
        strict_weak_order(lt),
    ensures
        sorted_by(filtered(s, p), lt) == filtered(sorted_by(s, lt), p),
    decreases s.len(),
{
    if s.len() > 0 {
        let s2 = s.drop_last();
        let x = s.last();
        lemma_sorted_by_filtered(s2, lt, p);
        lemma_sorted_by_sorted(s2, lt);
        lemma_filtered_insert_sorted(sorted_by(s2, lt), x, lt, p);
        if p(x) {
            let f2 = filtered(s2, p);
            assert(filtered(s, p) == f2.push(x));
            assert(f2.push(x).drop_last() =~= f2);
            assert(f2.push(x).last() == x);
        }
    } else {
        assert(filtered(s, p) =~= s);
    }
}

} // verus!
