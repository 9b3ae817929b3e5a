//! Cleanup by retention policy: snapshots are put newest first and sorted
//! into age classes (younger than an hour, a day, a week, or older); of
//! each class the newest ones, up to the policy's number for the class, are
//! kept, and every snapshot whose id is not kept is removed.
use vstd::prelude::*;
use crate::config::RetentionPolicy;
use crate::snapshots::{Snapshot, SnapshotManager, SnapshotOrder, Timestamp, snapshot_lt, ts_key,
    later_than_offset, sort_snapshots};
use crate::sorting::{sorted_by, filtered, lemma_sorted_by_filtered, lemma_filtered_elements,
    lemma_filtered_position};
use crate::snapshots::{lemma_snapshot_order, without_id, lemma_without_absent_id};

verus! {

/// The age classes of a retention policy.
#[derive(Debug, Clone, Copy, PartialEq, Eq, Structural)]
pub enum AgeClass {
    Hourly,
    Daily,
    Weekly,
    Monthly,
}

/// Seconds in an hour, a day, a week.
pub open spec fn hour_secs() -> int {
    3600
}

pub open spec fn day_secs() -> int {
    86400
}

pub open spec fn week_secs() -> int {
    604800
}

/// `t` is strictly later than `secs` seconds before `now`.
pub open spec fn within(t: Timestamp, now: Timestamp, secs: int) -> bool {
    ts_key(t) > ts_key(now) - secs * 4294967296
}

/// The age class of a snapshot taken at `t`, seen at `now`.
pub open spec fn age_class(t: Timestamp, now: Timestamp) -> AgeClass {
    if within(t, now, hour_secs()) {
        AgeClass::Hourly
    } else if within(t, now, day_secs()) {
        AgeClass::Daily
    } else if within(t, now, week_secs()) {
        AgeClass::Weekly
    } else {
        AgeClass::Monthly
    }
}

/// Computes `age_class`.
pub fn classify(t: Timestamp, now: Timestamp) -> (c: AgeClass)
    ensures
        c == age_class(t, now),
{
    if later_than_offset(t, now, 3600) {
        AgeClass::Hourly
    } else if later_than_offset(t, now, 86400) {
        AgeClass::Daily
    } else if later_than_offset(t, now, 604800) {
        AgeClass::Weekly
    } else {
        AgeClass::Monthly
    }
}

/// How many snapshots of class `c` the policy keeps.
pub open spec fn limit_of(r: RetentionPolicy, c: AgeClass) -> nat {
    match c {
        AgeClass::Hourly => r.hourly as nat,
        AgeClass::Daily => r.daily as nat,
        AgeClass::Weekly => r.weekly as nat,
        AgeClass::Monthly => r.monthly as nat,
    }
}

/// The number of snapshots of class `c` in `t`.
pub open spec fn count_class(t: Seq<Snapshot>, c: AgeClass, now: Timestamp) -> nat
    decreases t.len(),
{
    if t.len() == 0 {
        0
    } else if age_class(t.last().timestamp, now) == c {
        count_class(t.drop_last(), c, now) + 1
    } else {
        count_class(t.drop_last(), c, now)
    }
}

/// Entry `i` of the newest-first list `t` is kept: fewer than the limit of
/// its class come before it in that class.
pub open spec fn is_kept(t: Seq<Snapshot>, i: int, r: RetentionPolicy, now: Timestamp) -> bool {
    let c = age_class(t[i].timestamp, now);
    count_class(t.take(i), c, now) < limit_of(r, c)
}

/// The ids of the kept entries of `t`, in order.
pub open spec fn kept_ids(t: Seq<Snapshot>, r: RetentionPolicy, now: Timestamp) -> Seq<usize>
    decreases t.len(),
{
    if t.len() == 0 {
        Seq::empty()
    } else if is_kept(t, t.len() - 1, r, now) {
        kept_ids(t.drop_last(), r, now).push(t.last().id)
    } else {
        kept_ids(t.drop_last(), r, now)
    }
}

/// The ids of the entries of `t` whose id is not in `keep`, in order.
pub open spec fn removal_ids(t: Seq<Snapshot>, keep: Seq<usize>) -> Seq<usize>
    decreases t.len(),
{
    if t.len() == 0 {
        Seq::empty()
    } else if keep.contains(t.last().id) {
        removal_ids(t.drop_last(), keep)
    } else {
        removal_ids(t.drop_last(), keep).push(t.last().id)
    }
}

/// The snapshots newest first (stable among equal timestamps).
pub open spec fn newest_first(s: Seq<Snapshot>) -> Seq<Snapshot> {
    sorted_by(s, snapshot_lt(SnapshotOrder::NewestFirst))
}

/// The ids that a cleanup at time `now` removes, in the order it removes
/// them.
pub open spec fn cleanup_ids(s: Seq<Snapshot>, r: RetentionPolicy, now: Timestamp) -> Seq<usize> {
    let t = newest_first(s);
    removal_ids(t, kept_ids(t, r, now))
}

/// Tests whether `v` holds `x`.
pub fn vec_contains(v: &Vec<usize>, x: usize) -> (b: bool)
    ensures
        b == v@.contains(x),
{
    let mut i: usize = 0;
    while i < v.len()
        invariant
            i <= v.len(),
            forall|j: int| 0 <= j < i ==> v@[j] != x,
        decreases v.len() - i,
    {
        if v[i] == x {
            assert(v@[i as int] == x);
            return true;
        }
        i = i + 1;
    }
    false
}

proof fn lemma_count_class_le(t: Seq<Snapshot>, c: AgeClass, now: Timestamp)
    ensures
        count_class(t, c, now) <= t.len(),
    decreases t.len(),
{
    if t.len() > 0 {
        lemma_count_class_le(t.drop_last(), c, now);
    }
}

/// The ids that a cleanup at time `now` removes, given the policy `r`.
pub fn cleanup_ids_at(snapshots: Vec<Snapshot>, r: RetentionPolicy, now: Timestamp) -> (ids: Vec<
    usize,
>)
    ensures
        ids@ == cleanup_ids(snapshots@, r, now),
{
    let t = sort_snapshots(snapshots, SnapshotOrder::NewestFirst);
    let mut hourly: usize = 0;
    let mut daily: usize = 0;
    let mut weekly: usize = 0;
    let mut monthly: usize = 0;
    let mut keep: Vec<usize> = Vec::new();
    let mut i: usize = 0;
    while i < t.len()
        invariant
            i <= t.len(),
            hourly == count_class(t@.take(i as int), AgeClass::Hourly, now),
            daily == count_class(t@.take(i as int), AgeClass::Daily, now),
            weekly == count_class(t@.take(i as int), AgeClass::Weekly, now),
            monthly == count_class(t@.take(i as int), AgeClass::Monthly, now),
            keep@ == kept_ids(t@.take(i as int), r, now),
        decreases t.len() - i,
    {
        let ghost pre = t@.take(i as int);
        let ghost next = t@.take(i + 1);
        proof {
            assert(next.drop_last() =~= pre);
            assert(next.last() == t@[i as int]);
            assert(next.take(i as int) =~= pre);
            lemma_count_class_le(pre, AgeClass::Hourly, now);
            lemma_count_class_le(pre, AgeClass::Daily, now);
            lemma_count_class_le(pre, AgeClass::Weekly, now);
            lemma_count_class_le(pre, AgeClass::Monthly, now);
        }
        let c = classify(t[i].timestamp, now);
        let (count, limit) = match c {
            AgeClass::Hourly => (hourly, r.hourly),
            AgeClass::Daily => (daily, r.daily),
            AgeClass::Weekly => (weekly, r.weekly),
            AgeClass::Monthly => (monthly, r.monthly),
        };
        if count < limit {
            keep.push(t[i].id);
        }
        match c {
            AgeClass::Hourly => {
                hourly = hourly + 1;
            },
            AgeClass::Daily => {
                daily = daily + 1;
            },
            AgeClass::Weekly => {
                weekly = weekly + 1;
            },
            AgeClass::Monthly => {
                monthly = monthly + 1;
            },
        }
        i = i + 1;
    }
    assert(t@.take(t.len() as int) =~= t@);
    let mut ids: Vec<usize> = Vec::new();
    let mut j: usize = 0;
    while j < t.len()
        invariant
            j <= t.len(),
            keep@ == kept_ids(t@, r, now),
            ids@ == removal_ids(t@.take(j as int), keep@),
        decreases t.len() - j,
    {
        proof {
            assert(t@.take(j + 1).drop_last() =~= t@.take(j as int));
            assert(t@.take(j + 1).last() == t@[j as int]);
        }
        if !vec_contains(&keep, t[j].id) {
            ids.push(t[j].id);
        }
        j = j + 1;
    }
    assert(t@.take(t.len() as int) =~= t@);
    ids
}

impl SnapshotManager {
    /// The ids that cleaning up at time `now` (the caller reads the clock)
    /// removes under this configuration's retention policy, in the order
    /// they are removed.
    pub fn cleanup_snapshots(&self, snapshots: Vec<Snapshot>, now: Timestamp) -> (ids: Vec<usize>)
        ensures
            ids@ == cleanup_ids(snapshots@, self.config.retention, now),
    {
        cleanup_ids_at(snapshots, self.config.retention, now)
    }
}

/// The number of kept entries of class `c` in `t`.
pub open spec fn kept_count(t: Seq<Snapshot>, c: AgeClass, r: RetentionPolicy, now: Timestamp) -> nat
    decreases t.len(),
{
    if t.len() == 0 {
        0
    } else if age_class(t.last().timestamp, now) == c && is_kept(t, t.len() - 1, r, now) {
        kept_count(t.drop_last(), c, r, now) + 1
    } else {
        kept_count(t.drop_last(), c, r, now)
    }
}

proof fn lemma_kept_count(t: Seq<Snapshot>, c: AgeClass, r: RetentionPolicy, now: Timestamp)
    ensures
        kept_count(t, c, r, now) == if count_class(t, c, now) < limit_of(r, c) {
            count_class(t, c, now)
        } else {
            limit_of(r, c)
        },
    decreases t.len(),
{
    if t.len() > 0 {
        lemma_kept_count(t.drop_last(), c, r, now);
        assert(t.take(t.len() - 1) =~= t.drop_last());
    }
}

proof fn lemma_count_class_prefix(t: Seq<Snapshot>, c: AgeClass, now: Timestamp, j: int, i: int)
    requires
        0 <= j <= i <= t.len(),
    ensures
        count_class(t.take(j), c, now) <= count_class(t.take(i), c, now),
        j < i && age_class(t[j].timestamp, now) == c ==> count_class(t.take(j), c, now) < count_class(
            t.take(i),
            c,
            now,
        ),
    decreases i - j,
{
    if j < i {
        lemma_count_class_prefix(t, c, now, j + 1, i);
        assert(t.take(j + 1).drop_last() =~= t.take(j));
        assert(t.take(j + 1).last() == t[j]);
    }
}

/// Cleanup keeps, of each age class, as many snapshots as the policy
/// allows for it or all of them if there are fewer; and what it keeps of a
/// class are its newest: a snapshot of the class that comes before a kept
/// one in newest-first order is kept too. A policy number of 0 keeps none
/// of that class.
pub proof fn lemma_cleanup_keeps_newest(
    s: Seq<Snapshot>,
    r: RetentionPolicy,
    now: Timestamp,
    c: AgeClass,
)
    ensures
        ({
            let t = newest_first(s);
            &&& kept_count(t, c, r, now) == if count_class(t, c, now) < limit_of(r, c) {
                count_class(t, c, now)
            } else {
                limit_of(r, c)
            }
            &&& forall|i: int, j: int|
                0 <= j < i < t.len() && age_class(t[j].timestamp, now) == c && age_class(
                    t[i].timestamp,
                    now,
                ) == c && #[trigger] is_kept(t, i, r, now) ==> #[trigger] is_kept(t, j, r, now)
            &&& limit_of(r, c) == 0 ==> forall|i: int|
                0 <= i < t.len() && age_class(t[i].timestamp, now) == c ==> !#[trigger] is_kept(
                    t,
                    i,
                    r,
                    now,
                )
        }),
{
    let t = newest_first(s);
    lemma_kept_count(t, c, r, now);
    assert forall|i: int, j: int|
        0 <= j < i < t.len() && age_class(t[j].timestamp, now) == c && age_class(
            t[i].timestamp,
            now,
        ) == c && #[trigger] is_kept(t, i, r, now) implies #[trigger] is_kept(t, j, r, now) by {
        lemma_count_class_prefix(t, c, now, j, i);
    }
}

/// Cleanup removes no snapshot whose id a kept snapshot has, and removes
/// every other snapshot: an id is removed exactly when some snapshot has it
/// and no kept snapshot has it.
pub proof fn lemma_cleanup_removes_unkept(s: Seq<Snapshot>, r: RetentionPolicy, now: Timestamp, id: usize)
    ensures
        ({
            let t = newest_first(s);
            cleanup_ids(s, r, now).contains(id) <==> (exists|i: int|
                0 <= i < t.len() && #[trigger] t[i].id == id) && !kept_ids(t, r, now).contains(id)
        }),
{
    let t = newest_first(s);
    lemma_removal_ids_contains(t, kept_ids(t, r, now), id);
}

proof fn lemma_removal_ids_contains(t: Seq<Snapshot>, keep: Seq<usize>, id: usize)
    ensures
        removal_ids(t, keep).contains(id) <==> (exists|i: int| 0 <= i < t.len() && #[trigger] t[i].id
            == id) && !keep.contains(id),
    decreases t.len(),
{
    if t.len() > 0 {
        let t2 = t.drop_last();
        lemma_removal_ids_contains(t2, keep, id);
        let rest = removal_ids(t2, keep);
        if exists|i: int| 0 <= i < t2.len() && #[trigger] t2[i].id == id {
            let k = choose|i: int| 0 <= i < t2.len() && #[trigger] t2[i].id == id;
            assert(t[k] == t2[k]);
        }
        if exists|i: int| 0 <= i < t.len() && #[trigger] t[i].id == id {
            let k = choose|i: int| 0 <= i < t.len() && #[trigger] t[i].id == id;
            if k < t.len() - 1 {
                assert(t2[k] == t[k]);
            }
        }
        if !keep.contains(t.last().id) {
            assert(rest.push(t.last().id).last() == t.last().id);
            assert forall|x: usize| rest.contains(x) implies #[trigger] rest.push(
                t.last().id,
            ).contains(x) by {
                let k = choose|k: int| 0 <= k < rest.len() && rest[k] == x;
                assert(rest.push(t.last().id)[k] == x);
            }
            assert forall|x: usize| #[trigger] rest.push(t.last().id).contains(x) && x != t.last().id
                implies rest.contains(x) by {
                let k = choose|k: int| 0 <= k < rest.len() + 1 && rest.push(t.last().id)[k] == x;
                assert(rest[k] == x);
            }
        }
    }
}

/// The snapshots that a cleanup at `now` leaves: those whose id it does
/// not remove, in their recorded order.
pub open spec fn survivors(s: Seq<Snapshot>, r: RetentionPolicy, now: Timestamp) -> Seq<Snapshot> {
    let removed = cleanup_ids(s, r, now);
    filtered(s, |e: Snapshot| !removed.contains(e.id))
}

proof fn lemma_kept_ids_contains(t: Seq<Snapshot>, r: RetentionPolicy, now: Timestamp, id: usize)
    ensures
        kept_ids(t, r, now).contains(id) <==> exists|k: int|
            0 <= k < t.len() && #[trigger] is_kept(t, k, r, now) && t[k].id == id,
    decreases t.len(),
{
    if t.len() > 0 {
        let t2 = t.drop_last();
        lemma_kept_ids_contains(t2, r, now, id);
        let n = t.len() - 1;
        assert forall|k: int| 0 <= k < t2.len() implies #[trigger] is_kept(t2, k, r, now) == is_kept(
            t,
            k,
            r,
            now,
        ) by {
            assert(t2.take(k) =~= t.take(k));
            assert(t2[k] == t[k]);
        }
        let k2 = kept_ids(t2, r, now);
        if is_kept(t, n, r, now) {
            assert(kept_ids(t, r, now) == k2.push(t.last().id));
            if k2.push(t.last().id).contains(id) && t.last().id != id {
                let j = choose|j: int| 0 <= j < k2.len() + 1 && k2.push(t.last().id)[j] == id;
                assert(k2[j] == id);
            }
            if k2.contains(id) {
                let j = choose|j: int| 0 <= j < k2.len() && k2[j] == id;
                assert(k2.push(t.last().id)[j] == id);
            }
            if t.last().id == id {
                assert(k2.push(t.last().id)[k2.len() as int] == id);
                assert(is_kept(t, n, r, now) && t[n].id == id);
            }
        }
        if exists|k: int| 0 <= k < t.len() && #[trigger] is_kept(t, k, r, now) && t[k].id == id {
            let k = choose|k: int| 0 <= k < t.len() && #[trigger] is_kept(t, k, r, now) && t[k].id == id;
            if k < n {
                assert(is_kept(t2, k, r, now) && t2[k].id == id);
            }
        }
    }
}

proof fn lemma_count_class_filtered(q: Seq<Snapshot>, p: spec_fn(Snapshot) -> bool, c: AgeClass, now: Timestamp)
    ensures
        count_class(filtered(q, p), c, now) <= count_class(q, c, now),
    decreases q.len(),
{
    if q.len() > 0 {
        lemma_count_class_filtered(q.drop_last(), p, c, now);
        let f2 = filtered(q.drop_last(), p);
        if p(q.last()) {
            assert(f2.push(q.last()).drop_last() =~= f2);
            assert(f2.push(q.last()).last() == q.last());
        }
    }
}

proof fn lemma_removal_ids_empty(t: Seq<Snapshot>, keep: Seq<usize>)
    requires
        forall|i: int| 0 <= i < t.len() ==> keep.contains(#[trigger] t[i].id),
    ensures
        removal_ids(t, keep) == Seq::<usize>::empty(),
    decreases t.len(),
{
    if t.len() > 0 {
        assert forall|i: int| 0 <= i < t.drop_last().len() implies keep.contains(
            #[trigger] t.drop_last()[i].id,
        ) by {
            assert(t.drop_last()[i] == t[i]);
        }
        lemma_removal_ids_empty(t.drop_last(), keep);
        assert(keep.contains(t[t.len() - 1].id));
    }
}

/// Cleaning up twice removes nothing the second time: what a cleanup
/// leaves, cleaned up again at the same time, loses nothing.
pub proof fn lemma_cleanup_idempotent(s: Seq<Snapshot>, r: RetentionPolicy, now: Timestamp)
    ensures
        cleanup_ids(survivors(s, r, now), r, now) == Seq::<usize>::empty(),
{
    let lt = snapshot_lt(SnapshotOrder::NewestFirst);
    let t = newest_first(s);
    let keep = kept_ids(t, r, now);
    let removed = cleanup_ids(s, r, now);
    let p = |e: Snapshot| !removed.contains(e.id);
    let u = survivors(s, r, now);
    lemma_snapshot_order(SnapshotOrder::NewestFirst);
    lemma_sorted_by_filtered(s, lt, p);
    let t2 = newest_first(u);
    assert(t2 == filtered(t, p));
    let keep2 = kept_ids(t2, r, now);
    lemma_filtered_elements(t, p);
    assert forall|i: int| 0 <= i < t2.len() implies keep2.contains(#[trigger] t2[i].id) by {
        let j = choose|j: int| 0 <= j < t.len() && t[j] == #[trigger] filtered(t, p)[i] && p(t[j]);
        let id = t[j].id;
        lemma_removal_ids_contains(t, keep, id);
        assert(keep.contains(id));
        lemma_kept_ids_contains(t, r, now, id);
        let k = choose|k: int| 0 <= k < t.len() && #[trigger] is_kept(t, k, r, now) && t[k].id == id;
        assert(p(t[k]));
        lemma_filtered_position(t, p, k);
        let ik = filtered(t.take(k), p).len() as int;
        let c = age_class(t[k].timestamp, now);
        lemma_count_class_filtered(t.take(k), p, c, now);
        assert(t2.take(ik) == filtered(t.take(k), p));
        assert(t2[ik] == t[k]);
        assert(is_kept(t2, ik, r, now));
        lemma_kept_ids_contains(t2, r, now, id);
    }
    lemma_removal_ids_empty(t2, keep2);
}

/// Every limit of `r` is at most that of `r2`.
pub open spec fn retention_le(r: RetentionPolicy, r2: RetentionPolicy) -> bool {
    &&& r.hourly <= r2.hourly
    &&& r.daily <= r2.daily
    &&& r.weekly <= r2.weekly
    &&& r.monthly <= r2.monthly
}

/// Raising retention limits never removes more: every id that a cleanup
/// under the higher limits removes, a cleanup under the lower ones (same
/// record, same time) removes too.
pub proof fn lemma_cleanup_monotone(
    s: Seq<Snapshot>,
    r: RetentionPolicy,
    r2: RetentionPolicy,
    now: Timestamp,
    id: usize,
)
    requires
        retention_le(r, r2),
    ensures
        cleanup_ids(s, r2, now).contains(id) ==> cleanup_ids(s, r, now).contains(id),
{
    let t = newest_first(s);
    lemma_removal_ids_contains(t, kept_ids(t, r, now), id);
    lemma_removal_ids_contains(t, kept_ids(t, r2, now), id);
    lemma_kept_ids_contains(t, r, now, id);
    lemma_kept_ids_contains(t, r2, now, id);
    if kept_ids(t, r, now).contains(id) {
        let k = choose|k: int| 0 <= k < t.len() && #[trigger] is_kept(t, k, r, now) && t[k].id == id;
        assert(is_kept(t, k, r2, now));
    }
}

/// The record after deleting `ids` one after another: each deletion drops
/// the snapshots with its id (a deletion of an id already gone is refused
/// and changes nothing).
pub open spec fn after_deletions(s: Seq<Snapshot>, ids: Seq<usize>) -> Seq<Snapshot>
    decreases ids.len(),
{
    if ids.len() == 0 {
        s
    } else {
        without_id(after_deletions(s, ids.drop_last()), ids.last())
    }
}

proof fn lemma_without_id_filtered(q: Seq<Snapshot>, x: usize)
    ensures
        without_id(q, x) == filtered(q, |e: Snapshot| e.id != x),
    decreases q.len(),
{
    if q.len() > 0 {
        lemma_without_id_filtered(q.drop_last(), x);
    }
}

proof fn lemma_filtered_twice(
    s: Seq<Snapshot>,
    p: spec_fn(Snapshot) -> bool,
    p2: spec_fn(Snapshot) -> bool,
    p3: spec_fn(Snapshot) -> bool,
)
    requires
        forall|e: Snapshot| #[trigger] p3(e) == (p(e) && p2(e)),
    ensures
        filtered(filtered(s, p), p2) == filtered(s, p3),
    decreases s.len(),
{
    if s.len() > 0 {
        let s2 = s.drop_last();
        lemma_filtered_twice(s2, p, p2, p3);
        let f = filtered(s2, p);
        if p(s.last()) {
            assert(f.push(s.last()).drop_last() =~= f);
            assert(f.push(s.last()).last() == s.last());
        }
    } else {
        assert(filtered(s, p) =~= Seq::<Snapshot>::empty());
    }
}

/// Deleting `ids` one after another keeps exactly the snapshots whose id
/// is not among them.
pub proof fn lemma_after_deletions(s: Seq<Snapshot>, ids: Seq<usize>)
    ensures
        after_deletions(s, ids) == filtered(s, |e: Snapshot| !ids.contains(e.id)),
    decreases ids.len(),
{
    if ids.len() == 0 {
        lemma_filtered_all(s, |e: Snapshot| !ids.contains(e.id));
    } else {
        let ids2 = ids.drop_last();
        let x = ids.last();
        lemma_after_deletions(s, ids2);
        let p = |e: Snapshot| !ids2.contains(e.id);
        let p2 = |e: Snapshot| e.id != x;
        let p3 = |e: Snapshot| !ids.contains(e.id);
        lemma_without_id_filtered(filtered(s, p), x);
        assert forall|e: Snapshot| #[trigger] p3(e) == (p(e) && p2(e)) by {
            if ids.contains(e.id) {
                let j = choose|j: int| 0 <= j < ids.len() && ids[j] == e.id;
                if j < ids.len() - 1 {
                    assert(ids2[j] == e.id);
                }
            }
            if ids2.contains(e.id) {
                let j = choose|j: int| 0 <= j < ids2.len() && ids2[j] == e.id;
                assert(ids[j] == e.id);
            }
            if e.id == x {
                assert(ids[ids.len() - 1] == e.id);
            }
        }
        lemma_filtered_twice(s, p, p2, p3);
    }
}

proof fn lemma_filtered_all(s: Seq<Snapshot>, p: spec_fn(Snapshot) -> bool)
    requires
        forall|e: Snapshot| #[trigger] p(e),
    ensures
        filtered(s, p) == s,
    decreases s.len(),
{
    if s.len() > 0 {
        lemma_filtered_all(s.drop_last(), p);
        assert(s.drop_last().push(s.last()) =~= s);
    } else {
        assert(filtered(s, p) =~= s);
    }
}

/// Carrying out a cleanup, one deletion after another, leaves exactly the
/// snapshots whose id it does not remove, in their recorded order; a
/// cleanup of that record at the same time then removes nothing.
pub proof fn lemma_cleanup_deletions_leave_survivors(s: Seq<Snapshot>, r: RetentionPolicy, now: Timestamp)
    ensures
        after_deletions(s, cleanup_ids(s, r, now)) == survivors(s, r, now),
        cleanup_ids(after_deletions(s, cleanup_ids(s, r, now)), r, now) == Seq::<usize>::empty(),
{
    let removed = cleanup_ids(s, r, now);
    lemma_after_deletions(s, removed);
    let p1 = |e: Snapshot| !removed.contains(e.id);
    assert(filtered(s, |e: Snapshot| !removed.contains(e.id)) == filtered(s, p1));
    lemma_cleanup_idempotent(s, r, now);
}

/// The number of `true` outcomes.
pub open spec fn count_true(outcomes: Seq<bool>) -> nat
    decreases outcomes.len(),
{
    if outcomes.len() == 0 {
        0
    } else if outcomes.last() {
        count_true(outcomes.drop_last()) + 1
    } else {
        count_true(outcomes.drop_last())
    }
}

/// A cleanup's count is at most the number of deletions it tried, and is
/// that number exactly when every deletion succeeded.
pub proof fn lemma_count_true_bounds(outcomes: Seq<bool>)
    ensures
        count_true(outcomes) <= outcomes.len(),
        count_true(outcomes) == outcomes.len() <==> (forall|j: int|
            0 <= j < outcomes.len() ==> #[trigger] outcomes[j]),
    decreases outcomes.len(),
{
    if outcomes.len() > 0 {
        let rest = outcomes.drop_last();
        lemma_count_true_bounds(rest);
        if forall|j: int| 0 <= j < outcomes.len() ==> #[trigger] outcomes[j] {
            assert forall|j: int| 0 <= j < rest.len() implies #[trigger] rest[j] by {
                assert(outcomes[j]);
            }
            assert(outcomes[outcomes.len() - 1]);
        }
        if !outcomes.last() {
            assert(!outcomes[outcomes.len() - 1]);
        } else if count_true(outcomes) == outcomes.len() {
            assert forall|j: int| 0 <= j < outcomes.len() implies #[trigger] outcomes[j] by {
                if j < outcomes.len() - 1 {
                    assert(rest[j]);
                }
            }
        }
    }
}

/// A cleanup's count is the number of deletions that succeeded: the
/// outcomes that are `true`, wherever they stand, each counted once.
pub proof fn lemma_count_true_counts_successes(outcomes: Seq<bool>)
    ensures
        count_true(outcomes) == outcomes.filter(|b: bool| b).len(),
    decreases outcomes.len(),
{
    reveal(Seq::filter);
    if outcomes.len() > 0 {
        lemma_count_true_counts_successes(outcomes.drop_last());
    }
}

/// The count of two runs of deletions one after the other is the sum of
/// their counts; one success counts one, one failure none.
pub proof fn lemma_count_true_adds(a: Seq<bool>, b: Seq<bool>)
    ensures
        count_true(a + b) == count_true(a) + count_true(b),
        count_true(seq![true]) == 1,
        count_true(seq![false]) == 0,
        count_true(Seq::<bool>::empty()) == 0,
    decreases b.len(),
{
    let t = seq![true];
    let f = seq![false];
    assert(t.len() == 1 && t.last());
    assert(f.len() == 1 && !f.last());
    assert(t.drop_last() =~= Seq::<bool>::empty());
    assert(f.drop_last() =~= Seq::<bool>::empty());
    assert(count_true(t.drop_last()) == 0);
    assert(count_true(f.drop_last()) == 0);
    if b.len() == 0 {
        assert(a + b =~= a);
    } else {
        lemma_count_true_adds(a, b.drop_last());
        assert((a + b).drop_last() =~= a + b.drop_last());
        assert((a + b).last() == b.last());
    }
}

/// How many of a cleanup's deletions succeeded, from their outcomes in
/// order.
pub fn removed_count(outcomes: &Vec<bool>) -> (n: usize)
    ensures
        n == count_true(outcomes@),
{
    let mut n: usize = 0;
    let mut i: usize = 0;
    while i < outcomes.len()
        invariant
            i <= outcomes.len(),
            n == count_true(outcomes@.take(i as int)),
            n <= i,
        decreases outcomes.len() - i,
    {
        proof {
            assert(outcomes@.take(i + 1).drop_last() =~= outcomes@.take(i as int));
            assert(outcomes@.take(i + 1).last() == outcomes@[i as int]);
        }
        if outcomes[i] {
            n = n + 1;
        }
        i = i + 1;
    }
    assert(outcomes@.take(outcomes.len() as int) =~= outcomes@);
    n
}

} // verus!
