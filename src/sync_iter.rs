use std::sync::Arc;

use vstd::multiset::Multiset;
use vstd::prelude::*;

use crate::error::SurrealError;
use crate::iter::{run_nexts, SnapshotIter};
use crate::shared::share_value;

verus! {

/// The elements that the successful calls among `outs` returned.
pub open spec fn successes<T>(outs: Seq<Result<T, SurrealError>>) -> Multiset<T>
    decreases outs.len(),
{
    if outs.len() == 0 {
        Multiset::empty()
    } else {
        let prev = successes(outs.drop_last());
        match outs.last() {
            Ok(x) => prev.insert(x),
            Err(_) => prev,
        }
    }
}

/// The elements that caller `c` obtained, when the i-th of the calls
/// `outs` was made by caller `sched[i]`.
pub open spec fn obtained<T>(outs: Seq<Result<T, SurrealError>>, sched: Seq<nat>, c: nat) -> Multiset<T>
    decreases outs.len(),
{
    if outs.len() == 0 {
        Multiset::empty()
    } else {
        let prev = obtained(outs.drop_last(), sched, c);
        match outs.last() {
            Ok(x) => if sched[outs.len() - 1] == c {
                prev.insert(x)
            } else {
                prev
            },
            Err(_) => prev,
        }
    }
}

/// The elements that callers `0 .. t` obtained, taken together.
pub open spec fn obtained_by_callers<T>(outs: Seq<Result<T, SurrealError>>, sched: Seq<nat>, t: nat) -> Multiset<T>
    decreases t,
{
    if t == 0 {
        Multiset::empty()
    } else {
        obtained_by_callers(outs, sched, (t - 1) as nat).add(obtained(outs, sched, (t - 1) as nat))
    }
}

proof fn lemma_callers_step<T>(outs: Seq<Result<T, SurrealError>>, sched: Seq<nat>, t: nat)
    requires
        outs.len() > 0,
    ensures
        obtained_by_callers(outs, sched, t) == (match outs.last() {
            Ok(x) => if sched[outs.len() - 1] < t {
                obtained_by_callers(outs.drop_last(), sched, t).insert(x)
            } else {
                obtained_by_callers(outs.drop_last(), sched, t)
            },
            Err(_) => obtained_by_callers(outs.drop_last(), sched, t),
        }),
    decreases t,
{
    if t > 0 {
        lemma_callers_step(outs, sched, (t - 1) as nat);
        let a = obtained_by_callers(outs, sched, t);
        let b = obtained_by_callers(outs.drop_last(), sched, t);
        match outs.last() {
            Ok(x) => {
                if sched[outs.len() - 1] < t {
                    assert(a =~= b.insert(x));
                } else {
                    assert(a =~= b);
                }
            },
            Err(_) => {
                assert(a =~= b);
            },
        }
    }
}

proof fn lemma_callers_cover<T>(outs: Seq<Result<T, SurrealError>>, sched: Seq<nat>, t: nat)
    requires
        sched.len() >= outs.len(),
        forall|i: int| 0 <= i < outs.len() ==> #[trigger] sched[i] < t,
    ensures
        obtained_by_callers(outs, sched, t) == successes(outs),
    decreases outs.len(),
{
    if outs.len() == 0 {
        lemma_callers_empty(outs, sched, t);
    } else {
        assert(sched[outs.len() - 1] < t);
        lemma_callers_cover(outs.drop_last(), sched, t);
        lemma_callers_step(outs, sched, t);
    }
}

proof fn lemma_callers_empty<T>(outs: Seq<Result<T, SurrealError>>, sched: Seq<nat>, t: nat)
    requires
        outs.len() == 0,
    ensures
        obtained_by_callers(outs, sched, t) == Multiset::<T>::empty(),
    decreases t,
{
    if t > 0 {
        lemma_callers_empty(outs, sched, (t - 1) as nat);
        assert(obtained_by_callers(outs, sched, t) =~= Multiset::<T>::empty());
    }
}

proof fn lemma_successes_conserve<T>(s: Seq<T>, n: nat)
    ensures
        successes(run_nexts(s, n).0).add(run_nexts(s, n).1.to_multiset()) == s.to_multiset(),
        n >= s.len() ==> run_nexts(s, n).1.len() == 0,
        run_nexts(s, n).0.len() == n,
        run_nexts(s, n).1.len() <= s.len(),
        n < s.len() ==> run_nexts(s, n).1.len() == s.len() - n,
    decreases n,
{
    broadcast use vstd::seq_lib::group_to_multiset_ensures;
    if n == 0 {
        assert(successes(run_nexts(s, 0).0) =~= Multiset::<T>::empty());
        assert(Multiset::<T>::empty().add(s.to_multiset()) =~= s.to_multiset());
    } else {
        lemma_successes_conserve(s, (n - 1) as nat);
        let prev = run_nexts(s, (n - 1) as nat);
        let cur = run_nexts(s, n);
        assert(cur.0.drop_last() =~= prev.0);
        if prev.1.len() > 0 {
            assert(prev.1.remove(0) =~= prev.1.drop_first());
            assert(prev.1.remove(0).to_multiset() =~= prev.1.to_multiset().remove(prev.1[0]));
            assert(successes(cur.0) == successes(prev.0).insert(prev.1[0]));
            assert(successes(cur.0).add(cur.1.to_multiset()) =~= successes(prev.0).add(prev.1.to_multiset()));
        } else {
            assert(successes(cur.0) == successes(prev.0));
        }
    }
}

/// Several callers draining a cursor over `s`, stated of the sequential
/// model `run_nexts`: the i-th of `sched.len()` successive `next` steps is
/// made by caller `sched[i]`, one of callers `0 .. t`. Once at least
/// `s.len()` steps have been made, the elements that all callers obtained,
/// taken together, are exactly those of `s`: none is lost and none is handed
/// out twice. It holds of `SyncSnapshotIter` only in so far as its lock
/// really turns concurrent calls into such a sequence of steps, each a
/// `step_at` from the stored position.
pub proof fn lemma_concurrent_drain<T>(s: Seq<T>, sched: Seq<nat>, t: nat)
    requires
        t >= 1,
        sched.len() >= s.len(),
        forall|i: int| 0 <= i < sched.len() ==> #[trigger] sched[i] < t,
    ensures
        obtained_by_callers(run_nexts(s, sched.len()).0, sched, t) == s.to_multiset(),
{
    broadcast use vstd::seq_lib::group_to_multiset_ensures;
    let n = sched.len();
    lemma_successes_conserve(s, n);
    let outs = run_nexts(s, n).0;
    assert forall|i: int| 0 <= i < outs.len() implies #[trigger] sched[i] < t by {}
    lemma_callers_cover(outs, sched, t);
    assert(run_nexts(s, n).1.to_multiset() =~= Multiset::<T>::empty());
    assert(successes(outs).add(Multiset::<T>::empty()) =~= successes(outs));
}

/// A cursor over a snapshot that several holders share, so that several
/// host threads may drain it at once. The snapshot itself is immutable; the
/// cursor's position sits behind a mutual-exclusion lock that is held for
/// the length of a single `has_next` or `next` call, so the calls form one
/// sequence of steps on the shared cursor. Elements are handed out as
/// shared pointers to the snapshot's payloads.
pub struct SyncSnapshotIter<T> {
    items: Arc<Vec<Arc<T>>>,
    position: SharedPosition,
}

/// The position of a shared cursor, behind its lock.
#[verifier::external_body]
struct SharedPosition {
    shared: Arc<parking_lot::Mutex<usize>>,
}

/// The held lock of a shared position.
#[verifier::external_body]
struct PositionGuard<'a> {
    guard: parking_lot::MutexGuard<'a, usize>,
}

/// Relies on `parking_lot::Mutex::new`: a new, unlocked lock around `start`.
#[verifier::external_body]
fn new_position(start: usize) -> SharedPosition {
    SharedPosition { shared: Arc::new(parking_lot::Mutex::new(start)) }
}

/// Relies on `Arc::clone`: a second owner of the same lock.
#[verifier::external_body]
fn share_position(p: &SharedPosition) -> SharedPosition {
    SharedPosition { shared: Arc::clone(&p.shared) }
}

/// Relies on `parking_lot::Mutex::lock`: returns once the caller holds the lock.
#[verifier::external_body]
fn lock_position(p: &SharedPosition) -> PositionGuard<'_> {
    PositionGuard { guard: p.shared.lock() }
}

/// Relies on `Deref` of `lock_api::MutexGuard`: the position that the held
/// lock protects. Other holders may have moved it; nothing is known of it.
#[verifier::external_body]
fn read_position(g: &PositionGuard) -> usize {
    *g.guard
}

/// Relies on `DerefMut` of `lock_api::MutexGuard`: stores `p` as the
/// position that the held lock protects.
#[verifier::external_body]
fn write_position(g: &mut PositionGuard, p: usize) {
    *g.guard = p;
}

impl<T> SyncSnapshotIter<T> {
    /// The elements of the snapshot the cursor was built over, in order.
    pub closed spec fn snapshot(&self) -> Seq<T> {
        self.items@.map_values(|a: Arc<T>| *a)
    }

    /// A shared cursor positioned before the first of `items`.
    pub fn new(items: Vec<T>) -> (r: SyncSnapshotIter<T>)
        ensures
            r.snapshot() == items@,
    {
        let ghost all = items@;
        let mut rest = SnapshotIter::new(items);
        let mut shared: Vec<Arc<T>> = Vec::new();
        while rest.has_next()
            invariant
                shared@.map_values(|a: Arc<T>| *a) + rest@ == all,
            decreases rest@.len(),
        {
            let ghost before = shared@;
            match rest.next() {
                Ok(x) => {
                    shared.push(Arc::new(x));
                    assert(shared@ =~= before.push(Arc::new(x)));
                    assert(shared@.map_values(|a: Arc<T>| *a) =~= before.map_values(|a: Arc<T>| *a).push(x));
                    assert(before.map_values(|a: Arc<T>| *a).push(x) + rest@ =~= before.map_values(|a: Arc<T>| *a) + (seq![x] + rest@));
                },
                Err(_) => {
                    proof {
                        assert(false);
                    }
                },
            }
        }
        assert(shared@.map_values(|a: Arc<T>| *a) =~= all);
        SyncSnapshotIter { items: Arc::new(shared), position: new_position(0) }
    }

    /// Another holder of this same shared cursor: the same snapshot, behind
    /// the same lock.
    pub fn share(&self) -> (r: SyncSnapshotIter<T>)
        ensures
            r.snapshot() == self.snapshot(),
    {
        SyncSnapshotIter { items: share_value(&self.items), position: share_position(&self.position) }
    }

    /// Whether an element remains when the shared position is `p`.
    pub fn remaining_at(&self, p: usize) -> (r: bool)
        ensures
            r == (p < self.snapshot().len()),
    {
        p < self.items.len()
    }

    /// One step of the cursor from position `p`: the element at `p` and the
    /// position after it, or `NoSuchElementException` and `p` unchanged
    /// once the snapshot is exhausted.
    pub fn step_at(&self, p: usize) -> (r: (Result<Arc<T>, SurrealError>, usize))
        ensures
            p < self.snapshot().len() ==> (r.0 matches Ok(x) && *x == self.snapshot()[p as int])
                && r.1 == p + 1,
            p >= self.snapshot().len() ==> r.0 == Err::<Arc<T>, SurrealError>(
                SurrealError::NoSuchElementException,
            ) && r.1 == p,
    {
        if p < self.items.len() {
            (Ok(share_value(&self.items[p])), p + 1)
        } else {
            (Err(SurrealError::NoSuchElementException), p)
        }
    }

    /// Whether an element remained at the moment of the call: the shared
    /// position, read under the lock, is tested by `remaining_at`. Other
    /// holders may drain the cursor before this caller's next call.
    pub fn has_next(&self) -> (r: bool)
        ensures
            self.snapshot().len() == 0 ==> !r,
    {
        let g = lock_position(&self.position);
        self.remaining_at(read_position(&g))
    }

    /// Advances the shared cursor under the lock: `step_at` from the shared
    /// position, whose result is returned and whose next position is stored
    /// back before the lock is released. Which element a caller receives
    /// depends on the other holders.
    pub fn next(&self) -> (r: Result<Arc<T>, SurrealError>)
        ensures
            r matches Err(e) ==> e == SurrealError::NoSuchElementException,
            self.snapshot().len() == 0 ==> r is Err,
            r matches Ok(x) ==> self.snapshot().contains(*x),
    {
        let mut g = lock_position(&self.position);
        let p = read_position(&g);
        let (r, after) = self.step_at(p);
        write_position(&mut g, after);
        proof {
            if p < self.snapshot().len() {
                assert(self.snapshot()[p as int] == *r->Ok_0);
            }
        }
        r
    }
}

} // verus!
