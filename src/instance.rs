use std::sync::Arc;

use vstd::prelude::*;

use crate::error::SurrealError;
use crate::iter::{next_step, SnapshotIter};
use crate::kind::JniTypes;
use crate::registry::{lookup, Registry, MAX_SLOTS};
use crate::shared::share_value;
use crate::sync_iter::SyncSnapshotIter;

verus! {

/// A value owned by the registry on behalf of the host: an engine session
/// `S`, a dynamic value `V` in its shared or under-construction form, a
/// cursor over values or over key/value entries, or a query response `R`.
#[verifier::reject_recursive_types(V)]
pub enum Instance<S, V, R> {
    Surreal(S),
    Value(Arc<V>),
    ValueMut(V),
    ArrayIter(SnapshotIter<V>),
    SyncArrayIter(SyncSnapshotIter<V>),
    KeyValueEntry(String, Arc<V>),
    KeyValueMutEntry(String, V),
    ObjectIter(SnapshotIter<(String, V)>),
    SyncObjectIter(SyncSnapshotIter<(String, V)>),
    Response(R),
}

/// The kind tag that belongs to each form of instance.
pub open spec fn kind_of<S, V, R>(i: Instance<S, V, R>) -> JniTypes {
    match i {
        Instance::Surreal(_) => JniTypes::Surreal,
        Instance::Value(_) => JniTypes::Value,
        Instance::ValueMut(_) => JniTypes::ValueMut,
        Instance::ArrayIter(_) => JniTypes::ArrayIter,
        Instance::SyncArrayIter(_) => JniTypes::SyncArrayIter,
        Instance::KeyValueEntry(_, _) => JniTypes::KeyValueEntry,
        Instance::KeyValueMutEntry(_, _) => JniTypes::KeyValueMutEntry,
        Instance::ObjectIter(_) => JniTypes::ObjectIter,
        Instance::SyncObjectIter(_) => JniTypes::SyncObjectIter,
        Instance::Response(_) => JniTypes::Response,
    }
}

/// The shared value held by `i`, if it is one.
pub open spec fn shared_value<S, V, R>(i: Instance<S, V, R>) -> Option<V> {
    match i {
        Instance::Value(a) => Some(*a),
        _ => None,
    }
}

/// The key and shared value held by `i`, if it is an entry.
pub open spec fn shared_entry<S, V, R>(i: Instance<S, V, R>) -> Option<(Seq<char>, V)> {
    match i {
        Instance::KeyValueEntry(k, a) => Some((k@, *a)),
        _ => None,
    }
}

/// The remaining elements of `i`, if it is a cursor over values.
pub open spec fn value_cursor<S, V, R>(i: Instance<S, V, R>) -> Option<Seq<V>> {
    match i {
        Instance::ArrayIter(it) => Some(it@),
        _ => None,
    }
}

/// The remaining entries of `i`, if it is a cursor over entries.
pub open spec fn entry_cursor<S, V, R>(i: Instance<S, V, R>) -> Option<Seq<(String, V)>> {
    match i {
        Instance::ObjectIter(it) => Some(it@),
        _ => None,
    }
}

/// Taking, in turn, the values under construction behind `hs` out of the
/// live handles `m`: the values taken, or the first failure, and the live
/// handles left. A handle that is taken no longer counts, so a handle named
/// twice fails the second time.
pub open spec fn take_values_run<S, V, R>(m: Map<i64, (Instance<S, V, R>, JniTypes)>, hs: Seq<i64>)
    -> (Result<Seq<V>, SurrealError>, Map<i64, (Instance<S, V, R>, JniTypes)>)
    decreases hs.len(),
{
    if hs.len() == 0 {
        (Ok(Seq::empty()), m)
    } else {
        let prev = take_values_run(m, hs.drop_last());
        match prev.0 {
            Err(e) => (Err(e), prev.1),
            Ok(vs) => match lookup(prev.1, hs.last(), JniTypes::ValueMut) {
                Err(e) => (Err(e), prev.1),
                Ok(Instance::ValueMut(x)) => (Ok(vs.push(x)), prev.1.remove(hs.last())),
                Ok(_) => (Err(SurrealError::NullPointerException(JniTypes::ValueMut)), prev.1.remove(hs.last())),
            },
        }
    }
}

/// Taking, in turn, the entries under construction behind `hs` out of the
/// live handles `m`, in the same way as `take_values_run`.
pub open spec fn take_entries_run<S, V, R>(m: Map<i64, (Instance<S, V, R>, JniTypes)>, hs: Seq<i64>)
    -> (Result<Seq<(String, V)>, SurrealError>, Map<i64, (Instance<S, V, R>, JniTypes)>)
    decreases hs.len(),
{
    if hs.len() == 0 {
        (Ok(Seq::empty()), m)
    } else {
        let prev = take_entries_run(m, hs.drop_last());
        match prev.0 {
            Err(e) => (Err(e), prev.1),
            Ok(es) => match lookup(prev.1, hs.last(), JniTypes::KeyValueMutEntry) {
                Err(e) => (Err(e), prev.1),
                Ok(Instance::KeyValueMutEntry(k, x)) => (Ok(es.push((k, x))), prev.1.remove(hs.last())),
                Ok(_) => (Err(SurrealError::NullPointerException(JniTypes::KeyValueMutEntry)), prev.1.remove(hs.last())),
            },
        }
    }
}

proof fn lemma_take_values_stops<S, V, R>(m: Map<i64, (Instance<S, V, R>, JniTypes)>, hs: Seq<i64>, n: int)
    requires
        0 <= n <= hs.len(),
        take_values_run(m, hs.take(n)).0 is Err,
    ensures
        take_values_run(m, hs) == take_values_run(m, hs.take(n)),
    decreases hs.len() - n,
{
    if n < hs.len() {
        assert(hs.take(n + 1).drop_last() =~= hs.take(n));
        lemma_take_values_stops(m, hs, n + 1);
    } else {
        assert(hs.take(n) =~= hs);
    }
}

proof fn lemma_take_entries_stops<S, V, R>(m: Map<i64, (Instance<S, V, R>, JniTypes)>, hs: Seq<i64>, n: int)
    requires
        0 <= n <= hs.len(),
        take_entries_run(m, hs.take(n)).0 is Err,
    ensures
        take_entries_run(m, hs) == take_entries_run(m, hs.take(n)),
    decreases hs.len() - n,
{
    if n < hs.len() {
        assert(hs.take(n + 1).drop_last() =~= hs.take(n));
        lemma_take_entries_stops(m, hs, n + 1);
    } else {
        assert(hs.take(n) =~= hs);
    }
}

impl<S, V, R> Instance<S, V, R> {
    /// The kind tag that belongs to this instance.
    pub fn kind(&self) -> (r: JniTypes)
        ensures
            r == kind_of(*self),
    {
        match self {
            Instance::Surreal(_) => JniTypes::Surreal,
            Instance::Value(_) => JniTypes::Value,
            Instance::ValueMut(_) => JniTypes::ValueMut,
            Instance::ArrayIter(_) => JniTypes::ArrayIter,
            Instance::SyncArrayIter(_) => JniTypes::SyncArrayIter,
            Instance::KeyValueEntry(_, _) => JniTypes::KeyValueEntry,
            Instance::KeyValueMutEntry(_, _) => JniTypes::KeyValueMutEntry,
            Instance::ObjectIter(_) => JniTypes::ObjectIter,
            Instance::SyncObjectIter(_) => JniTypes::SyncObjectIter,
            Instance::Response(_) => JniTypes::Response,
        }
    }
}

impl<S, V, R> Registry<Instance<S, V, R>> {
    /// Registers `i` under a fresh handle, tagged with its own kind.
    pub fn register(&mut self, i: Instance<S, V, R>) -> (h: i64)
        requires
            old(self).wf(),
            old(self).spec_slot_count() < MAX_SLOTS,
        ensures
            final(self).wf(),
            h >= 1,
            !old(self).issued().contains(h),
            final(self).issued() == old(self).issued().insert(h),
            final(self)@ == old(self)@.insert(h, (i, kind_of(i))),
            final(self).spec_slot_count() <= old(self).spec_slot_count() + 1,
    {
        let k = i.kind();
        self.create_instance(i, k)
    }

    /// `hasNext` on the cursor over values behind `h`.
    pub fn value_iterator_has_next(&self, h: i64) -> (r: Result<bool, SurrealError>)
        requires
            self.wf(),
        ensures
            match lookup(self@, h, JniTypes::ArrayIter) {
                Err(e) => r == Err::<bool, SurrealError>(e),
                Ok(i) => match value_cursor(i) {
                    Some(s) => r == Ok::<bool, SurrealError>(s.len() > 0),
                    None => r == Err::<bool, SurrealError>(SurrealError::NullPointerException(JniTypes::ArrayIter)),
                },
            },
    {
        match self.get_instance(h, JniTypes::ArrayIter) {
            Err(e) => Err(e),
            Ok(Instance::ArrayIter(it)) => Ok(it.has_next()),
            Ok(_) => Err(SurrealError::NullPointerException(JniTypes::ArrayIter)),
        }
    }

    /// `next` on the cursor over values behind `h`: the cursor advances, and
    /// the element it passed is registered as a new shared value, whose
    /// handle is returned.
    pub fn value_iterator_next(&mut self, h: i64) -> (r: Result<i64, SurrealError>)
        requires
            old(self).wf(),
            old(self).spec_slot_count() < MAX_SLOTS,
        ensures
            final(self).wf(),
            final(self).spec_slot_count() <= old(self).spec_slot_count() + 1,
            match lookup(old(self)@, h, JniTypes::ArrayIter) {
                Err(e) => {
                    &&& r == Err::<i64, SurrealError>(e)
                    &&& final(self)@ == old(self)@
                    &&& final(self).issued() == old(self).issued()
                },
                Ok(i) => match value_cursor(i) {
                    None => {
                        &&& r == Err::<i64, SurrealError>(SurrealError::NullPointerException(JniTypes::ArrayIter))
                        &&& final(self)@ == old(self)@
                        &&& final(self).issued() == old(self).issued()
                    },
                    Some(s) => {
                        &&& final(self)@.contains_key(h)
                        &&& final(self)@[h].1 == JniTypes::ArrayIter
                        &&& value_cursor(final(self)@[h].0) == Some(next_step(s).1)
                        &&& match next_step(s).0 {
                            Ok(x) => r matches Ok(hv) && {
                                &&& hv != h
                                &&& !old(self).issued().contains(hv)
                                &&& final(self).issued() == old(self).issued().insert(hv)
                                &&& final(self)@.contains_key(hv)
                                &&& final(self)@[hv].1 == JniTypes::Value
                                &&& shared_value(final(self)@[hv].0) == Some(x)
                                &&& final(self)@.remove(h).remove(hv) == old(self)@.remove(h)
                            },
                            Err(e) => {
                                &&& r == Err::<i64, SurrealError>(e)
                                &&& final(self).issued() == old(self).issued()
                                &&& final(self)@.remove(h) == old(self)@.remove(h)
                            },
                        }
                    },
                },
            },
    {
        proof {
            self.lemma_live_were_issued();
        }
        let ghost before = self@;
        let out = match self.get_instance_mut(h, JniTypes::ArrayIter) {
            Err(e) => {
                return Err(e);
            },
            Ok(Instance::ArrayIter(it)) => it.next(),
            Ok(_) => {
                return Err(SurrealError::NullPointerException(JniTypes::ArrayIter));
            },
        };
        assert(self@.remove(h) =~= before.remove(h));
        match out {
            Ok(x) => {
                let hv = self.register(Instance::Value(Arc::new(x)));
                assert(self@.remove(h).remove(hv) =~= before.remove(h));
                Ok(hv)
            },
            Err(e) => Err(e),
        }
    }

    /// `hasNext` on the cursor over entries behind `h`.
    pub fn entry_iterator_has_next(&self, h: i64) -> (r: Result<bool, SurrealError>)
        requires
            self.wf(),
        ensures
            match lookup(self@, h, JniTypes::ObjectIter) {
                Err(e) => r == Err::<bool, SurrealError>(e),
                Ok(i) => match entry_cursor(i) {
                    Some(s) => r == Ok::<bool, SurrealError>(s.len() > 0),
                    None => r == Err::<bool, SurrealError>(SurrealError::NullPointerException(JniTypes::ObjectIter)),
                },
            },
    {
        match self.get_instance(h, JniTypes::ObjectIter) {
            Err(e) => Err(e),
            Ok(Instance::ObjectIter(it)) => Ok(it.has_next()),
            Ok(_) => Err(SurrealError::NullPointerException(JniTypes::ObjectIter)),
        }
    }

    /// `next` on the cursor over entries behind `h`: the cursor advances,
    /// and the entry it passed is registered as a new shared entry, whose
    /// handle is returned.
    pub fn entry_iterator_next(&mut self, h: i64) -> (r: Result<i64, SurrealError>)
        requires
            old(self).wf(),
            old(self).spec_slot_count() < MAX_SLOTS,
        ensures
            final(self).wf(),
            final(self).spec_slot_count() <= old(self).spec_slot_count() + 1,
            match lookup(old(self)@, h, JniTypes::ObjectIter) {
                Err(e) => {
                    &&& r == Err::<i64, SurrealError>(e)
                    &&& final(self)@ == old(self)@
                    &&& final(self).issued() == old(self).issued()
                },
                Ok(i) => match entry_cursor(i) {
                    None => {
                        &&& r == Err::<i64, SurrealError>(SurrealError::NullPointerException(JniTypes::ObjectIter))
                        &&& final(self)@ == old(self)@
                        &&& final(self).issued() == old(self).issued()
                    },
                    Some(s) => {
                        &&& final(self)@.contains_key(h)
                        &&& final(self)@[h].1 == JniTypes::ObjectIter
                        &&& entry_cursor(final(self)@[h].0) == Some(next_step(s).1)
                        &&& match next_step(s).0 {
                            Ok(x) => r matches Ok(hv) && {
                                &&& hv != h
                                &&& !old(self).issued().contains(hv)
                                &&& final(self).issued() == old(self).issued().insert(hv)
                                &&& final(self)@.contains_key(hv)
                                &&& final(self)@[hv].1 == JniTypes::KeyValueEntry
                                &&& shared_entry(final(self)@[hv].0) == Some((x.0@, x.1))
                                &&& final(self)@.remove(h).remove(hv) == old(self)@.remove(h)
                            },
                            Err(e) => {
                                &&& r == Err::<i64, SurrealError>(e)
                                &&& final(self).issued() == old(self).issued()
                                &&& final(self)@.remove(h) == old(self)@.remove(h)
                            },
                        }
                    },
                },
            },
    {
        proof {
            self.lemma_live_were_issued();
        }
        let ghost before = self@;
        let out = match self.get_instance_mut(h, JniTypes::ObjectIter) {
            Err(e) => {
                return Err(e);
            },
            Ok(Instance::ObjectIter(it)) => it.next(),
            Ok(_) => {
                return Err(SurrealError::NullPointerException(JniTypes::ObjectIter));
            },
        };
        assert(self@.remove(h) =~= before.remove(h));
        match out {
            Ok((key, value)) => {
                let hv = self.register(Instance::KeyValueEntry(key, Arc::new(value)));
                assert(self@.remove(h).remove(hv) =~= before.remove(h));
                Ok(hv)
            },
            Err(e) => Err(e),
        }
    }

    /// Another holder of the shared cursor over values behind `h`, so that
    /// it can be advanced without holding the registry.
    pub fn sync_value_iterator(&self, h: i64) -> (r: Result<SyncSnapshotIter<V>, SurrealError>)
        requires
            self.wf(),
        ensures
            r is Ok <==> lookup(self@, h, JniTypes::SyncArrayIter) matches Ok(Instance::SyncArrayIter(_)),
            r matches Ok(it) ==> (lookup(self@, h, JniTypes::SyncArrayIter) matches Ok(Instance::SyncArrayIter(s))
                && it.snapshot() == s.snapshot()),
            r matches Err(e) ==> e == (match lookup(self@, h, JniTypes::SyncArrayIter) {
                Err(e2) => e2,
                Ok(_) => SurrealError::NullPointerException(JniTypes::SyncArrayIter),
            }),
    {
        match self.get_instance(h, JniTypes::SyncArrayIter) {
            Err(e) => Err(e),
            Ok(Instance::SyncArrayIter(it)) => Ok(it.share()),
            Ok(_) => Err(SurrealError::NullPointerException(JniTypes::SyncArrayIter)),
        }
    }

    /// Another holder of the shared cursor over entries behind `h`, so that
    /// it can be advanced without holding the registry.
    pub fn sync_entry_iterator(&self, h: i64) -> (r: Result<SyncSnapshotIter<(String, V)>, SurrealError>)
        requires
            self.wf(),
        ensures
            r is Ok <==> lookup(self@, h, JniTypes::SyncObjectIter) matches Ok(Instance::SyncObjectIter(_)),
            r matches Ok(it) ==> (lookup(self@, h, JniTypes::SyncObjectIter) matches Ok(Instance::SyncObjectIter(s))
                && it.snapshot() == s.snapshot()),
            r matches Err(e) ==> e == (match lookup(self@, h, JniTypes::SyncObjectIter) {
                Err(e2) => e2,
                Ok(_) => SurrealError::NullPointerException(JniTypes::SyncObjectIter),
            }),
    {
        match self.get_instance(h, JniTypes::SyncObjectIter) {
            Err(e) => Err(e),
            Ok(Instance::SyncObjectIter(it)) => Ok(it.share()),
            Ok(_) => Err(SurrealError::NullPointerException(JniTypes::SyncObjectIter)),
        }
    }

    /// Registers each of `vals`, in order, as a new shared value, and
    /// returns their handles in the same order.
    pub fn register_values(&mut self, vals: Vec<V>) -> (r: Vec<i64>)
        requires
            old(self).wf(),
            old(self).spec_slot_count() + vals@.len() <= MAX_SLOTS,
        ensures
            final(self).wf(),
            final(self).spec_slot_count() <= old(self).spec_slot_count() + vals@.len(),
            r@.len() == vals@.len(),
            forall|i: int| 0 <= i < r@.len() ==> {
                &&& !old(self).issued().contains(#[trigger] r@[i])
                &&& final(self)@.contains_key(r@[i])
                &&& final(self)@[r@[i]].1 == JniTypes::Value
                &&& shared_value(final(self)@[r@[i]].0) == Some(vals@[i])
            },
            forall|i: int, j: int| 0 <= i < j < r@.len() ==> #[trigger] r@[i] != #[trigger] r@[j],
            forall|h: i64| #[trigger] final(self).issued().contains(h)
                <==> old(self).issued().contains(h) || r@.contains(h),
            forall|h: i64| #[trigger] final(self)@.contains_key(h) && !r@.contains(h)
                ==> old(self)@.contains_key(h) && final(self)@[h] == old(self)@[h],
            forall|h: i64| #[trigger] old(self)@.contains_key(h) ==> final(self)@.contains_key(h),
    {
        let ghost all = vals@;
        let ghost start = *self;
        let mut rest = SnapshotIter::new(vals);
        let mut r: Vec<i64> = Vec::new();
        proof {
            start.lemma_live_were_issued();
        }
        while rest.has_next()
            invariant
                self.wf(),
                self.spec_slot_count() <= start.spec_slot_count() + r@.len(),
                r@.len() + rest@.len() == all.len(),
                rest@ == all.skip(r@.len() as int),
                start.spec_slot_count() + all.len() <= MAX_SLOTS,
                forall|h: i64| #[trigger] start@.contains_key(h) ==> start.issued().contains(h),
                forall|i: int| 0 <= i < r@.len() ==> {
                    &&& !start.issued().contains(#[trigger] r@[i])
                    &&& self@.contains_key(r@[i])
                    &&& self@[r@[i]].1 == JniTypes::Value
                    &&& shared_value(self@[r@[i]].0) == Some(all[i])
                },
                forall|i: int, j: int| 0 <= i < j < r@.len() ==> #[trigger] r@[i] != #[trigger] r@[j],
                forall|h: i64| #[trigger] self.issued().contains(h)
                    <==> start.issued().contains(h) || r@.contains(h),
                forall|h: i64| #[trigger] self@.contains_key(h) && !r@.contains(h)
                    ==> start@.contains_key(h) && self@[h] == start@[h],
                forall|h: i64| #[trigger] start@.contains_key(h) ==> self@.contains_key(h),
            decreases rest@.len(),
        {
            let ghost prev = *self;
            let ghost prev_r = r@;
            match rest.next() {
                Ok(x) => {
                    assert(x == all[prev_r.len() as int]);
                    let h = self.register(Instance::Value(Arc::new(x)));
                    r.push(h);
                    proof {
                        assert(r@ =~= prev_r.push(h));
                        assert(rest@ =~= all.skip(r@.len() as int));
                        assert forall|i: int| 0 <= i < prev_r.len() implies #[trigger] r@[i] != h by {
                            assert(prev.issued().contains(prev_r[i]));
                        }
                        assert forall|y: i64| #[trigger] r@.contains(y) <==> prev_r.contains(y) || y == h by {
                            if y != h && r@.contains(y) {
                                let k = choose|k: int| 0 <= k < r@.len() && r@[k] == y;
                                assert(prev_r[k] == y);
                            }
                            if prev_r.contains(y) {
                                let k = choose|k: int| 0 <= k < prev_r.len() && prev_r[k] == y;
                                assert(r@[k] == y);
                            }
                            if y == h {
                                assert(r@[r@.len() - 1] == h);
                            }
                        }
                        assert forall|h2: i64| #[trigger] self.issued().contains(h2)
                            <==> start.issued().contains(h2) || r@.contains(h2) by {
                            assert(prev.issued().contains(h2) <==> start.issued().contains(h2) || prev_r.contains(h2));
                        }
                        assert forall|h2: i64| #[trigger] self@.contains_key(h2) && !r@.contains(h2)
                            implies start@.contains_key(h2) && self@[h2] == start@[h2] by {
                            assert(prev@.contains_key(h2));
                        }
                        assert forall|h2: i64| #[trigger] start@.contains_key(h2) implies self@.contains_key(h2) by {
                            assert(prev@.contains_key(h2));
                        }
                    }
                },
                Err(_) => {
                    proof {
                        assert(false);
                    }
                },
            }
        }
        r
    }

    /// Moves the value under construction behind `v` into a new entry keyed
    /// by `key`; the handle `v` is dead afterwards.
    pub fn entry_mut_create(&mut self, key: String, v: i64) -> (r: Result<i64, SurrealError>)
        requires
            old(self).wf(),
            old(self).spec_slot_count() < MAX_SLOTS,
        ensures
            final(self).wf(),
            final(self).spec_slot_count() <= old(self).spec_slot_count() + 1,
            match lookup(old(self)@, v, JniTypes::ValueMut) {
                Ok(Instance::ValueMut(x)) => r matches Ok(h) && {
                    &&& !old(self).issued().contains(h)
                    &&& final(self).issued() == old(self).issued().insert(h)
                    &&& final(self)@ == old(self)@.remove(v).insert(h, (Instance::KeyValueMutEntry(key, x), JniTypes::KeyValueMutEntry))
                },
                Ok(_) => {
                    &&& r == Err::<i64, SurrealError>(SurrealError::NullPointerException(JniTypes::ValueMut))
                    &&& final(self)@ == old(self)@.remove(v)
                    &&& final(self).issued() == old(self).issued()
                },
                Err(e) => {
                    &&& r == Err::<i64, SurrealError>(e)
                    &&& final(self)@ == old(self)@
                    &&& final(self).issued() == old(self).issued()
                },
            },
    {
        match self.take_instance(v, JniTypes::ValueMut) {
            Err(e) => Err(e),
            Ok(Instance::ValueMut(x)) => Ok(self.register(Instance::KeyValueMutEntry(key, x))),
            Ok(_) => Err(SurrealError::NullPointerException(JniTypes::ValueMut)),
        }
    }

    /// The key of the shared entry behind `h`.
    pub fn entry_key(&self, h: i64) -> (r: Result<String, SurrealError>)
        requires
            self.wf(),
        ensures
            match lookup(self@, h, JniTypes::KeyValueEntry) {
                Err(e) => r == Err::<String, SurrealError>(e),
                Ok(i) => match shared_entry(i) {
                    Some(kv) => r matches Ok(k) && k@ == kv.0,
                    None => r == Err::<String, SurrealError>(SurrealError::NullPointerException(JniTypes::KeyValueEntry)),
                },
            },
    {
        match self.get_instance(h, JniTypes::KeyValueEntry) {
            Err(e) => Err(e),
            Ok(Instance::KeyValueEntry(k, _)) => Ok(k.clone()),
            Ok(_) => Err(SurrealError::NullPointerException(JniTypes::KeyValueEntry)),
        }
    }

    /// Registers the value of the shared entry behind `h` under a new
    /// handle; entry and new handle share the one immutable payload.
    pub fn entry_value(&mut self, h: i64) -> (r: Result<i64, SurrealError>)
        requires
            old(self).wf(),
            old(self).spec_slot_count() < MAX_SLOTS,
        ensures
            final(self).wf(),
            final(self).spec_slot_count() <= old(self).spec_slot_count() + 1,
            match lookup(old(self)@, h, JniTypes::KeyValueEntry) {
                Err(e) => r == Err::<i64, SurrealError>(e) && final(self)@ == old(self)@,
                Ok(i) => match shared_entry(i) {
                    Some(kv) => r matches Ok(hv) && {
                        &&& !old(self).issued().contains(hv)
                        &&& final(self).issued() == old(self).issued().insert(hv)
                        &&& final(self)@.remove(hv) == old(self)@
                        &&& final(self)@.contains_key(hv)
                        &&& final(self)@[hv].1 == JniTypes::Value
                        &&& shared_value(final(self)@[hv].0) == Some(kv.1)
                    },
                    None => {
                        &&& r == Err::<i64, SurrealError>(SurrealError::NullPointerException(JniTypes::KeyValueEntry))
                        &&& final(self)@ == old(self)@
                    },
                },
            },
    {
        proof {
            self.lemma_live_were_issued();
        }
        let a = match self.get_instance(h, JniTypes::KeyValueEntry) {
            Err(e) => {
                return Err(e);
            },
            Ok(Instance::KeyValueEntry(_, a)) => share_value(a),
            Ok(_) => {
                return Err(SurrealError::NullPointerException(JniTypes::KeyValueEntry));
            },
        };
        let ghost before = self@;
        let hv = self.register(Instance::Value(a));
        assert(self@.remove(hv) =~= before);
        Ok(hv)
    }

    /// A second pointer to the shared value behind `h`.
    pub fn shared_value_of(&self, h: i64) -> (r: Result<Arc<V>, SurrealError>)
        requires
            self.wf(),
        ensures
            match lookup(self@, h, JniTypes::Value) {
                Err(e) => r == Err::<Arc<V>, SurrealError>(e),
                Ok(i) => match shared_value(i) {
                    Some(x) => r matches Ok(a) && *a == x,
                    None => r == Err::<Arc<V>, SurrealError>(SurrealError::NullPointerException(JniTypes::Value)),
                },
            },
    {
        match self.get_instance(h, JniTypes::Value) {
            Err(e) => Err(e),
            Ok(Instance::Value(a)) => Ok(share_value(a)),
            Ok(_) => Err(SurrealError::NullPointerException(JniTypes::Value)),
        }
    }

    /// Takes the values under construction behind `hs` out of the registry,
    /// in order, stopping at the first handle that fails; the handles taken
    /// before it stay taken.
    pub fn take_values(&mut self, hs: &Vec<i64>) -> (r: Result<Vec<V>, SurrealError>)
        requires
            old(self).wf(),
        ensures
            final(self).wf(),
            final(self).issued() == old(self).issued(),
            final(self).spec_slot_count() == old(self).spec_slot_count(),
            final(self)@ == take_values_run(old(self)@, hs@).1,
            match take_values_run(old(self)@, hs@).0 {
                Ok(vs) => r matches Ok(v) && v@ == vs,
                Err(e) => r == Err::<Vec<V>, SurrealError>(e),
            },
    {
        let ghost start = self@;
        let mut out: Vec<V> = Vec::new();
        let mut i: usize = 0;
        while i < hs.len()
            invariant
                self.wf(),
                self.issued() == old(self).issued(),
                self.spec_slot_count() == old(self).spec_slot_count(),
                start == old(self)@,
                i <= hs@.len(),
                take_values_run(start, hs@.take(i as int)) == (Ok::<Seq<V>, SurrealError>(out@), self@),
            decreases hs@.len() - i,
        {
            proof {
                assert(hs@.take(i as int + 1).drop_last() =~= hs@.take(i as int));
            }
            match self.take_instance(hs[i], JniTypes::ValueMut) {
                Err(e) => {
                    proof {
                        lemma_take_values_stops(start, hs@, i as int + 1);
                    }
                    return Err(e);
                },
                Ok(Instance::ValueMut(x)) => {
                    out.push(x);
                },
                Ok(_) => {
                    proof {
                        lemma_take_values_stops(start, hs@, i as int + 1);
                    }
                    return Err(SurrealError::NullPointerException(JniTypes::ValueMut));
                },
            }
            i = i + 1;
        }
        proof {
            assert(hs@.take(hs@.len() as int) =~= hs@);
        }
        Ok(out)
    }

    /// Takes the entries under construction behind `hs` out of the registry,
    /// in order, stopping at the first handle that fails; the handles taken
    /// before it stay taken.
    pub fn take_entries(&mut self, hs: &Vec<i64>) -> (r: Result<Vec<(String, V)>, SurrealError>)
        requires
            old(self).wf(),
        ensures
            final(self).wf(),
            final(self).issued() == old(self).issued(),
            final(self).spec_slot_count() == old(self).spec_slot_count(),
            final(self)@ == take_entries_run(old(self)@, hs@).1,
            match take_entries_run(old(self)@, hs@).0 {
                Ok(es) => r matches Ok(v) && v@ == es,
                Err(e) => r == Err::<Vec<(String, V)>, SurrealError>(e),
            },
    {
        let ghost start = self@;
        let mut out: Vec<(String, V)> = Vec::new();
        let mut i: usize = 0;
        while i < hs.len()
            invariant
                self.wf(),
                self.issued() == old(self).issued(),
                self.spec_slot_count() == old(self).spec_slot_count(),
                start == old(self)@,
                i <= hs@.len(),
                take_entries_run(start, hs@.take(i as int)) == (Ok::<Seq<(String, V)>, SurrealError>(out@), self@),
            decreases hs@.len() - i,
        {
            proof {
                assert(hs@.take(i as int + 1).drop_last() =~= hs@.take(i as int));
            }
            match self.take_instance(hs[i], JniTypes::KeyValueMutEntry) {
                Err(e) => {
                    proof {
                        lemma_take_entries_stops(start, hs@, i as int + 1);
                    }
                    return Err(e);
                },
                Ok(Instance::KeyValueMutEntry(k, x)) => {
                    out.push((k, x));
                },
                Ok(_) => {
                    proof {
                        lemma_take_entries_stops(start, hs@, i as int + 1);
                    }
                    return Err(SurrealError::NullPointerException(JniTypes::KeyValueMutEntry));
                },
            }
            i = i + 1;
        }
        proof {
            assert(hs@.take(hs@.len() as int) =~= hs@);
        }
        Ok(out)
    }
}

} // verus!
