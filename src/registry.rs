use vstd::arithmetic::div_mod::lemma_fundamental_div_mod_converse;
use vstd::prelude::*;

use crate::error::SurrealError;
use crate::kind::JniTypes;

verus! {

/// Number of distinct slot indices a handle can encode.
pub const SLOT_SPAN: i64 = 4294967296;

/// The most slots a registry ever allocates.
pub const MAX_SLOTS: usize = 4294967295;

/// The last generation a slot can reach; a slot released at this
/// generation is retired for good.
pub const MAX_GENERATION: u32 = 2147483647;

/// The handle that denotes slot `index` at `generation`.
pub open spec fn handle_of(index: int, generation: int) -> int {
    generation * SLOT_SPAN + index + 1
}

/// The slot index that handle `h` denotes.
pub open spec fn index_of(h: int) -> int {
    (h - 1) % SLOT_SPAN as int
}

/// The slot generation that handle `h` denotes.
pub open spec fn generation_of(h: int) -> int {
    (h - 1) / SLOT_SPAN as int
}

proof fn lemma_handle_parts(index: int, generation: int)
    requires
        0 <= index < SLOT_SPAN,
        0 <= generation,
    ensures
        index_of(handle_of(index, generation)) == index,
        generation_of(handle_of(index, generation)) == generation,
{
    lemma_fundamental_div_mod_converse(
        handle_of(index, generation) - 1,
        SLOT_SPAN as int,
        generation,
        index,
    );
}

proof fn lemma_handle_decomposes(h: int)
    requires
        h >= 1,
    ensures
        0 <= index_of(h) < SLOT_SPAN,
        0 <= generation_of(h),
        h == handle_of(index_of(h), generation_of(h)),
{
}

/// What a registry answers for `borrow(h, k)`, given the live handles `m`.
pub open spec fn lookup<P>(m: Map<i64, (P, JniTypes)>, h: i64, k: JniTypes) -> Result<P, SurrealError> {
    if h == 0 || !m.contains_key(h) {
        Err(SurrealError::NullPointerException(k))
    } else if m[h].1 != k {
        Err(SurrealError::WrongType { expected: k, found: m[h].1 })
    } else {
        Ok(m[h].0)
    }
}

/// Borrowing a value just registered under the fresh, non-zero handle `h`
/// with its own kind yields that value.
pub proof fn lemma_create_then_borrow<P>(m: Map<i64, (P, JniTypes)>, h: i64, v: P, k: JniTypes)
    requires
        h != 0,
        !m.contains_key(h),
    ensures
        lookup(m.insert(h, (v, k)), h, k) == Ok::<P, SurrealError>(v),
{
}

/// What a borrow of `h` yields is unchanged by registering or removing any
/// other handle, so it repeats until `h` itself is taken or released.
pub proof fn lemma_borrow_unaffected<P>(
    m: Map<i64, (P, JniTypes)>,
    h: i64,
    k: JniTypes,
    other: i64,
    e: (P, JniTypes),
)
    requires
        other != h,
    ensures
        lookup(m.insert(other, e), h, k) == lookup(m, h, k),
        lookup(m.remove(other), h, k) == lookup(m, h, k),
{
}

/// Once `h` is taken or released, a borrow of it yields
/// `NullPointerException`, whatever kind is asked for.
pub proof fn lemma_take_then_borrow<P>(m: Map<i64, (P, JniTypes)>, h: i64, k: JniTypes)
    ensures
        lookup(m.remove(h), h, k) == Err::<P, SurrealError>(SurrealError::NullPointerException(k)),
{
}

/// A handle that was handed out and is no longer live stays dead: a later
/// registration gets a handle never handed out before, and removals only
/// shrink the live set.
pub proof fn lemma_dead_handle_stays_dead<P>(
    m: Map<i64, (P, JniTypes)>,
    issued: Set<i64>,
    h: i64,
    fresh: i64,
    e: (P, JniTypes),
    other: i64,
)
    requires
        issued.contains(h),
        !m.contains_key(h),
        !issued.contains(fresh),
    ensures
        !m.insert(fresh, e).contains_key(h),
        !m.remove(other).contains_key(h),
{
}

/// The zero handle never denotes a value: borrowing it yields
/// `NullPointerException` for every kind and every registry.
pub proof fn lemma_zero_never_borrows<P>(m: Map<i64, (P, JniTypes)>, k: JniTypes)
    ensures
        lookup(m, 0, k) == Err::<P, SurrealError>(SurrealError::NullPointerException(k)),
{
}

struct Slot<P> {
    generation: u32,
    entry: Option<(P, JniTypes)>,
}

/// A generation-counted slot arena that owns values on behalf of the
/// host and hands out non-zero `i64` handles for them. A released slot is
/// reused only under a newer generation, so a stale handle never reaches
/// the value that replaced it.
pub struct Registry<P> {
    slots: Vec<Slot<P>>,
    free: Vec<usize>,
    issued: Ghost<Set<i64>>,
}

impl<P> View for Registry<P> {
    /// The live handles, each with its value and kind tag.
    type V = Map<i64, (P, JniTypes)>;

    closed spec fn view(&self) -> Map<i64, (P, JniTypes)> {
        Map::new(|h: i64| self.holds(h), |h: i64| self.slots@[index_of(h as int)].entry->Some_0)
    }
}

impl<P> Registry<P> {
    spec fn holds(&self, h: i64) -> bool {
        &&& h >= 1
        &&& index_of(h as int) < self.slots@.len()
        &&& self.slots@[index_of(h as int)].generation == generation_of(h as int)
        &&& self.slots@[index_of(h as int)].entry is Some
    }

    /// Every handle this registry has ever handed out.
    pub closed spec fn issued(&self) -> Set<i64> {
        self.issued@
    }

    /// How many slots have been allocated so far.
    pub closed spec fn spec_slot_count(&self) -> nat {
        self.slots@.len()
    }

    /// The registry's internal invariant.
    pub closed spec fn wf(&self) -> bool {
        &&& self.slots@.len() <= MAX_SLOTS
        &&& forall|i: int| 0 <= i < self.slots@.len() ==> #[trigger] self.slots@[i].generation <= MAX_GENERATION
        &&& forall|j: int| 0 <= j < self.free@.len() ==> {
            &&& #[trigger] self.free@[j] < self.slots@.len()
            &&& self.slots@[self.free@[j] as int].entry is None
        }
        &&& forall|j1: int, j2: int| 0 <= j1 < self.free@.len() && 0 <= j2 < self.free@.len() && j1 != j2
            ==> #[trigger] self.free@[j1] != #[trigger] self.free@[j2]
        &&& forall|h: i64| #[trigger] self.issued@.contains(h) ==> {
            &&& h >= 1
            &&& index_of(h as int) < self.slots@.len()
            &&& generation_of(h as int) <= self.slots@[index_of(h as int)].generation
            &&& self.free@.contains(index_of(h as int) as usize)
                ==> generation_of(h as int) < self.slots@[index_of(h as int)].generation
        }
        &&& forall|i: int| 0 <= i < self.slots@.len() && (#[trigger] self.slots@[i]).entry is Some
            ==> self.issued@.contains(handle_of(i, self.slots@[i].generation as int) as i64)
    }

    /// Every live handle was handed out by this registry.
    pub proof fn lemma_live_were_issued(&self)
        requires
            self.wf(),
        ensures
            forall|h: i64| #[trigger] self@.contains_key(h) ==> self.issued().contains(h),
            !self@.contains_key(0),
    {
        assert forall|h: i64| #[trigger] self@.contains_key(h) implies self.issued().contains(h) by {
            lemma_handle_decomposes(h as int);
            let i = index_of(h as int);
            assert(self.slots@[i].entry is Some);
        }
    }

    /// An empty registry.
    pub fn new() -> (r: Registry<P>)
        ensures
            r.wf(),
            r@ == Map::<i64, (P, JniTypes)>::empty(),
            r.issued() == Set::<i64>::empty(),
            r.spec_slot_count() == 0,
    {
        let r = Registry { slots: Vec::new(), free: Vec::new(), issued: Ghost(Set::empty()) };
        assert(r@ =~= Map::<i64, (P, JniTypes)>::empty());
        r
    }

    /// The slot index of `h` while it is live.
    fn locate(&self, h: i64) -> (r: Option<usize>)
        requires
            self.wf(),
        ensures
            r is Some <==> self@.contains_key(h),
            r matches Some(i) ==> {
                &&& i as int == index_of(h as int)
                &&& i < self.slots@.len()
                &&& self.slots@[i as int].entry == Some(self@[h])
            },
    {
        if h < 1 {
            return None;
        }
        let idx = ((h - 1) % SLOT_SPAN) as usize;
        let generation = (h - 1) / SLOT_SPAN;
        if idx < self.slots.len() && self.slots[idx].generation as i64 == generation {
            if self.slots[idx].entry.is_some() {
                return Some(idx);
            }
        }
        None
    }

    /// Checks that `h` is live and registered with kind `k`.
    pub fn check_allocation(&self, h: i64, k: JniTypes) -> (r: Result<(), SurrealError>)
        requires
            self.wf(),
        ensures
            r is Ok <==> lookup(self@, h, k) is Ok,
            r matches Err(e) ==> lookup(self@, h, k) == Err::<P, SurrealError>(e),
    {
        match self.locate(h) {
            None => Err(SurrealError::NullPointerException(k)),
            Some(idx) => match &self.slots[idx].entry {
                Some((_, found)) => {
                    if *found == k {
                        Ok(())
                    } else {
                        Err(SurrealError::WrongType { expected: k, found: *found })
                    }
                },
                None => Err(SurrealError::NullPointerException(k)),
            },
        }
    }

    /// Shared borrow: the value behind `h`, which stays owned by the registry.
    pub fn get_instance(&self, h: i64, k: JniTypes) -> (r: Result<&P, SurrealError>)
        requires
            self.wf(),
        ensures
            match r {
                Ok(x) => lookup(self@, h, k) == Ok::<P, SurrealError>(*x),
                Err(e) => lookup(self@, h, k) == Err::<P, SurrealError>(e),
            },
    {
        match self.check_allocation(h, k) {
            Err(e) => Err(e),
            Ok(()) => {
                let idx = self.locate(h).unwrap();
                match &self.slots[idx].entry {
                    Some((p, _)) => Ok(p),
                    None => Err(SurrealError::NullPointerException(k)),
                }
            },
        }
    }

    /// Takes ownership of `value`, tags it with kind `k`, and returns a fresh
    /// non-zero handle for it: one this registry never handed out before.
    pub fn create_instance(&mut self, value: P, k: JniTypes) -> (h: i64)
        requires
            old(self).wf(),
            old(self).spec_slot_count() < MAX_SLOTS,
        ensures
            final(self).wf(),
            h >= 1,
            !old(self).issued().contains(h),
            final(self).issued() == old(self).issued().insert(h),
            final(self)@ == old(self)@.insert(h, (value, k)),
            final(self).spec_slot_count() <= old(self).spec_slot_count() + 1,
    {
        let ghost old_self = *self;
        match self.free.pop() {
            Some(idx) => {
                proof {
                    let j = old_self.free@.len() - 1;
                    assert(old_self.free@[j] == idx);
                    assert(old_self.free@.contains(idx));
                    assert forall|j2: int| 0 <= j2 < self.free@.len() implies #[trigger] self.free@[j2] != idx by {
                        assert(old_self.free@[j2] == self.free@[j2]);
                    }
                }
                let generation = self.slots[idx].generation;
                let h = generation as i64 * SLOT_SPAN + idx as i64 + 1;
                self.slots[idx].entry = Some((value, k));
                proof {
                    lemma_handle_parts(idx as int, generation as int);
                    if old_self.issued@.contains(h) {
                        assert(generation_of(h as int) < old_self.slots@[idx as int].generation);
                    }
                    self.issued@ = old_self.issued@.insert(h);
                    self.lemma_fill_keeps(old_self, idx as int, h, value, k);
                }
                h
            },
            None => {
                let idx = self.slots.len();
                self.slots.push(Slot { generation: 0, entry: Some((value, k)) });
                let h = idx as i64 + 1;
                proof {
                    lemma_handle_parts(idx as int, 0);
                    assert(h as int == handle_of(idx as int, 0));
                    if old_self.issued@.contains(h) {
                        assert(index_of(h as int) < old_self.slots@.len());
                    }
                    self.issued@ = old_self.issued@.insert(h);
                    assert forall|i: int| 0 <= i < old_self.slots@.len() implies self.slots@[i] == old_self.slots@[i] by {}
                    self.lemma_fill_keeps(old_self, idx as int, h, value, k);
                }
                h
            },
        }
    }

    proof fn lemma_fill_keeps(&self, old_self: Registry<P>, idx: int, h: i64, value: P, k: JniTypes)
        requires
            old_self.wf(),
            0 <= idx < self.slots@.len(),
            self.slots@.len() <= MAX_SLOTS,
            self.slots@.len() == old_self.slots@.len() || self.slots@.len() == old_self.slots@.len() + 1,
            self.slots@.len() == old_self.slots@.len() + 1 ==> idx == old_self.slots@.len() && self.slots@[idx].generation == 0,
            idx < old_self.slots@.len() ==> old_self.slots@[idx].entry is None && old_self.free@.contains(idx as usize)
                && self.slots@[idx].generation == old_self.slots@[idx].generation,
            forall|i: int| 0 <= i < self.slots@.len() && i != idx ==> self.slots@[i] == old_self.slots@[i],
            self.slots@[idx].entry == Some((value, k)),
            h as int == handle_of(idx, self.slots@[idx].generation as int),
            index_of(h as int) == idx,
            generation_of(h as int) == self.slots@[idx].generation,
            !old_self.issued@.contains(h),
            self.issued@ == old_self.issued@.insert(h),
            forall|j: int| 0 <= j < self.free@.len() ==> #[trigger] self.free@[j] != idx,
            self.free@.len() <= old_self.free@.len(),
            forall|j: int| 0 <= j < self.free@.len() ==> self.free@[j] == old_self.free@[j],
            h >= 1,
        ensures
            self.wf(),
            self@ == old_self@.insert(h, (value, k)),
    {
        assert forall|j: int| 0 <= j < self.free@.len() implies #[trigger] self.free@[j] < self.slots@.len()
            && self.slots@[self.free@[j] as int].entry is None by {
            assert(old_self.free@[j] == self.free@[j]);
        }
        assert forall|j1: int, j2: int| 0 <= j1 < self.free@.len() && 0 <= j2 < self.free@.len() && j1 != j2
            implies #[trigger] self.free@[j1] != #[trigger] self.free@[j2] by {
            assert(old_self.free@[j1] == self.free@[j1]);
            assert(old_self.free@[j2] == self.free@[j2]);
        }
        assert forall|h2: i64| #[trigger] self.issued@.contains(h2) implies {
            &&& h2 >= 1
            &&& index_of(h2 as int) < self.slots@.len()
            &&& generation_of(h2 as int) <= self.slots@[index_of(h2 as int)].generation
            &&& self.free@.contains(index_of(h2 as int) as usize)
                ==> generation_of(h2 as int) < self.slots@[index_of(h2 as int)].generation
        } by {
            if h2 != h {
                assert(old_self.issued@.contains(h2));
                if self.free@.contains(index_of(h2 as int) as usize) {
                    let j = choose|j: int| 0 <= j < self.free@.len() && self.free@[j] == index_of(h2 as int) as usize;
                    assert(old_self.free@[j] == self.free@[j]);
                }
            }
        }
        assert forall|i: int| 0 <= i < self.slots@.len() && (#[trigger] self.slots@[i]).entry is Some
            implies self.issued@.contains(handle_of(i, self.slots@[i].generation as int) as i64) by {
            if i != idx {
                assert(old_self.slots@[i].entry is Some);
            }
        }
        assert forall|h2: i64| #[trigger] self@.contains_key(h2) == old_self@.insert(h, (value, k)).contains_key(h2) by {
            if h2 >= 1 {
                lemma_handle_decomposes(h2 as int);
                if index_of(h2 as int) == idx && generation_of(h2 as int) == self.slots@[idx].generation {
                    assert(h2 == h);
                }
            }
        }
        assert(self@ =~= old_self@.insert(h, (value, k)));
    }

    /// Empties the live slot of `h` and retires `h` for good.
    fn vacate(&mut self, h: i64, idx: usize) -> (r: (P, JniTypes))
        requires
            old(self).wf(),
            old(self)@.contains_key(h),
            idx as int == index_of(h as int),
        ensures
            final(self).wf(),
            r == old(self)@[h],
            final(self)@ == old(self)@.remove(h),
            final(self).issued() == old(self).issued(),
            final(self).spec_slot_count() == old(self).spec_slot_count(),
    {
        let ghost old_self = *self;
        proof {
            lemma_handle_decomposes(h as int);
            assert forall|j: int| 0 <= j < self.free@.len() implies #[trigger] self.free@[j] != idx by {}
        }
        let generation = self.slots[idx].generation;
        let entry = self.slots[idx].entry.take();
        if generation < MAX_GENERATION {
            self.slots[idx].generation = generation + 1;
            self.free.push(idx);
        }
        proof {
            assert(old_self.free@.len() <= self.free@.len());
            assert forall|j: int| 0 <= j < old_self.free@.len() implies self.free@[j] == old_self.free@[j] by {}
            assert forall|j: int| 0 <= j < self.free@.len() implies #[trigger] self.free@[j] < self.slots@.len()
                && self.slots@[self.free@[j] as int].entry is None by {
                if j < old_self.free@.len() {
                    assert(old_self.free@[j] == self.free@[j]);
                }
            }
            assert forall|j1: int, j2: int| 0 <= j1 < self.free@.len() && 0 <= j2 < self.free@.len() && j1 != j2
                implies #[trigger] self.free@[j1] != #[trigger] self.free@[j2] by {
                if j1 < old_self.free@.len() {
                    assert(old_self.free@[j1] == self.free@[j1]);
                }
                if j2 < old_self.free@.len() {
                    assert(old_self.free@[j2] == self.free@[j2]);
                }
            }
            assert forall|h2: i64| #[trigger] self.issued@.contains(h2) implies {
                &&& h2 >= 1
                &&& index_of(h2 as int) < self.slots@.len()
                &&& generation_of(h2 as int) <= self.slots@[index_of(h2 as int)].generation
                &&& self.free@.contains(index_of(h2 as int) as usize)
                    ==> generation_of(h2 as int) < self.slots@[index_of(h2 as int)].generation
            } by {
                assert(old_self.issued@.contains(h2));
                if self.free@.contains(index_of(h2 as int) as usize) && index_of(h2 as int) != idx {
                    let j = choose|j: int| 0 <= j < self.free@.len() && self.free@[j] == index_of(h2 as int) as usize;
                    if j < old_self.free@.len() {
                        assert(old_self.free@[j] == self.free@[j]);
                    }
                }
            }
            assert forall|i: int| 0 <= i < self.slots@.len() && (#[trigger] self.slots@[i]).entry is Some
                implies self.issued@.contains(handle_of(i, self.slots@[i].generation as int) as i64) by {
                assert(old_self.slots@[i].entry is Some);
            }
            assert forall|h2: i64| #[trigger] self@.contains_key(h2) == old_self@.remove(h).contains_key(h2) by {
                if h2 >= 1 {
                    lemma_handle_decomposes(h2 as int);
                }
            }
            assert(self@ =~= old_self@.remove(h));
        }
        entry.unwrap()
    }

    /// Consuming take: removes the value behind `h` from the registry and
    /// hands its ownership to the caller. The handle is dead from then on.
    pub fn take_instance(&mut self, h: i64, k: JniTypes) -> (r: Result<P, SurrealError>)
        requires
            old(self).wf(),
        ensures
            final(self).wf(),
            final(self).issued() == old(self).issued(),
            final(self).spec_slot_count() == old(self).spec_slot_count(),
            match r {
                Ok(v) => {
                    &&& lookup(old(self)@, h, k) == Ok::<P, SurrealError>(v)
                    &&& final(self)@ == old(self)@.remove(h)
                },
                Err(e) => {
                    &&& lookup(old(self)@, h, k) == Err::<P, SurrealError>(e)
                    &&& final(self)@ == old(self)@
                },
            },
    {
        match self.check_allocation(h, k) {
            Err(e) => Err(e),
            Ok(()) => {
                let idx = self.locate(h).unwrap();
                let (v, _) = self.vacate(h, idx);
                Ok(v)
            },
        }
    }

    /// Release: drops the value behind `h`, whatever its kind. Releasing
    /// the zero handle, or one that is not live, changes nothing.
    pub fn release_instance(&mut self, h: i64)
        requires
            old(self).wf(),
        ensures
            final(self).wf(),
            final(self)@ == old(self)@.remove(h),
            h == 0 ==> final(self)@ == old(self)@,
            final(self).issued() == old(self).issued(),
            final(self).spec_slot_count() == old(self).spec_slot_count(),
    {
        if h != 0 {
            match self.locate(h) {
                Some(idx) => {
                    let _ = self.vacate(h, idx);
                },
                None => {
                    assert(self@ =~= self@.remove(h));
                },
            }
        } else {
            proof {
                self.lemma_live_were_issued();
            }
            assert(self@ =~= self@.remove(h));
        }
    }

    /// Exclusive mutable borrow: the value behind `h`, to be changed in
    /// place. Whatever the caller leaves behind the reference becomes the
    /// value of `h`; nothing else in the registry changes.
    pub fn get_instance_mut(&mut self, h: i64, k: JniTypes) -> (r: Result<&mut P, SurrealError>)
        requires
            old(self).wf(),
        ensures
            match r {
                Ok(x) => {
                    &&& lookup(old(self)@, h, k) == Ok::<P, SurrealError>(*x)
                    &&& final(self).wf()
                    &&& final(self)@ == old(self)@.insert(h, (*final(x), k))
                    &&& final(self).issued() == old(self).issued()
                    &&& final(self).spec_slot_count() == old(self).spec_slot_count()
                },
                Err(e) => {
                    &&& lookup(old(self)@, h, k) == Err::<P, SurrealError>(e)
                    &&& *final(self) == *old(self)
                },
            },
    {
        match self.check_allocation(h, k) {
            Err(e) => Err(e),
            Ok(()) => {
                let idx = self.locate(h).unwrap();
                let slot = &mut self.slots[idx];
                match &mut slot.entry {
                    Some((p, _)) => Ok(p),
                    None => Err(SurrealError::NullPointerException(k)),
                }
            },
        }
    }

    /// How many slots have been allocated so far.
    pub fn slot_count(&self) -> (r: usize)
        ensures
            r == self.spec_slot_count(),
    {
        self.slots.len()
    }
}

} // verus!
