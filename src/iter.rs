use std::collections::VecDeque;

use vstd::prelude::*;

use crate::error::SurrealError;

verus! {

/// What one `next` call on a cursor whose remaining elements are `s`
/// returns, and the elements that remain after it.
pub open spec fn next_step<T>(s: Seq<T>) -> (Result<T, SurrealError>, Seq<T>) {
    if s.len() > 0 {
        (Ok(s[0]), s.drop_first())
    } else {
        (Err(SurrealError::NoSuchElementException), s)
    }
}

/// The outcomes of `n` successive `next` calls on a cursor whose remaining
/// elements are `s`, in call order, and the elements that remain after them.
pub open spec fn run_nexts<T>(s: Seq<T>, n: nat) -> (Seq<Result<T, SurrealError>>, Seq<T>)
    decreases n,
{
    if n == 0 {
        (Seq::empty(), s)
    } else {
        let prev = run_nexts(s, (n - 1) as nat);
        let step = next_step(prev.1);
        (prev.0.push(step.0), step.1)
    }
}

proof fn lemma_run_nexts_within<T>(s: Seq<T>, n: nat)
    requires
        n <= s.len(),
    ensures
        run_nexts(s, n).0 == s.take(n as int).map_values(|x: T| Ok::<T, SurrealError>(x)),
        run_nexts(s, n).1 == s.skip(n as int),
    decreases n,
{
    if n > 0 {
        lemma_run_nexts_within(s, (n - 1) as nat);
        let prev = run_nexts(s, (n - 1) as nat);
        assert(prev.1[0] == s[n - 1]);
        assert(prev.1.drop_first() =~= s.skip(n as int));
        assert(run_nexts(s, n).0 =~= s.take(n as int).map_values(|x: T| Ok::<T, SurrealError>(x)));
    } else {
        assert(s.take(0).map_values(|x: T| Ok::<T, SurrealError>(x)) =~= Seq::<Result<T, SurrealError>>::empty());
        assert(s.skip(0) =~= s);
    }
}

/// Draining a cursor built over `s`: each of the first `s.len()` calls
/// finds an element remaining, and together they return the elements of
/// `s` in order; after them none remains, and one more call fails with
/// `NoSuchElementException`.
pub proof fn lemma_drain_exactly<T>(s: Seq<T>)
    ensures
        forall|i: nat| i < s.len() ==> #[trigger] run_nexts(s, i).1.len() > 0,
        run_nexts(s, s.len()).0 == s.map_values(|x: T| Ok::<T, SurrealError>(x)),
        run_nexts(s, s.len()).1.len() == 0,
        next_step(run_nexts(s, s.len()).1).0 == Err::<T, SurrealError>(SurrealError::NoSuchElementException),
{
    assert forall|i: nat| i < s.len() implies #[trigger] run_nexts(s, i).1.len() > 0 by {
        lemma_run_nexts_within(s, i);
    }
    lemma_run_nexts_within(s, s.len());
    assert(s.take(s.len() as int) =~= s);
}

/// A sequential cursor over a snapshot taken when it was built. It is not
/// restartable: once exhausted it stays exhausted.
pub struct SnapshotIter<T> {
    items: VecDeque<T>,
}

impl<T> View for SnapshotIter<T> {
    /// The elements not yet returned, in order.
    type V = Seq<T>;

    closed spec fn view(&self) -> Seq<T> {
        self.items@
    }
}

impl<T> SnapshotIter<T> {
    /// A cursor positioned before the first of `items`.
    pub fn new(items: Vec<T>) -> (r: SnapshotIter<T>)
        ensures
            r@ == items@,
    {
        let ghost all = items@;
        let mut items = items;
        let mut rest: VecDeque<T> = VecDeque::new();
        while items.len() > 0
            invariant
                items@ + rest@ == all,
            decreases items@.len(),
        {
            let ghost before = items@;
            let x = items.pop().unwrap();
            rest.push_front(x);
            assert(before =~= items@.push(x));
            assert(items@ + rest@ =~= before + (rest@.drop_first()));
        }
        assert(rest@ =~= all);
        SnapshotIter { items: rest }
    }

    /// Whether an element remains.
    pub fn has_next(&self) -> (r: bool)
        ensures
            r == (self@.len() > 0),
    {
        self.items.len() > 0
    }

    /// How many elements remain.
    pub fn len(&self) -> (r: usize)
        ensures
            r == self@.len(),
    {
        self.items.len()
    }

    /// Advances the cursor: the following element, or `NoSuchElementException`
    /// once the snapshot is exhausted.
    pub fn next(&mut self) -> (r: Result<T, SurrealError>)
        ensures
            (r, final(self)@) == next_step(old(self)@),
    {
        match self.items.pop_front() {
            Some(x) => {
                assert(self.items@ =~= old(self)@.drop_first());
                Ok(x)
            },
            None => Err(SurrealError::NoSuchElementException),
        }
    }
}

} // verus!
