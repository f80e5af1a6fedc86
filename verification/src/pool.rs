//! A bounded pool of store handles with non-blocking acquire and release.

use std::collections::VecDeque;
use vstd::prelude::*;

verus! {

/// Why a handle could not be handed out.
#[derive(Clone, Copy, Debug, PartialEq, Eq, Structural)]
pub enum PoolError {
    /// Every handle is in use.
    Exhausted,
}

/// What a request for a handle returns: the oldest free handle, or
/// `Exhausted` where none is free.
pub open spec fn acquired<T>(free: Seq<T>) -> Result<T, PoolError> {
    if free.len() > 0 {
        Ok(free[0])
    } else {
        Err(PoolError::Exhausted)
    }
}

/// The free handles after a request for a handle.
pub open spec fn after_acquire<T>(free: Seq<T>) -> Seq<T> {
    if free.len() > 0 {
        free.skip(1)
    } else {
        free
    }
}

/// The free handles after a handle was given back.
pub open spec fn after_release<T>(free: Seq<T>, handle: T) -> Seq<T> {
    free.push(handle)
}

/// A pool of handles of type `T`, reused oldest-released first.
///
/// The pool never blocks and never queues a caller: a handle is either
/// free right now or the request fails.
pub struct ConnectionPool<T> {
    free: VecDeque<T>,
}

impl<T> View for ConnectionPool<T> {
    type V = Seq<T>;

    /// The free handles, the next one to be handed out first.
    closed spec fn view(&self) -> Seq<T> {
        self.free@
    }
}

impl<T> ConnectionPool<T> {
    /// A pool with no handles.
    pub fn new() -> (pool: Self)
        ensures
            pool@ == Seq::<T>::empty(),
    {
        ConnectionPool { free: VecDeque::new() }
    }

    /// Fills the pool up to `pool_size` free handles, calling `connect` once
    /// for each handle that is missing.
    ///
    /// The first failure of `connect` ends the filling and is returned; the
    /// handles made before it stay in the pool. A pool that already holds
    /// `pool_size` handles or more is left as it is and `connect` is not
    /// called.
    pub fn initialise<E, F>(&mut self, connect: F, pool_size: usize) -> (r: Result<(), E>) where
        F: Fn() -> Result<T, E>,

        requires
            call_requires(connect, ()),
        ensures
            old(self)@.len() <= final(self)@.len(),
            final(self)@.subrange(0, old(self)@.len() as int) == old(self)@,
            forall|i: int|
                old(self)@.len() <= i < final(self)@.len() ==> call_ensures(
                    connect,
                    (),
                    Ok::<T, E>(#[trigger] final(self)@[i]),
                ),
            old(self)@.len() >= pool_size ==> r is Ok && final(self)@ == old(self)@,
            match r {
                Ok(_) => final(self)@.len() >= pool_size,
                Err(e) => final(self)@.len() < pool_size && call_ensures(
                    connect,
                    (),
                    Err::<T, E>(e),
                ),
            },
            r is Ok && old(self)@.len() < pool_size ==> final(self)@.len() == pool_size,
    {
        while self.free.len() < pool_size
            invariant
                call_requires(connect, ()),
                old(self)@.len() <= self@.len(),
                self@.subrange(0, old(self)@.len() as int) == old(self)@,
                forall|i: int|
                    old(self)@.len() <= i < self@.len() ==> call_ensures(
                        connect,
                        (),
                        Ok::<T, E>(#[trigger] self@[i]),
                    ),
                old(self)@.len() >= pool_size ==> self@ == old(self)@,
                old(self)@.len() < pool_size ==> self@.len() <= pool_size,
            decreases pool_size - self.free.len(),
        {
            match connect() {
                Ok(client) => {
                    self.free.push_back(client);
                },
                Err(e) => {
                    return Err(e);
                },
            }
        }
        Ok(())
    }

    /// The number of handles that are free right now.
    pub fn available(&self) -> (n: usize)
        ensures
            n == self@.len(),
    {
        self.free.len()
    }

    /// Takes the oldest free handle, or fails at once when none is free.
    pub fn get_client(&mut self) -> (r: Result<T, PoolError>)
        ensures
            r == acquired(old(self)@),
            final(self)@ == after_acquire(old(self)@),
    {
        match self.free.pop_front() {
            Some(client) => Ok(client),
            None => Err(PoolError::Exhausted),
        }
    }

    /// Gives a handle back; it becomes the last one to be reused. The
    /// handle is taken as it is, in whatever state its connection is.
    pub fn release_client(&mut self, client: T)
        ensures
            final(self)@ == after_release(old(self)@, client),
    {
        self.free.push_back(client);
    }
}

/// The free handles after `count` handles were asked for, one after the
/// other.
pub open spec fn after_acquires<T>(free: Seq<T>, count: nat) -> Seq<T>
    decreases count,
{
    if count == 0 {
        free
    } else {
        after_acquire(after_acquires(free, (count - 1) as nat))
    }
}

/// As long as handles are free, each request takes the oldest of them.
pub proof fn lemma_acquires_take_oldest_first<T>(free: Seq<T>, count: nat)
    requires
        count <= free.len(),
    ensures
        after_acquires(free, count) == free.skip(count as int),
        count < free.len() ==> acquired(after_acquires(free, count)) == Ok::<T, PoolError>(
            free[count as int],
        ),
    decreases count,
{
    if count == 0 {
        assert(free.skip(0) =~= free);
    } else {
        lemma_acquires_take_oldest_first(free, (count - 1) as nat);
        assert(free.skip(count - 1).skip(1) =~= free.skip(count as int));
    }
}

/// A pool of `n` handles serves `n` requests and fails the next one, and
/// one release then makes exactly one handle available: the one released.
pub proof fn lemma_exhausted_pool_recovers_by_release<T>(free: Seq<T>, released: T)
    ensures
        after_acquires(free, free.len()).len() == 0,
        acquired(after_acquires(free, free.len())) == Err::<T, PoolError>(PoolError::Exhausted),
        after_release(after_acquires(free, free.len()), released) == seq![released],
        acquired(after_release(after_acquires(free, free.len()), released)) == Ok::<
            T,
            PoolError,
        >(released),
{
    lemma_acquires_take_oldest_first(free, free.len());
    assert(after_release(after_acquires(free, free.len()), released) =~= seq![released]);
}

} // verus!
