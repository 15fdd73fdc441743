//! Arguments kept for the rest of the process.
//!
//! Where the loader's own table cannot be relied on to outlive every reader,
//! the arguments are fetched once and handed to a [`Store`], which promotes
//! them to the lifetime of the process by never releasing them. A store is
//! built at most once: whoever finds it unbuilt builds it, everyone after
//! that reads what the first one stored.

use vstd::prelude::*;

use crate::{iter, Iter};

verus! {

/// The state of a store after an attempt to build it from `args`: a store
/// that was built keeps what it holds, an unbuilt one takes `args`.
pub open spec fn after_build<T>(state: Option<Seq<T>>, args: Seq<T>) -> Option<Seq<T>> {
    match state {
        Some(kept) => Some(kept),
        None => Some(args),
    }
}

/// The state of a store after one attempt to build it from each of
/// `attempts`, in turn.
pub open spec fn after_builds<T>(state: Option<Seq<T>>, attempts: Seq<Seq<T>>) -> Option<Seq<T>>
    decreases attempts.len(),
{
    if attempts.len() == 0 {
        state
    } else {
        after_builds(after_build(state, attempts[0]), attempts.drop_first())
    }
}

/// How many of `attempts`, made in turn on a store in `state`, find it
/// unbuilt and so build it.
pub open spec fn builders<T>(state: Option<Seq<T>>, attempts: Seq<Seq<T>>) -> nat
    decreases attempts.len(),
{
    if attempts.len() == 0 {
        0
    } else {
        let built_now: nat = if state is None {
            1
        } else {
            0
        };
        built_now + builders(after_build(state, attempts[0]), attempts.drop_first())
    }
}

/// Gives up `args` for good, so that its contents stay valid until the
/// process ends.
///
/// Calls `Vec::leak`, which consumes the vector without ever freeing its
/// buffer and returns the contents as a slice of unbounded lifetime. Taken on
/// trust: the slice holds the vector's elements, in the vector's order.
#[verifier::external_body]
fn promote<T: 'static>(args: Vec<T>) -> (table: &'static [T])
    ensures
        table@ == args@,
{
    args.leak()
}

/// Arguments that, once stored, stay valid until the process ends.
///
/// Its view is `None` while the store is unbuilt and the stored sequence
/// afterwards.
pub struct Store<T: 'static> {
    table: Option<&'static [T]>,
}

impl<T: 'static> View for Store<T> {
    type V = Option<Seq<T>>;

    closed spec fn view(&self) -> Option<Seq<T>> {
        match self.table {
            Some(table) => Some(table@),
            None => None,
        }
    }
}

impl<T: 'static> Store<T> {
    /// An unbuilt store.
    pub fn new() -> (store: Self)
        ensures
            store@ is None,
    {
        Store { table: None }
    }

    /// Whether the store has been built.
    pub fn is_built(&self) -> (built: bool)
        ensures
            built == (self@ is Some),
    {
        self.table.is_some()
    }

    /// Builds the store from `args` unless it was built before, and says
    /// whether this call built it.
    ///
    /// The first call keeps `args` for the rest of the process. Every later
    /// call drops its `args` and leaves the store as it is.
    pub fn build(&mut self, args: Vec<T>) -> (built_now: bool)
        ensures
            final(self)@ == after_build(old(self)@, args@),
            built_now == (old(self)@ is None),
    {
        if self.table.is_some() {
            false
        } else {
            self.table = Some(promote(args));
            true
        }
    }

    /// Returns an iterator over the stored arguments, first to last, or
    /// `None` while the store is unbuilt.
    pub fn iter(&self) -> (it: Option<Iter<'static, T>>)
        ensures
            match self@ {
                Some(args) => it is Some && it.unwrap()@ == args && it.unwrap()@.len()
                    == args.len(),
                None => it is None,
            },
    {
        match self.table {
            Some(table) => Some(iter(table)),
            None => None,
        }
    }
}

/// A built store is fixed: no number of further attempts to build it changes
/// what it holds, and none of them counts as a builder.
pub proof fn lemma_built_store_is_fixed<T>(kept: Seq<T>, attempts: Seq<Seq<T>>)
    ensures
        after_builds(Some(kept), attempts) == Some(kept),
        builders(Some(kept), attempts) == 0,
    decreases attempts.len(),
{
    if attempts.len() > 0 {
        lemma_built_store_is_fixed(kept, attempts.drop_first());
    }
}

/// Of any number of attempts to build an unbuilt store, exactly one builds
/// it, namely the first, and the store then holds that attempt's arguments.
pub proof fn lemma_first_build_wins<T>(attempts: Seq<Seq<T>>)
    requires
        attempts.len() > 0,
    ensures
        after_builds(None, attempts) == Some(attempts[0]),
        builders(None, attempts) == 1,
{
    lemma_built_store_is_fixed(attempts[0], attempts.drop_first());
}

/// Once a store is built, asking it for an iterator gives the same arguments
/// every time, whatever attempts to build it again were made in between.
pub proof fn lemma_stored_iter_is_idempotent<T>(
    before: Store<T>,
    attempts: Seq<Seq<T>>,
    after: Store<T>,
    first: Option<Iter<'static, T>>,
    second: Option<Iter<'static, T>>,
)
    requires
        before@ is Some,
        after@ == after_builds(before@, attempts),
        call_ensures(Store::<T>::iter, (&before,), first),
        call_ensures(Store::<T>::iter, (&after,), second),
    ensures
        first is Some,
        second is Some,
        first.unwrap()@ == second.unwrap()@,
{
    lemma_built_store_is_fixed(before@.unwrap(), attempts);
}

/// Building twice is building once: the second attempt changes nothing.
pub proof fn lemma_build_is_idempotent<T>(state: Option<Seq<T>>, first: Seq<T>, second: Seq<T>)
    ensures
        after_build(state, first) is Some,
        after_build(after_build(state, first), second) == after_build(state, first),
{
}

} // verus!
