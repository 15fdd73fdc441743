//! Command line arguments by reference.
//!
//! A process receives its arguments once, as a table that stays where it is
//! until the process ends. This library walks such a table without copying
//! it: [`iter`] gives a cursor that hands out one reference per argument, in
//! the table's order, and knows at every moment exactly how many are left.
//!
//! The library never looks inside an argument, so it is generic over what one
//! slot of the table holds: a pointer that the loader supplied, or an owned
//! string that a [`Store`] keeps for the rest of the process.

use vstd::prelude::*;

pub mod store;

pub use store::Store;

verus! {

/// What is left of a sequence of arguments after one call of [`Iter::next`].
pub open spec fn rest_after_next<T>(rest: Seq<T>) -> Seq<T> {
    if rest.len() == 0 {
        rest
    } else {
        rest.drop_first()
    }
}

/// What is left of a sequence of arguments after `calls` calls of
/// [`Iter::next`].
pub open spec fn rest_after<T>(rest: Seq<T>, calls: nat) -> Seq<T>
    decreases calls,
{
    if calls == 0 {
        rest
    } else {
        rest_after(rest_after_next(rest), (calls - 1) as nat)
    }
}

/// Iterator over command line arguments.
///
/// Its view is the sequence of arguments that it has yet to yield.
pub struct Iter<'a, T> {
    table: &'a [T],
    next: usize,
}

impl<'a, T> View for Iter<'a, T> {
    type V = Seq<T>;

    closed spec fn view(&self) -> Seq<T> {
        self.table@.skip(self.next as int)
    }
}

/// Returns an iterator over the arguments in `table`, first to last.
pub fn iter<'a, T>(table: &'a [T]) -> (it: Iter<'a, T>)
    ensures
        it@ == table@,
        it@.len() == table@.len(),
{
    Iter { table, next: 0 }
}

impl<'a, T> Iter<'a, T> {
    #[verifier::type_invariant]
    spec fn cursor_within_table(self) -> bool {
        self.next <= self.table@.len()
    }

    /// Yields the next argument, or `None` once all have been yielded.
    pub fn next(&mut self) -> (item: Option<&'a T>)
        ensures
            final(self)@ == rest_after_next(old(self)@),
            old(self)@.len() == 0 ==> item is None,
            old(self)@.len() > 0 ==> item == Some(&old(self)@[0]),
    {
        proof {
            use_type_invariant(&*self);
        }
        if self.next == self.table.len() {
            None
        } else {
            let item = &self.table[self.next];
            self.next = self.next + 1;
            Some(item)
        }
    }

    /// The number of arguments left, as a lower and an upper bound that
    /// always agree.
    pub fn size_hint(&self) -> (bounds: (usize, Option<usize>))
        ensures
            bounds.0 == self@.len(),
            bounds.1 == Some(bounds.0),
    {
        let len: usize = self.len();
        (len, Some(len))
    }

    /// The exact number of arguments left.
    pub fn len(&self) -> (len: usize)
        ensures
            len == self@.len(),
    {
        proof {
            use_type_invariant(self);
        }
        self.table.len() - self.next
    }

    /// Yields every argument that is left, in order.
    pub fn collect(self) -> (items: Vec<&'a T>)
        ensures
            items@.len() == self@.len(),
            forall|i: int| 0 <= i < self@.len() ==> *items@[i] == self@[i],
    {
        let ghost all = self@;
        let mut it = self;
        let mut items: Vec<&'a T> = Vec::new();
        while it.len() > 0
            invariant
                items@.len() <= all.len(),
                it@ == all.skip(items@.len() as int),
                forall|i: int| 0 <= i < items@.len() ==> *items@[i] == all[i],
            decreases it@.len(),
        {
            if let Some(item) = it.next() {
                items.push(item);
            }
        }
        items
    }
}

/// Asking twice for an iterator over one table gives the same arguments both
/// times.
pub proof fn lemma_iter_is_idempotent<'a, T>(table: &'a [T], first: Iter<'a, T>, second: Iter<'a, T>)
    requires
        call_ensures(iter::<T>, (table,), first),
        call_ensures(iter::<T>, (table,), second),
    ensures
        first@ == second@,
        first@.len() == second@.len(),
{
}

/// However often `next` has been called, what is left is the sequence without
/// its first `calls` arguments, so the count that is left is the length less
/// `calls`; once `calls` reaches the length nothing is left, and further
/// calls change nothing.
pub proof fn lemma_rest_after<T>(rest: Seq<T>, calls: nat)
    ensures
        calls <= rest.len() ==> rest_after(rest, calls) == rest.skip(calls as int),
        calls >= rest.len() ==> rest_after(rest, calls) == Seq::<T>::empty(),
        rest_after(rest, calls).len() == if calls <= rest.len() {
            rest.len() - calls
        } else {
            0
        },
    decreases calls,
{
    if calls > 0 {
        let shorter = rest_after_next(rest);
        lemma_rest_after(shorter, (calls - 1) as nat);
        if rest.len() > 0 && calls <= rest.len() {
            assert(shorter.skip(calls - 1) =~= rest.skip(calls as int));
        }
    } else {
        assert(rest.skip(0) =~= rest);
    }
}

} // verus!
