//! A monotonically increasing counter over one shared atomic cell, with
//! a single writer and many readers. The writer is the sole mutator; a
//! reader aliases the same cell, so every later write becomes observable
//! through it. Verus cannot watch the shared cell itself, so the writer
//! carries a ghost mirror of the value it has written, each reader
//! carries a ghost floor — a value the cell already held — and the
//! trusted wrappers around the atomic operations state only what holds
//! of every outcome: the cell never decreases, so a load returns at
//! least the floor, and the floor advances to what was read.

use vstd::prelude::*;
use std::sync::atomic::{AtomicUsize, Ordering};
use std::sync::Arc;

verus! {

/// The single writing handle to a monotonic counter. It is the one
/// mutator of its cell: it is not cloneable, and readers expose no
/// writing operation.
pub struct AtomicCounterWriter {
    inner: Arc<AtomicUsize>,
    mirror: Ghost<nat>,
}

impl View for AtomicCounterWriter {
    type V = nat;

    closed spec fn view(&self) -> nat {
        self.mirror@
    }
}

impl AtomicCounterWriter {
    pub fn zero() -> (r: AtomicCounterWriter)
        ensures
            r@ == 0,
    {
        AtomicCounterWriter::with_value(0)
    }

    pub fn with_value(value: usize) -> (r: AtomicCounterWriter)
        ensures
            r@ == value,
    {
        AtomicCounterWriter {
            inner: Arc::new(AtomicUsize::new(value)),
            mirror: Ghost(value as nat),
        }
    }

    /// Relies on `AtomicUsize::fetch_add`: it returns the cell's prior
    /// value and adds `amount`. This handle is the cell's only mutator,
    /// so the prior value is the mirror.
    #[verifier::external_body]
    fn cell_fetch_add(&mut self, amount: usize) -> (r: usize)
        requires
            old(self)@ + amount <= usize::MAX,
        ensures
            r == old(self)@,
            final(self)@ == old(self)@ + amount,
    {
        self.inner.fetch_add(amount, Ordering::Relaxed)
    }

    /// Relies on `AtomicUsize::store`: the cell afterwards holds
    /// `value`. The caller never stores below the mirror, keeping the
    /// cell monotonic for every reader.
    #[verifier::external_body]
    fn cell_store(&mut self, value: usize)
        requires
            old(self)@ <= value,
        ensures
            final(self)@ == value,
    {
        self.inner.store(value, Ordering::SeqCst)
    }

    /// Relies on `AtomicUsize::load`: it returns the cell's value, which
    /// is the mirror, since this handle is the cell's only mutator.
    #[verifier::external_body]
    fn cell_load(&self) -> (r: usize)
        ensures
            r == self@,
    {
        self.inner.load(Ordering::SeqCst)
    }

    /// Increments the value by `amount` and returns the new value.
    pub fn increment_and_get_relaxed(&mut self, amount: usize) -> (r: usize)
        requires
            old(self)@ + amount <= usize::MAX,
        ensures
            r == old(self)@ + amount,
            final(self)@ == old(self)@ + amount,
    {
        let old_value = self.fetch_add(amount);
        old_value + amount
    }

    /// Sets the new value, only if it is greater than the current value.
    pub fn set_if_greater(&mut self, new_value: usize)
        ensures
            final(self)@ == if new_value > old(self)@ {
                new_value as nat
            } else {
                old(self)@
            },
            final(self)@ >= old(self)@,
    {
        let current = self.cell_load();
        if new_value > current {
            self.cell_store(new_value);
        }
    }

    /// Adds `amount` and returns the value from before the addition.
    pub fn fetch_add(&mut self, amount: usize) -> (r: usize)
        requires
            old(self)@ + amount <= usize::MAX,
        ensures
            r == old(self)@,
            final(self)@ == old(self)@ + amount,
    {
        self.cell_fetch_add(amount)
    }

    /// Relies on `Arc::clone`: the returned handle aliases this
    /// writer's cell, so every later write becomes observable through
    /// it.
    #[verifier::external_body]
    fn clone_cell(&self) -> Arc<AtomicUsize> {
        Arc::clone(&self.inner)
    }

    /// A read-only handle on the same cell: every later write by this
    /// writer becomes observable through it. The reader's floor starts
    /// at the current value.
    pub fn reader(&self) -> (r: AtomicCounterReader)
        ensures
            r.floor() == self@,
    {
        AtomicCounterReader { inner: self.clone_cell(), floor: Ghost(self.mirror@) }
    }
}

/// A read-only handle on a writer's cell. The cell only grows, so a
/// load returns at least the floor — the highest value this reader has
/// seen the cell hold — and raises the floor to what it read. What lies
/// above the floor depends on the writer's progress, which no contract
/// here can see.
#[derive(Clone)]
pub struct AtomicCounterReader {
    inner: Arc<AtomicUsize>,
    floor: Ghost<nat>,
}

impl AtomicCounterReader {
    /// A value the cell held at some moment this reader has already
    /// observed: a sound lower bound on every later read.
    pub closed spec fn floor(&self) -> nat {
        self.floor@
    }

    /// Relies on `AtomicUsize::load`: it returns the value the cell
    /// holds during the call, which is at least the floor because the
    /// cell never decreases.
    #[verifier::external_body]
    fn cell_load(&mut self) -> (r: usize)
        ensures
            r >= old(self).floor(),
            final(self).floor() == r,
    {
        self.inner.load(Ordering::SeqCst)
    }

    /// Convenience read of the current value; successive loads on one
    /// reader never decrease.
    pub fn load_relaxed(&mut self) -> (r: usize)
        ensures
            r >= old(self).floor(),
            final(self).floor() == r,
    {
        self.load()
    }

    /// The value the cell holds during the call: at least the floor,
    /// which advances to what was read.
    pub fn load(&mut self) -> (r: usize)
        ensures
            r >= old(self).floor(),
            final(self).floor() == r,
    {
        self.cell_load()
    }
}

} // verus!
