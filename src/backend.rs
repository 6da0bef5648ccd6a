//! The operations that an allocation policy needs from a shared-memory provider.
use vstd::prelude::*;
use crate::layout::AllocLayout;
use crate::policy::AllocResult;

verus! {

/// A shared-memory provider: a fixed arena and the operations on it that the
/// allocation policies call. Implementations may be local or shared across threads;
/// the policies rely on no property of the answers beyond their types.
pub trait ShmBackend {
    /// The size of the arena in bytes.
    fn capacity(&self) -> usize;

    /// Tries to carve a region for `layout` out of the arena.
    fn allocate(&mut self, layout: &AllocLayout) -> AllocResult;

    /// Forces the oldest outstanding allocation free; returns whether there was one.
    fn deallocate_oldest(&mut self) -> bool;

    /// Coalesces free fragments into contiguous space.
    fn defragment(&mut self);

    /// Returns to the free pool the regions whose owners have released them.
    fn garbage_collect(&mut self);

    /// Blocks until the free capacity of the arena may have changed.
    fn await_capacity_change(&mut self);
}

} // verus!
