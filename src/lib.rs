//! Shared-memory allocation policies over a pluggable provider backend, and the plain
//! option and handle types of the surrounding pub/sub bindings.
//!
//! A layout (`layout`) binds a size and an alignment to a backend's arena. A policy
//! (`policy`) stacks reclamation layers (garbage collection, defragmentation, bounded
//! eviction, blocking) around one allocation call. An attempt (`attempt`) is the state
//! machine that a policy follows, one backend action at a time; `driver` runs it against
//! a `ShmBackend` and `alloc_layout` offers the usual compositions. `laws` states and
//! proves what the policies guarantee.
use vstd::prelude::*;

pub mod layout;
pub mod policy;
pub mod attempt;
pub mod backend;
pub mod driver;
pub mod alloc_layout;
pub mod laws;
pub mod liveliness;
pub mod handles;

verus! {

} // verus!
