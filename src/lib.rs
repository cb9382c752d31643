//! A userspace network engine core: a TTL cache with lazy eviction, a
//! cooperative coroutine runtime with its event queue, and the decisions of
//! the host boundary.
use vstd::prelude::*;

pub mod cache;
pub mod event;
pub mod interop;
pub mod options;
pub mod rng;
pub mod runtime;

verus! {

} // verus!
