//! The marker for values that may cross task boundaries.

use vstd::prelude::*;

verus! {

/// A value that may be owned by any task and shared between tasks: it can be
/// sent to and used from another thread, and borrows nothing.
pub trait Async: Sized + Send + Sync + 'static {}

impl<A> Async for A where A: Sized + Send + Sync + 'static {}

} // verus!
