use vstd::prelude::*;

verus! {

/// The number that names a worker.
pub type CounterType = u16;

} // verus!
