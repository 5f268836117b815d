//! Opaque handles for values and blocks.

use vstd::prelude::*;

verus! {

/// Names a value inside one function. Handles are issued in increasing order
/// by the builder and are never reused.
#[derive(Copy, Clone, Debug, PartialEq, Eq, Hash, Structural)]
pub struct ValueId(pub u32);

/// Names a basic block inside one function.
#[derive(Copy, Clone, Debug, PartialEq, Eq, Hash, Structural)]
pub struct BlockId(pub u32);

} // verus!
