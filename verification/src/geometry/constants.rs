use vstd::prelude::*;

verus! {

/// The smallest useful tolerance: a quantity whose magnitude is below it is zero.
pub const ZERO_TOLERANCE: i64 = 1;

/// Largest magnitude of a vector component for which products are computed.
pub const VECTOR_LIMIT: i64 = 0x4000_0000_0000_0000;

} // verus!
