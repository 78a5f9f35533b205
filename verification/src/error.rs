//! What can go wrong.

use vstd::prelude::*;

verus! {

/// The two ways an operation on a counter can fail.
#[derive(Clone, Copy, Debug, PartialEq, Eq, Structural)]
pub enum FiboError {
    /// The next term does not fit in 64 bits. The counter is left as it was.
    ArithmeticOverflow,
    /// A stored record is not a state that any counter can be in.
    CorruptState,
}

} // verus!
