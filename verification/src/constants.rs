use vstd::prelude::*;

verus! {

/// Cards in a full hand.
pub const HAND_SIZE: usize = 3;

} // verus!
