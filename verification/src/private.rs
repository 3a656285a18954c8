//! What keeps [`Wide`](crate::Wide) closed to other crates.

use vstd::prelude::*;

verus! {

/// Implemented for the four wide character types, and for no other.
pub trait Sealed {

}

impl Sealed for u16 {

}

impl Sealed for u32 {

}

impl Sealed for i16 {

}

impl Sealed for i32 {

}

} // verus!
