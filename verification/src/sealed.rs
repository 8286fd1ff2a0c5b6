//! A trait that keeps the library's marker traits closed to other crates.
use vstd::prelude::*;

verus! {

/// Implemented only by the library's own marker types.
pub trait Sealed {}

} // verus!
