//! Keeps the capture capability to the contexts of this library.

use vstd::prelude::*;

verus! {

/// Marks the types that may offer `capture_report`. Outside this library the
/// trait cannot be named, so no other type can implement it.
pub trait Sealed {

}

} // verus!
