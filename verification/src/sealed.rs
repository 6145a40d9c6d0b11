//! Keeps the traits of the record types closed to other crates.

use vstd::prelude::*;

verus! {

/// Implemented by the record types of this crate, and by no others.
pub trait Sealed {

}

} // verus!
