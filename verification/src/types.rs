//! Marker traits for values kept in a notes database.
use vstd::prelude::*;

verus! {

/// A value that can be given to a notes database.
pub trait DatabaseInput {}

} // verus!
