//! Batch iteration over a nullable primitive array: the array is cut into
//! fixed-width groups of lanes, each paired with a packed validity mask, and
//! a sequence of such groups can be collected back into an array or summed.
use vstd::prelude::*;

pub mod array;
pub mod batch;
pub mod bits;
pub mod collect;
pub mod laws;
pub mod native;
