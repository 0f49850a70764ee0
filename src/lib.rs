//! Conversion between objects and arrays of `{ key, value }` entry records,
//! with the function descriptors and evaluation nodes that expose the pair
//! to an expression language.
pub mod convert;
pub mod error;
pub mod function;
pub mod value;

use vstd::prelude::*;

verus! {

} // verus!
