//! Dense matrices over the prime field of integers modulo 2^31 - 1, with
//! shapes checked at run time, row reduction, determinant and inverse.
use vstd::prelude::*;

pub mod field;
pub mod model;
pub mod matrix;
pub mod reduction;
pub mod vector;
pub mod sums;
pub mod laws;

verus! {

} // verus!
