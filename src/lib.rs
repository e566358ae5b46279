//! A flat buffer of numeric elements with a shape descriptor, and its
//! reductions: sum, mean, least and greatest element, and dot product.
use vstd::prelude::*;

pub mod data;
pub mod element;
pub mod laws;
pub mod text;

pub use data::{Data, DataError};
pub use element::NumericElement;

verus! {

} // verus!
