//! Port scanning library: parsing of port specifications, classification of
//! probe outcomes and bookkeeping of scan results.

pub mod models;
pub mod overview;
pub mod scanner;
pub mod sorting;
pub mod text;

use vstd::prelude::*;

verus! {

} // verus!
