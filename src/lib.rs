use vstd::prelude::*;

pub mod error;
pub mod fs;

pub use error::{Error, Result};

verus! {

} // verus!
