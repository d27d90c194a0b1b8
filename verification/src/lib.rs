//! A diagnostics-only Language Server Protocol adapter for PHPStan.
use vstd::prelude::*;

pub mod cli;
pub mod json;
pub mod path;
pub mod phpstan;
pub mod protocol;
pub mod server;
pub mod text;

verus! {

} // verus!
