//! Schema inspection core: an algebraic type model with a recursive
//! formatter, structural idiom detection, and query views over a decoded
//! schema snapshot.

use vstd::prelude::*;

pub mod detect;
pub mod format;
pub mod model;
pub mod names;
pub mod query;
pub mod server;
pub mod sort;
pub mod text;

verus! {

} // verus!
