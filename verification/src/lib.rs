//! Codec for Uniclass classification codes: a table identifier plus up to
//! four hierarchical numeric levels (group, sub-group, section, object),
//! packed into a compact, comparable, hashable value with lossless
//! round-trip to and from the canonical `_`-delimited textual form.

use vstd::prelude::*;

pub mod code;
pub mod error;
pub mod laws;
pub mod numeral;
pub mod split;
pub mod table;
pub mod text;

verus! {

pub use crate::code::Uniclass;
pub use crate::error::ParseUniclassError;
pub use crate::table::UniclassTable;

} // verus!
