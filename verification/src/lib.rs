//! Package-size service core: validation, badge rendering, request decisions.
use vstd::prelude::*;

pub mod badge;
pub mod binary64;
pub mod compat;
pub mod laws;
pub mod response;
pub mod store;
pub mod svg;
pub mod text;
pub mod types;
pub mod v1;
pub mod validate;

verus! {
} // verus!
