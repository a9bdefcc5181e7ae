//! An account operating system's core: a version-controlled module registry, a name-resolution
//! registry reconciled in chunks, and the controller, vault and factory that make up an account.

use vstd::prelude::*;

pub mod account;
pub mod ans;
pub mod chunk;
pub mod etf;
pub mod registry;
pub mod store;
pub mod version;

verus! {

} // verus!
