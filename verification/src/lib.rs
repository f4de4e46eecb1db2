//! The verified core of a blob engine: the rules that decide where a blob's bytes
//! live, when they move between a device and the cloud, and when they may be deleted.

use vstd::prelude::*;

pub mod blob;
pub mod clock;
pub mod database;
pub mod digest;
pub mod hlc;
pub mod install_laws;
pub mod json;
pub mod outbox;
pub mod session;
pub mod storage;
pub mod store_dir;
pub mod text;
pub mod vocabulary_laws;

verus! {

} // verus!
