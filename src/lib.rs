use vstd::prelude::*;

pub mod config;
pub mod error;
pub mod handlers;
pub mod models;
pub mod protocol;
pub mod server;
pub mod settings;
pub mod state;
pub mod utils;

verus! {

} // verus!
