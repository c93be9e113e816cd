use vstd::prelude::*;

pub mod errors;
pub mod account_errors;
pub mod requests;
pub mod store;
pub mod matching;
pub mod live;
pub mod photos;
mod ids;
pub mod service;
pub mod laws;

verus! {

/// Largest number of characters that a chat message may hold.
pub const MAX_MESSAGE_CHARS: usize = 1000;

} // verus!
