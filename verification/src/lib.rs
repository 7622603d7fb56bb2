use vstd::prelude::*;

pub mod models;
pub mod text;
pub mod sse;
pub mod types;
pub mod clock;
pub mod session;
pub mod compaction;
pub mod conversation;
pub mod stream;
pub mod expand;
pub mod slash;
pub mod tomltree;
pub mod config;
pub mod prompt;
pub mod travel;
pub mod retry;
pub mod actions;
pub mod display;
pub mod transcript;
pub mod framing;
pub mod toolcalls;
pub mod records;
pub mod geo;
pub mod toolbox;

verus! {

} // verus!
