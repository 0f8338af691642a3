//! Core logic of a chat-bot command processor: per-chat access control,
//! a multi-step quiz dialogue, and the randomized quiz composer.

pub mod adminstore;
pub mod authstore;
pub mod command;
pub mod config;
pub mod dialogue;
pub mod gate;
pub mod messages;
pub mod quiz;
pub mod roster;
pub mod strseq;

use vstd::prelude::*;

verus! {

/// Maximum number of options a quiz poll may carry.
pub const POLL_MAX_OPTIONS_COUNT: usize = 10;

} // verus!
