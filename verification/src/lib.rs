//! Plin: a Clash Royale river-race tracker for Discord servers.
//!
//! The verified library holds everything the bot decides and computes:
//! the standings of the clans in a river race, the per-server settings
//! and how each command changes them, the replies it writes, the byte
//! form of server ids, and the decisions of the tracker loop.
use vstd::prelude::*;

pub mod clan;
pub mod commands;
pub mod duration;
pub mod guild;
pub mod legacy;
pub mod river_race;
pub mod text;
pub mod tracker;

verus! {

} // verus!
