//! Core data structures, wire formats and rules of a game server for the
//! Tibia 8.60 protocol: network message buffers, checksums, packet layouts,
//! house access lists, parties, guilds, quests and spawn bookkeeping.
use vstd::prelude::*;

pub mod map;
pub mod net;
pub mod util;
pub mod world;

verus! {

} // verus!
