//! The game world's own records: guilds, parties, quests, raids, spawns,
//! outfits, mounts and groups.
pub mod guild;
pub mod party;
pub mod quests;
pub mod mounts;
pub mod outfit;
pub mod raids;
pub mod spawn;
pub mod groups;
pub mod vocation;
pub mod inventory;
