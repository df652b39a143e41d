//! Wire protocol: message buffers, little-endian encoding and packet layouts.
use vstd::prelude::*;

pub mod challenge;
pub mod game_login;
pub mod geometry;
pub mod le;
pub mod login;
pub mod message;
pub mod output_message;
pub mod packets;
pub mod protocol_version;
pub mod requests;
pub mod say;
pub mod server;
pub mod status;
pub mod use_item;
pub mod moving;
pub mod attack;
pub mod outfit_window;
pub mod text_window;
pub mod bed;
pub mod connection;

verus! {

} // verus!
