//! A small text-adventure library: a world of named locations joined by
//! directional exits, a player who explores it, a scripted melee encounter,
//! and a save-document codec, all with verified contracts.

pub mod codec;
pub mod combat;
pub mod explore;
pub mod player;
pub mod service;
pub mod text;
pub mod world;
