//! Game logic and protocol codecs of a Minecraft server, with their
//! contracts proved by Verus.
use vstd::prelude::*;

pub mod codec;
pub mod raw;
pub mod spawn_info;
pub mod world;
pub mod redstone;
pub mod items;
pub mod crafting;
pub mod villager;
pub mod hopper;
pub mod crop;
pub mod tick_schedule;
pub mod block_update;
mod random;
pub mod save_system;
pub mod entity_ai;
pub mod combat;
pub mod mob_spawning;
pub mod dimension;
pub mod server_config;
pub mod auth;
pub mod packets;
pub mod anvil;
pub mod registry;
pub mod registry_sync;
pub mod forwarding;
pub mod connection;
pub mod falling;
pub mod spawn;
pub mod tags;
pub mod jar_data;
pub mod data_files;

verus! {

} // verus!
