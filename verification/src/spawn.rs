//! What a client is told when it joins the game or respawns: the world it
//! is put in and the join and respawn packets.
use vstd::prelude::*;
use crate::codec::VarInt;
use crate::packets::play::{GameJoinS2c, PlayerRespawnS2c};
use crate::spawn_info::{GlobalPos, GlobalPosView, SpawnInfo, SpawnInfoView};
use crate::world::BlockPos;

verus! {

/// The world a client is put in: the dimension type's registry index (0
/// when the registry does not have it, cut to 32 bits), its name, no seed,
/// survival with no previous game mode, neither debug nor flat, the last
/// death location, no portal cooldown, and sea level 64.
pub open spec fn spec_world_state(
    dimension_index: Option<usize>,
    name: Seq<char>,
    death: Option<GlobalPosView>,
) -> SpawnInfoView {
    SpawnInfoView {
        dimension: match dimension_index {
            Some(i) => i as i32,
            None => 0i32,
        },
        name,
        hashed_seed: 0i64,
        gamemode: 0u8,
        previous_gamemode: -1i8,
        is_debug: false,
        is_flat: false,
        death_location: death,
        portal_cooldown: 0i32,
        sea_level: 64i32,
    }
}

/// The death location of a client as a global position.
pub open spec fn death_view(death: Option<(String, BlockPos)>) -> Option<GlobalPosView> {
    match death {
        Some((d, p)) => Some(GlobalPosView { dimension_name: d@, x: p.x, y: p.y, z: p.z }),
        None => None,
    }
}

/// The world a client is put in (see [`spec_world_state`]).
pub fn world_state(
    dimension_index: Option<usize>,
    dimension_name: &str,
    death: Option<(String, BlockPos)>,
) -> (s: SpawnInfo)
    ensures
        s@ == spec_world_state(dimension_index, dimension_name@, death_view(death)),
{
    let dimension = match dimension_index {
        Some(i) => i as i32,
        None => 0,
    };
    let death_location = match death {
        Some((d, p)) => Some(GlobalPos { dimension_name: d, x: p.x, y: p.y, z: p.z }),
        None => None,
    };
    SpawnInfo {
        dimension: VarInt(dimension),
        name: dimension_name.to_owned(),
        hashed_seed: 0,
        gamemode: 0,
        previous_gamemode: -1,
        is_debug: false,
        is_flat: false,
        death_location,
        portal_cooldown: VarInt(0),
        sea_level: VarInt(64),
    }
}

/// The join packet of a client entering the world in the dimension named
/// `dimension_name`: entity 1, that one world, room for 20 players, the
/// client's view distance, simulation distance 10, full debug info, the
/// respawn screen, no limited crafting, online mode and no enforced secure
/// chat.
pub fn initial_join_packet(
    dimension_index: Option<usize>,
    dimension_name: &str,
    death: Option<(String, BlockPos)>,
    is_hardcore: bool,
    view_distance: u8,
) -> (p: GameJoinS2c)
    ensures
        p.entity_id == 1,
        p.is_hardcore == is_hardcore,
        p.world_names@.len() == 1,
        p.world_names@[0]@ == dimension_name@,
        p.max_players.0 == 20,
        p.view_distance.0 == view_distance,
        p.simulation_distance.0 == 10,
        !p.reduced_debug_info,
        p.enable_respawn_screen,
        !p.do_limited_crafting,
        p.world_state@ == spec_world_state(dimension_index, dimension_name@, death_view(death)),
        p.online_mode,
        !p.enforces_secure_chat,
{
    let world_state = world_state(dimension_index, dimension_name, death);
    let mut world_names: Vec<String> = Vec::new();
    world_names.push(dimension_name.to_owned());
    GameJoinS2c {
        entity_id: 1,
        is_hardcore,
        world_names,
        max_players: VarInt(20),
        view_distance: VarInt(view_distance as i32),
        simulation_distance: VarInt(10),
        reduced_debug_info: false,
        enable_respawn_screen: true,
        do_limited_crafting: false,
        world_state,
        online_mode: true,
        enforces_secure_chat: false,
    }
}

/// The respawn packet of a client moved to the dimension named
/// `dimension_name`: that world with no death location, keeping the
/// client's metadata (1).
pub fn respawn_packet(dimension_index: Option<usize>, dimension_name: &str) -> (p: PlayerRespawnS2c)
    ensures
        p.world_state@ == spec_world_state(dimension_index, dimension_name@, None),
        p.copy_metadata == 1,
{
    PlayerRespawnS2c { world_state: world_state(dimension_index, dimension_name, None), copy_metadata: 1 }
}

} // verus!
