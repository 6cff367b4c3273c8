//! Mob kinds, which of them are hostile, which spawn where, and the spawn
//! cap.
use vstd::prelude::*;
use crate::villager::VillagerProfession;
use crate::random::random_below;

verus! {

/// The kinds of mob.
#[derive(Clone, Copy, Debug, PartialEq, Eq, Hash, Structural)]
pub enum MobType {
    Zombie,
    Skeleton,
    Creeper,
    Spider,
    Enderman,
    Villager,
    Pig,
    Cow,
    Sheep,
    Chicken,
    Blaze,
    Ghast,
    WitherSkeleton,
    Endermite,
}

/// The hostile kinds: all but villagers, pigs, cows, sheep and chickens.
pub open spec fn spec_is_hostile(m: MobType) -> bool {
    !(m == MobType::Villager || m == MobType::Pig || m == MobType::Cow || m == MobType::Sheep || m
        == MobType::Chicken)
}

impl MobType {
    /// Whether the mob attacks players.
    pub fn is_hostile(&self) -> (b: bool)
        ensures
            b == spec_is_hostile(*self),
    {
        match self {
            MobType::Zombie | MobType::Skeleton | MobType::Creeper | MobType::Spider | MobType::Enderman
            | MobType::Blaze | MobType::Ghast | MobType::WitherSkeleton | MobType::Endermite => true,
            _ => false,
        }
    }

    /// The hostile mobs of the overworld.
    pub fn overworld_hostile_mobs() -> (v: Vec<MobType>)
        ensures
            v@ == seq![MobType::Zombie, MobType::Skeleton, MobType::Creeper, MobType::Spider, MobType::Enderman],
    {
        vec![MobType::Zombie, MobType::Skeleton, MobType::Creeper, MobType::Spider, MobType::Enderman]
    }

    /// The passive mobs of the overworld.
    pub fn overworld_passive_mobs() -> (v: Vec<MobType>)
        ensures
            v@ == seq![MobType::Pig, MobType::Cow, MobType::Sheep, MobType::Chicken, MobType::Villager],
    {
        vec![MobType::Pig, MobType::Cow, MobType::Sheep, MobType::Chicken, MobType::Villager]
    }

    /// The hostile mobs of the nether.
    pub fn nether_hostile_mobs() -> (v: Vec<MobType>)
        ensures
            v@ == seq![
                MobType::Zombie,
                MobType::Skeleton,
                MobType::Blaze,
                MobType::Ghast,
                MobType::WitherSkeleton,
                MobType::Endermite,
            ],
    {
        vec![
            MobType::Zombie,
            MobType::Skeleton,
            MobType::Blaze,
            MobType::Ghast,
            MobType::WitherSkeleton,
            MobType::Endermite,
        ]
    }

    /// The hostile mobs of the end.
    pub fn end_hostile_mobs() -> (v: Vec<MobType>)
        ensures
            v@ == seq![MobType::Enderman, MobType::Endermite],
    {
        vec![MobType::Enderman, MobType::Endermite]
    }
}

/// Whether the mob cap is reached: at least `max_per_player` mobs for each
/// player, counting at least one player.
pub open spec fn spec_spawn_cap_reached(mob_count: u32, player_count: usize, max_per_player: u32) -> bool {
    let players = if player_count == 0 { 1 } else { player_count as int };
    mob_count >= max_per_player * players
}

/// Whether the mob cap is reached (see [`spec_spawn_cap_reached`]).
pub fn spawn_cap_reached(mob_count: u32, player_count: usize, max_per_player: u32) -> (b: bool)
    requires
        player_count <= u32::MAX,
        max_per_player * (if player_count == 0 { 1 } else { player_count as int }) <= u32::MAX,
    ensures
        b == spec_spawn_cap_reached(mob_count, player_count, max_per_player),
{
    let players: u32 = if player_count == 0 { 1 } else { player_count as u32 };
    mob_count >= max_per_player * players
}

/// The professions a spawned villager may get, in the order they are
/// drawn from.
pub open spec fn spawn_professions() -> Seq<VillagerProfession> {
    seq![
        VillagerProfession::Farmer,
        VillagerProfession::Librarian,
        VillagerProfession::Cleric,
        VillagerProfession::Armorer,
        VillagerProfession::Weaponsmith,
        VillagerProfession::Toolsmith,
        VillagerProfession::Butcher,
        VillagerProfession::Leatherworker,
        VillagerProfession::Mason,
        VillagerProfession::Fisherman,
        VillagerProfession::Fletcher,
        VillagerProfession::Shepherd,
        VillagerProfession::Cartographer,
    ]
}

/// The profession of a spawned villager for a draw below 13.
pub fn spawn_profession(roll: usize) -> (p: VillagerProfession)
    requires
        roll < 13,
    ensures
        p == spawn_professions()[roll as int],
{
    let professions = [
        VillagerProfession::Farmer,
        VillagerProfession::Librarian,
        VillagerProfession::Cleric,
        VillagerProfession::Armorer,
        VillagerProfession::Weaponsmith,
        VillagerProfession::Toolsmith,
        VillagerProfession::Butcher,
        VillagerProfession::Leatherworker,
        VillagerProfession::Mason,
        VillagerProfession::Fisherman,
        VillagerProfession::Fletcher,
        VillagerProfession::Shepherd,
        VillagerProfession::Cartographer,
    ];
    proof {
        assert(professions@ =~= spawn_professions());
    }
    professions[roll]
}

/// A random profession for a spawned villager, drawn evenly from
/// [`spawn_professions`].
pub fn random_villager_profession() -> (p: VillagerProfession)
    ensures
        spawn_professions().contains(p),
{
    let roll = random_below(13);
    let p = spawn_profession(roll as usize);
    proof {
        assert(spawn_professions()[roll as int] == p);
    }
    p
}

/// A mob drawn evenly from a non-empty list.
pub fn random_mob(types: &Vec<MobType>) -> (m: MobType)
    requires
        0 < types@.len(),
    ensures
        types@.contains(m),
{
    let roll = random_below(types.len() as u64);
    let m = types[roll as usize];
    proof {
        assert(types@[roll as int] == m);
    }
    m
}

} // verus!
