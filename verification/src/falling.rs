//! Blocks that fall: whether a block loses its support, and where a falling
//! block may come to rest.
use vstd::prelude::*;
use crate::world::{BlockKind, BlockPos, BlockState, BlockWorld, world_get};

verus! {

/// The three kinds of air.
pub open spec fn spec_is_air_kind(s: BlockState) -> bool {
    s.kind == BlockKind::Air || s.kind == BlockKind::CaveAir || s.kind == BlockKind::VoidAir
}

/// Blocks that another block may take the place of: the airs, water, and
/// the grasses, ferns and dead bushes.
pub open spec fn spec_is_replaceable(s: BlockState) -> bool {
    s.kind == BlockKind::Air || s.kind == BlockKind::CaveAir || s.kind == BlockKind::VoidAir
        || s.kind == BlockKind::Water || s.kind == BlockKind::TallGrass || s.kind
        == BlockKind::Grass || s.kind == BlockKind::Fern || s.kind == BlockKind::DeadBush
}

/// Whether another block may take this block's place.
pub fn is_replaceable(s: BlockState) -> (b: bool)
    ensures
        b == spec_is_replaceable(s),
{
    match s.kind {
        BlockKind::Air | BlockKind::CaveAir | BlockKind::VoidAir | BlockKind::Water
        | BlockKind::TallGrass | BlockKind::Grass | BlockKind::Fern | BlockKind::DeadBush => true,
        _ => false,
    }
}

/// Whether a block at `pos` falls: the block below is missing (below the
/// world), air, or replaceable.
pub fn should_block_fall(world: &BlockWorld, pos: BlockPos) -> (b: bool)
    requires
        pos.y > i32::MIN,
    ensures
        b == match world_get(world.blocks@, BlockPos { x: pos.x, y: (pos.y - 1) as i32, z: pos.z }) {
            Some(s) => spec_is_replaceable(s),
            None => true,
        },
        match world_get(world.blocks@, BlockPos { x: pos.x, y: (pos.y - 1) as i32, z: pos.z }) {
            Some(s) => spec_is_air_kind(s) ==> b,
            None => b,
        },
{
    let below = BlockPos::new(pos.x, pos.y - 1, pos.z);
    match world.block(below) {
        Some(s) => s.is_air() || is_replaceable(s),
        None => true,
    }
}

/// Whether a falling block may be placed at `pos`: a block is stored there
/// and it is air or replaceable.
pub fn can_place_falling_block(world: &BlockWorld, pos: BlockPos) -> (b: bool)
    ensures
        b == match world_get(world.blocks@, pos) {
            Some(s) => spec_is_replaceable(s),
            None => false,
        },
        match world_get(world.blocks@, pos) {
            Some(s) => spec_is_air_kind(s) ==> b,
            None => !b,
        },
{
    match world.block(pos) {
        Some(s) => s.is_air() || is_replaceable(s),
        None => false,
    }
}

/// Air of any kind can be replaced: a block over air falls, and a falling
/// block may land where there is air.
pub proof fn lemma_air_is_replaceable(s: BlockState)
    ensures
        spec_is_air_kind(s) ==> spec_is_replaceable(s),
{
}

} // verus!
