//! Redstone torches: a torch is lit unless the block it stands on is powered.
use vstd::prelude::*;

use crate::redstone::signal::MAX_SIGNAL;
use crate::world::{spec_default_state, BlockKind, BlockState, Direction};

verus! {

/// A redstone torch (standing or on a wall).
#[derive(Clone, Copy, Debug, PartialEq, Eq, Structural)]
pub struct RedstoneTorch {
    pub lit: bool,
}

/// The torch a block state describes, if it is one; a missing `lit`
/// property reads as lit.
pub open spec fn spec_torch_from(state: BlockState) -> Option<RedstoneTorch> {
    if state.kind != BlockKind::RedstoneTorch && state.kind != BlockKind::RedstoneWallTorch {
        None
    } else {
        Some(
            RedstoneTorch {
                lit: match state.lit {
                    Some(l) => l,
                    None => true,
                },
            },
        )
    }
}

/// The block state of a torch: a standing torch when lit, a wall torch
/// when not, with `lit` set.
pub open spec fn spec_torch_state(t: RedstoneTorch) -> BlockState {
    let base = spec_default_state(
        if t.lit {
            BlockKind::RedstoneTorch
        } else {
            BlockKind::RedstoneWallTorch
        },
    );
    BlockState { lit: Some(t.lit), ..base }
}

impl RedstoneTorch {
    /// A lit torch.
    pub fn default() -> (t: RedstoneTorch)
        ensures
            t.lit,
    {
        RedstoneTorch { lit: true }
    }

    /// Reads a torch from a block state; `None` for any other block.
    pub fn from_block_state(state: BlockState) -> (res: Option<RedstoneTorch>)
        ensures
            res == spec_torch_from(state),
    {
        let kind = state.to_kind();
        if kind != BlockKind::RedstoneTorch && kind != BlockKind::RedstoneWallTorch {
            return None;
        }
        let lit = match state.lit {
            Some(l) => l,
            None => true,
        };
        Some(RedstoneTorch { lit })
    }

    /// The block state of this torch.
    pub fn to_block_state(&self) -> (s: BlockState)
        ensures
            s == spec_torch_state(*self),
    {
        let base = BlockState::default_of(
            if self.lit {
                BlockKind::RedstoneTorch
            } else {
                BlockKind::RedstoneWallTorch
            },
        );
        base.with_lit(self.lit)
    }

    /// The block a torch draws its input from: the one below.
    pub fn get_attachment_direction(&self) -> (d: Direction)
        ensures
            d == Direction::Down,
    {
        Direction::Down
    }

    /// Full strength when lit, none otherwise.
    pub fn get_output_power(&self) -> (p: u8)
        ensures
            p == (if self.lit {
                MAX_SIGNAL
            } else {
                0
            }),
    {
        if self.lit {
            MAX_SIGNAL
        } else {
            0
        }
    }
}

} // verus!
