//! Pistons: which way they face and whether they are extended.
use vstd::prelude::*;

use crate::world::{spec_default_state, BlockKind, BlockState, Direction};

verus! {

/// A piston or sticky piston.
#[derive(Clone, Copy, Debug, PartialEq, Eq, Structural)]
pub struct Piston {
    pub facing: Direction,
    pub extended: bool,
    pub is_sticky: bool,
}

/// The piston a block state describes, if it is one; missing properties
/// read as facing north and retracted.
pub open spec fn spec_piston_from(state: BlockState) -> Option<Piston> {
    if state.kind != BlockKind::Piston && state.kind != BlockKind::StickyPiston {
        None
    } else {
        Some(
            Piston {
                facing: match state.facing {
                    Some(f) => f,
                    None => Direction::North,
                },
                extended: match state.extended {
                    Some(e) => e,
                    None => false,
                },
                is_sticky: state.kind == BlockKind::StickyPiston,
            },
        )
    }
}

/// The block state of a piston: the default state of its kind with its
/// facing and extension set.
pub open spec fn spec_piston_state(p: Piston) -> BlockState {
    let base = spec_default_state(
        if p.is_sticky {
            BlockKind::StickyPiston
        } else {
            BlockKind::Piston
        },
    );
    BlockState { facing: Some(p.facing), extended: Some(p.extended), ..base }
}

impl Piston {
    /// A retracted, non-sticky piston facing north.
    pub fn default() -> (p: Piston)
        ensures
            p == (Piston { facing: Direction::North, extended: false, is_sticky: false }),
    {
        Piston { facing: Direction::North, extended: false, is_sticky: false }
    }

    /// Reads a piston from a block state; `None` for any other block.
    pub fn from_block_state(state: BlockState) -> (res: Option<Piston>)
        ensures
            res == spec_piston_from(state),
    {
        let kind = state.to_kind();
        if kind != BlockKind::Piston && kind != BlockKind::StickyPiston {
            return None;
        }
        let facing = match state.facing {
            Some(f) => f,
            None => Direction::North,
        };
        let extended = match state.extended {
            Some(e) => e,
            None => false,
        };
        Some(Piston { facing, extended, is_sticky: kind == BlockKind::StickyPiston })
    }

    /// The block state of this piston.
    pub fn to_block_state(&self) -> (s: BlockState)
        ensures
            s == spec_piston_state(*self),
    {
        let base = BlockState::default_of(
            if self.is_sticky {
                BlockKind::StickyPiston
            } else {
                BlockKind::Piston
            },
        );
        base.with_facing(self.facing).with_extended(self.extended)
    }

    /// Whether the piston is extended.
    pub fn is_extended(&self) -> (b: bool)
        ensures
            b == self.extended,
    {
        self.extended
    }

    /// Extends or retracts the piston; the push limit is not consulted.
    pub fn set_extended(&mut self, extended: bool, _push_limit: u32)
        ensures
            *final(self) == (Piston { extended, ..*old(self) }),
    {
        self.extended = extended;
    }

    /// The direction the piston pushes in.
    pub fn get_extension_direction(&self) -> (d: Direction)
        ensures
            d == self.facing,
    {
        self.facing
    }
}

} // verus!
