//! Comparators: they pass the rear signal on when it is at least as strong
//! as the side signals, or subtract the stronger side from it.
use vstd::prelude::*;

use crate::redstone::repeater::{horizontal_facing, signal_at, spec_input_direction, spec_side_directions};
use crate::redstone::signal::{RedstoneSignal, RedstoneStrength, MAX_SIGNAL};
use crate::world::{spec_default_state, BlockKind, BlockState, ComparatorMode, Direction};

verus! {

/// A comparator and the signal it last computed.
#[derive(Clone, Copy, Debug, PartialEq, Eq, Structural)]
pub struct RedstoneComparator {
    pub facing: Direction,
    pub mode: ComparatorMode,
    pub powered: bool,
    pub output_power: RedstoneStrength,
    pub last_input_power: RedstoneStrength,
}

/// The comparator a block state describes, if it is one; missing
/// properties read as facing south, compare mode and unpowered. A powered
/// comparator reads as outputting full strength.
pub open spec fn spec_comparator_from(state: BlockState) -> Option<RedstoneComparator> {
    if state.kind != BlockKind::Comparator {
        None
    } else {
        let powered = match state.powered {
            Some(p) => p,
            None => false,
        };
        Some(
            RedstoneComparator {
                facing: horizontal_facing(state, Direction::South),
                mode: match state.mode {
                    Some(m) => m,
                    None => ComparatorMode::Compare,
                },
                powered,
                output_power: if powered {
                    MAX_SIGNAL
                } else {
                    0
                },
                last_input_power: 0,
            },
        )
    }
}

/// The comparator's state as a block: the default comparator with facing
/// (south for a vertical one), mode and powered set.
pub open spec fn spec_comparator_state(c: RedstoneComparator) -> BlockState {
    let base = spec_default_state(BlockKind::Comparator);
    let facing = match c.facing {
        Direction::North => Direction::North,
        Direction::South => Direction::South,
        Direction::West => Direction::West,
        Direction::East => Direction::East,
        _ => Direction::South,
    };
    BlockState { facing: Some(facing), mode: Some(c.mode), powered: Some(c.powered), ..base }
}

/// What a comparator outputs for a rear signal and two side signals.
pub open spec fn spec_comparator_output(mode: ComparatorMode, main: u8, side1: u8, side2: u8) -> u8 {
    let side = if side1 >= side2 {
        side1
    } else {
        side2
    };
    match mode {
        ComparatorMode::Compare => if main >= side {
            main
        } else {
            0
        },
        ComparatorMode::Subtract => if main >= side {
            (main - side) as u8
        } else {
            0
        },
    }
}

impl RedstoneComparator {
    /// An unpowered comparator facing south in compare mode.
    pub fn default() -> (c: RedstoneComparator)
        ensures
            c == (RedstoneComparator {
                facing: Direction::South,
                mode: ComparatorMode::Compare,
                powered: false,
                output_power: 0,
                last_input_power: 0,
            }),
    {
        RedstoneComparator {
            facing: Direction::South,
            mode: ComparatorMode::Compare,
            powered: false,
            output_power: 0,
            last_input_power: 0,
        }
    }

    /// Reads a comparator from a block state; `None` for any other block.
    pub fn from_block_state(state: BlockState) -> (res: Option<RedstoneComparator>)
        ensures
            res == spec_comparator_from(state),
    {
        if state.to_kind() != BlockKind::Comparator {
            return None;
        }
        let facing = match state.facing {
            Some(Direction::North) => Direction::North,
            Some(Direction::South) => Direction::South,
            Some(Direction::West) => Direction::West,
            Some(Direction::East) => Direction::East,
            _ => Direction::South,
        };
        let mode = match state.mode {
            Some(m) => m,
            None => ComparatorMode::Compare,
        };
        let powered = match state.powered {
            Some(p) => p,
            None => false,
        };
        Some(
            RedstoneComparator {
                facing,
                mode,
                powered,
                output_power: if powered {
                    MAX_SIGNAL
                } else {
                    0
                },
                last_input_power: 0,
            },
        )
    }

    /// The block state of this comparator.
    pub fn to_block_state(&self) -> (s: BlockState)
        ensures
            s == spec_comparator_state(*self),
    {
        let mut state = BlockState::default_of(BlockKind::Comparator);
        state =
        state.with_facing(
            match self.facing {
                Direction::North => Direction::North,
                Direction::South => Direction::South,
                Direction::West => Direction::West,
                Direction::East => Direction::East,
                _ => Direction::South,
            },
        );
        state = state.with_mode(self.mode);
        state = state.with_powered(self.powered);
        state
    }

    /// The side the comparator reads its main input from: behind it.
    pub fn get_input_direction(&self) -> (d: Direction)
        ensures
            d == spec_input_direction(self.facing),
    {
        match self.facing {
            Direction::North => Direction::South,
            Direction::South => Direction::North,
            Direction::West => Direction::East,
            Direction::East => Direction::West,
            _ => Direction::North,
        }
    }

    /// The side the comparator outputs to: the way it faces.
    pub fn get_output_direction(&self) -> (d: Direction)
        ensures
            d == self.facing,
    {
        self.facing
    }

    /// The two sides the side inputs come from.
    pub fn get_side_directions(&self) -> (d: [Direction; 2])
        ensures
            d@[0] == spec_side_directions(self.facing).0,
            d@[1] == spec_side_directions(self.facing).1,
    {
        match self.facing {
            Direction::North | Direction::South => [Direction::West, Direction::East],
            Direction::West | Direction::East => [Direction::North, Direction::South],
            _ => [Direction::West, Direction::East],
        }
    }

    /// Takes the rear signal (first) and the side signals (second and third),
    /// computes the output, and reports whether the output or the powered
    /// flag changed.
    pub fn update_signal(&mut self, inputs: &[RedstoneSignal], _current_tick: u64) -> (changed: bool)
        ensures
            final(self).output_power == spec_comparator_output(
                old(self).mode,
                signal_at(inputs@, 0),
                signal_at(inputs@, 1),
                signal_at(inputs@, 2),
            ),
            final(self).powered == (final(self).output_power > 0),
            final(self).last_input_power == signal_at(inputs@, 0),
            final(self).facing == old(self).facing,
            final(self).mode == old(self).mode,
            changed == (old(self).powered != final(self).powered || old(self).output_power
                != final(self).output_power),
    {
        let main_input: u8 = if inputs.len() > 0 {
            inputs[0].strength
        } else {
            0
        };
        let side_1: u8 = if inputs.len() > 1 {
            inputs[1].strength
        } else {
            0
        };
        let side_2: u8 = if inputs.len() > 2 {
            inputs[2].strength
        } else {
            0
        };
        let side = if side_1 >= side_2 {
            side_1
        } else {
            side_2
        };
        let output = match self.mode {
            ComparatorMode::Compare => {
                if main_input >= side {
                    main_input
                } else {
                    0
                }
            },
            ComparatorMode::Subtract => main_input.saturating_sub(side),
        };
        let new_powered = output > 0;
        let changed = self.powered != new_powered || self.output_power != output;
        self.powered = new_powered;
        self.output_power = output;
        self.last_input_power = main_input;
        changed
    }
}

} // verus!
