//! Repeaters: they carry a signal forward at full strength unless locked by
//! a powered repeater or comparator at their side.
use vstd::prelude::*;

use crate::redstone::signal::RedstoneSignal;
use crate::world::{spec_default_state, BlockKind, BlockState, Direction};

verus! {

/// A repeater.
#[derive(Clone, Copy, Debug, PartialEq, Eq, Structural)]
pub struct RedstoneRepeater {
    pub facing: Direction,
    pub delay: u8,
    pub powered: bool,
    pub locked: bool,
}

/// The horizontal facing of a block state, `dflt` when there is none.
pub open spec fn horizontal_facing(state: BlockState, dflt: Direction) -> Direction {
    match state.facing {
        Some(Direction::North) => Direction::North,
        Some(Direction::South) => Direction::South,
        Some(Direction::West) => Direction::West,
        Some(Direction::East) => Direction::East,
        _ => dflt,
    }
}

/// The repeater a block state describes, if it is one; missing properties
/// read as facing south, delay 1, unpowered and unlocked.
pub open spec fn spec_repeater_from(state: BlockState) -> Option<RedstoneRepeater> {
    if state.kind != BlockKind::Repeater {
        None
    } else {
        Some(
            RedstoneRepeater {
                facing: horizontal_facing(state, Direction::South),
                delay: match state.delay {
                    Some(d) => d,
                    None => 1,
                },
                powered: match state.powered {
                    Some(p) => p,
                    None => false,
                },
                locked: match state.locked {
                    Some(l) => l,
                    None => false,
                },
            },
        )
    }
}

/// The repeater's state as a block: the default repeater with facing (south
/// for a vertical one), delay (a value out of 1..=4 leaves the default of 1),
/// powered and locked set.
pub open spec fn spec_repeater_state(r: RedstoneRepeater) -> BlockState {
    let base = spec_default_state(BlockKind::Repeater);
    let facing = match r.facing {
        Direction::North => Direction::North,
        Direction::South => Direction::South,
        Direction::West => Direction::West,
        Direction::East => Direction::East,
        _ => Direction::South,
    };
    let delay: u8 = if 1 <= r.delay <= 4 {
        r.delay
    } else {
        1
    };
    BlockState {
        facing: Some(facing),
        delay: Some(delay),
        powered: Some(r.powered),
        locked: Some(r.locked),
        ..base
    }
}

/// The direction a repeater facing `f` takes its input from.
pub open spec fn spec_input_direction(f: Direction) -> Direction {
    match f {
        Direction::North => Direction::South,
        Direction::South => Direction::North,
        Direction::West => Direction::East,
        Direction::East => Direction::West,
        _ => Direction::North,
    }
}

/// The two side directions of a component facing `f`.
pub open spec fn spec_side_directions(f: Direction) -> (Direction, Direction) {
    match f {
        Direction::North | Direction::South => (Direction::West, Direction::East),
        Direction::West | Direction::East => (Direction::North, Direction::South),
        _ => (Direction::West, Direction::East),
    }
}

/// The strength of the `i`-th signal, 0 when there is none.
pub open spec fn signal_at(inputs: Seq<RedstoneSignal>, i: int) -> u8 {
    if 0 <= i < inputs.len() {
        inputs[i].strength
    } else {
        0
    }
}

impl RedstoneRepeater {
    /// An unpowered, unlocked repeater facing south with delay 1.
    pub fn default() -> (r: RedstoneRepeater)
        ensures
            r == (RedstoneRepeater {
                facing: Direction::South,
                delay: 1,
                powered: false,
                locked: false,
            }),
    {
        RedstoneRepeater { facing: Direction::South, delay: 1, powered: false, locked: false }
    }

    /// Reads a repeater from a block state; `None` for any other block.
    pub fn from_block_state(state: BlockState) -> (res: Option<RedstoneRepeater>)
        ensures
            res == spec_repeater_from(state),
    {
        if state.to_kind() != BlockKind::Repeater {
            return None;
        }
        let facing = match state.facing {
            Some(Direction::North) => Direction::North,
            Some(Direction::South) => Direction::South,
            Some(Direction::West) => Direction::West,
            Some(Direction::East) => Direction::East,
            _ => Direction::South,
        };
        let delay = match state.delay {
            Some(d) => d,
            None => 1,
        };
        let powered = match state.powered {
            Some(p) => p,
            None => false,
        };
        let locked = match state.locked {
            Some(l) => l,
            None => false,
        };
        Some(RedstoneRepeater { facing, delay, powered, locked })
    }

    /// The block state of this repeater.
    pub fn to_block_state(&self) -> (s: BlockState)
        ensures
            s == spec_repeater_state(*self),
    {
        let mut state = BlockState::default_of(BlockKind::Repeater);
        state =
        state.with_facing(
            match self.facing {
                Direction::North => Direction::North,
                Direction::South => Direction::South,
                Direction::West => Direction::West,
                Direction::East => Direction::East,
                _ => Direction::South,
            },
        );
        state = state.with_delay(if self.delay <= 25 { self.delay } else { 1 });
        state = state.with_powered(self.powered);
        state = state.with_locked(self.locked);
        state
    }

    /// The side the repeater reads its input from: behind it.
    pub fn get_input_direction(&self) -> (d: Direction)
        ensures
            d == spec_input_direction(self.facing),
    {
        match self.facing {
            Direction::North => Direction::South,
            Direction::South => Direction::North,
            Direction::West => Direction::East,
            Direction::East => Direction::West,
            _ => Direction::North,
        }
    }

    /// The side the repeater outputs to: the way it faces.
    pub fn get_output_direction(&self) -> (d: Direction)
        ensures
            d == self.facing,
    {
        self.facing
    }

    /// The two sides a locking signal can come from.
    pub fn get_lock_directions(&self) -> (d: [Direction; 2])
        ensures
            d@[0] == spec_side_directions(self.facing).0,
            d@[1] == spec_side_directions(self.facing).1,
    {
        match self.facing {
            Direction::North | Direction::South => [Direction::West, Direction::East],
            Direction::West | Direction::East => [Direction::North, Direction::South],
            _ => [Direction::West, Direction::East],
        }
    }

    /// Takes the main input (first signal) and the lock input (second
    /// signal). A locked repeater keeps its state and reports no change;
    /// otherwise it is powered when the main input is and locked when the
    /// lock input is, and reports whether either changed.
    pub fn update_signal(&mut self, inputs: &[RedstoneSignal], _current_tick: u64) -> (changed: bool)
        ensures
            old(self).locked ==> !changed && *final(self) == *old(self),
            !old(self).locked ==> {
                &&& final(self).powered == (signal_at(inputs@, 0) > 0)
                &&& final(self).locked == (signal_at(inputs@, 1) > 0)
                &&& final(self).facing == old(self).facing
                &&& final(self).delay == old(self).delay
                &&& changed == (old(self).powered != final(self).powered || old(self).locked
                    != final(self).locked)
            },
    {
        if self.locked {
            return false;
        }
        let main_input: u8 = if inputs.len() > 0 {
            inputs[0].strength
        } else {
            0
        };
        let lock_power: u8 = if inputs.len() > 1 {
            inputs[1].strength
        } else {
            0
        };
        let should_be_powered = main_input > 0;
        let should_be_locked = lock_power > 0;
        let changed = self.powered != should_be_powered || self.locked != should_be_locked;
        self.powered = should_be_powered;
        self.locked = should_be_locked;
        changed
    }
}

} // verus!
