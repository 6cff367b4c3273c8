//! Redstone wire power: one less than its strongest neighbour.
use vstd::prelude::*;

use crate::redstone::signal::{get_power_level, spec_power_level, RedstoneStrength};
use crate::world::BlockState;

verus! {

/// The largest of four strengths.
pub open spec fn max4(a: u8, b: u8, c: u8, d: u8) -> u8 {
    let ab = if a >= b {
        a
    } else {
        b
    };
    let cd = if c >= d {
        c
    } else {
        d
    };
    if ab >= cd {
        ab
    } else {
        cd
    }
}

/// One less than `m`, but not below zero.
pub open spec fn decay(m: u8) -> u8 {
    if m > 0 {
        (m - 1) as u8
    } else {
        0
    }
}

/// The wire state after setting its power to `p`: values above 25 read as
/// 0, values from 16 to 25 are not a wire power and leave the state as it is.
pub open spec fn wire_with_power(state: BlockState, p: u8) -> BlockState {
    let v: u8 = if p <= 25 {
        p
    } else {
        0
    };
    if state.power is Some && v <= 15 {
        BlockState { power: Some(v), ..state }
    } else {
        state
    }
}

/// A wire takes one less than the strongest of its four neighbours; the new
/// state when that differs from its power, `None` when it does not.
pub fn calculate_wire_power(state: BlockState, neighbor_powers: [RedstoneStrength; 4]) -> (res: Option<BlockState>)
    ensures
        ({
            let m = max4(
                neighbor_powers@[0],
                neighbor_powers@[1],
                neighbor_powers@[2],
                neighbor_powers@[3],
            );
            if decay(m) != spec_power_level(state) {
                res == Some(wire_with_power(state, decay(m)))
            } else {
                res is None
            }
        }),
{
    let mut max_power: u8 = neighbor_powers[0];
    if neighbor_powers[1] > max_power {
        max_power = neighbor_powers[1];
    }
    let cd: u8 = if neighbor_powers[2] >= neighbor_powers[3] {
        neighbor_powers[2]
    } else {
        neighbor_powers[3]
    };
    if cd > max_power {
        max_power = cd;
    }
    let new_power = max_power.saturating_sub(1);
    let old_power = get_power_level(state);
    if new_power != old_power {
        Some(state.with_power(if new_power <= 25 { new_power } else { 0 }))
    } else {
        None
    }
}

} // verus!
