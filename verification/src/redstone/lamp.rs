//! Redstone lamps: lit exactly while powered.
use vstd::prelude::*;

use crate::world::BlockState;

verus! {

/// The lamp state with its `lit` property set to `powered`.
pub fn process_lamp_update(state: BlockState, powered: bool) -> (s: BlockState)
    ensures
        s == (if state.lit is Some {
            BlockState { lit: Some(powered), ..state }
        } else {
            state
        }),
{
    state.with_lit(powered)
}

} // verus!
