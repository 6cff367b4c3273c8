//! Redstone propagation over a world of blocks: each queued position is
//! recomputed from the signals around it, and the positions its change
//! affects are queued in turn.
pub mod comparator;
pub mod lamp;
pub mod piston;
pub mod repeater;
pub mod signal;
pub mod torch;
pub mod wire;

use vstd::prelude::*;

use crate::redstone::comparator::{spec_comparator_from, spec_comparator_output, spec_comparator_state, RedstoneComparator};
use crate::redstone::piston::{spec_piston_from, spec_piston_state, Piston};
use crate::redstone::repeater::{
    signal_at, spec_input_direction, spec_repeater_from, spec_repeater_state, spec_side_directions,
    RedstoneRepeater,
};
use crate::redstone::signal::{
    get_horizontal_directions, get_power_level, horizontal, is_redstone_conductor, offset_pos,
    spec_is_conductor, spec_power_level, RedstoneSignal, RedstoneStrength, RedstoneUpdateEntry,
    RedstoneUpdateQueue, SignalType, UpdateType, MAX_SIGNAL,
};
use crate::redstone::torch::{spec_torch_from, RedstoneTorch};
use crate::redstone::wire::max4;
use crate::world::{
    lemma_lookup_facts, lemma_store_lookup, lemma_store_wf, max_y, pos_in_bounds, spec_offset,
    state_wf, store, world_get, world_wf, BlockKind, BlockPos, BlockState, BlockWorld, ComparatorMode,
    Direction,
};

verus! {

/// The tick counter of the redstone updates.
pub struct RedstoneSystemState {
    pub current_tick: u64,
}

impl RedstoneSystemState {
    /// A counter at tick zero.
    pub fn new() -> (s: RedstoneSystemState)
        ensures
            s.current_tick == 0,
    {
        RedstoneSystemState { current_tick: 0 }
    }
}

/// The larger of two strengths.
pub open spec fn max2(a: u8, b: u8) -> u8 {
    if a >= b {
        a
    } else {
        b
    }
}

/// The torch a state describes, or a lit torch.
pub open spec fn torch_or_default(s: BlockState) -> RedstoneTorch {
    match spec_torch_from(s) {
        Some(t) => t,
        None => RedstoneTorch { lit: true },
    }
}

/// The repeater a state describes, or the default repeater.
pub open spec fn repeater_or_default(s: BlockState) -> RedstoneRepeater {
    match spec_repeater_from(s) {
        Some(r) => r,
        None => RedstoneRepeater { facing: Direction::South, delay: 1, powered: false, locked: false },
    }
}

/// The comparator a state describes, or the default comparator.
pub open spec fn comparator_or_default(s: BlockState) -> RedstoneComparator {
    match spec_comparator_from(s) {
        Some(c) => c,
        None => RedstoneComparator {
            facing: Direction::South,
            mode: ComparatorMode::Compare,
            powered: false,
            output_power: 0,
            last_input_power: 0,
        },
    }
}

/// The piston a state describes, or the default piston.
pub open spec fn piston_or_default(s: BlockState) -> Piston {
    match spec_piston_from(s) {
        Some(p) => p,
        None => Piston { facing: Direction::North, extended: false, is_sticky: false },
    }
}

/// The signal a block at `pos` sends into a neighbour that lies in
/// direction `from` of it: wire sends its power, a lit torch and a redstone
/// block full strength, a repeater or comparator only the way it faces, and
/// a conductor whose upper neighbour is a conductor passes on the strongest
/// signal around that upper block.
pub open spec fn spec_signal(w: Seq<(BlockPos, BlockState)>, state: BlockState, pos: BlockPos, from: Direction) -> u8
    decreases max_y(w) - pos.y,
{
    match state.kind {
        BlockKind::RedstoneWire => spec_power_level(state),
        BlockKind::RedstoneTorch | BlockKind::RedstoneWallTorch => if torch_or_default(state).lit {
            MAX_SIGNAL
        } else {
            0
        },
        BlockKind::Repeater => {
            let r = repeater_or_default(state);
            if r.powered && from == r.facing {
                MAX_SIGNAL
            } else {
                0
            }
        },
        BlockKind::Comparator => {
            let c = comparator_or_default(state);
            if c.powered && from == c.facing {
                c.output_power
            } else {
                0
            }
        },
        BlockKind::RedstoneBlock => MAX_SIGNAL,
        _ => if spec_is_conductor(state) {
            let above = spec_offset(pos, Direction::Up);
            match world_get(w, above) {
                Some(a) => if spec_is_conductor(a) && pos.y + 1 <= max_y(w) && pos.y + 1 <= i32::MAX {
                    let s0 = spec_offset(above, horizontal(0));
                    let s1 = spec_offset(above, horizontal(1));
                    let s2 = spec_offset(above, horizontal(2));
                    let s3 = spec_offset(above, horizontal(3));
                    max4(
                        match world_get(w, s0) {
                            Some(t) => spec_signal(w, t, s0, horizontal(0)),
                            None => 0,
                        },
                        match world_get(w, s1) {
                            Some(t) => spec_signal(w, t, s1, horizontal(1)),
                            None => 0,
                        },
                        match world_get(w, s2) {
                            Some(t) => spec_signal(w, t, s2, horizontal(2)),
                            None => 0,
                        },
                        match world_get(w, s3) {
                            Some(t) => spec_signal(w, t, s3, horizontal(3)),
                            None => 0,
                        },
                    )
                } else {
                    0
                },
                None => 0,
            }
        } else {
            0
        },
    }
}

/// The signal arriving at `pos` from its neighbour in direction `d`.
pub open spec fn neighbor_signal(w: Seq<(BlockPos, BlockState)>, pos: BlockPos, d: Direction) -> u8 {
    let n = spec_offset(pos, d);
    match world_get(w, n) {
        Some(t) => spec_signal(w, t, n, d),
        None => 0,
    }
}

/// The strongest signal from the four horizontal neighbours of `pos`.
pub open spec fn horizontal_signal(w: Seq<(BlockPos, BlockState)>, pos: BlockPos) -> u8 {
    max4(
        neighbor_signal(w, pos, horizontal(0)),
        neighbor_signal(w, pos, horizontal(1)),
        neighbor_signal(w, pos, horizontal(2)),
        neighbor_signal(w, pos, horizontal(3)),
    )
}

/// The signal a block gives out directly, whatever side is asked.
pub open spec fn spec_strong_signal(state: BlockState) -> u8 {
    match state.kind {
        BlockKind::RedstoneWire => spec_power_level(state),
        BlockKind::RedstoneTorch | BlockKind::RedstoneWallTorch => if torch_or_default(state).lit {
            MAX_SIGNAL
        } else {
            0
        },
        BlockKind::Repeater => if repeater_or_default(state).powered {
            MAX_SIGNAL
        } else {
            0
        },
        BlockKind::Comparator => {
            let c = comparator_or_default(state);
            if c.powered {
                c.output_power
            } else {
                0
            }
        },
        BlockKind::RedstoneBlock => MAX_SIGNAL,
        _ => 0,
    }
}

/// The direct signal of the block at `p`, 0 where there is none.
pub open spec fn strong_at(w: Seq<(BlockPos, BlockState)>, p: BlockPos) -> u8 {
    match world_get(w, p) {
        Some(t) => spec_strong_signal(t),
        None => 0,
    }
}

/// The four horizontal neighbours of `pos`.
pub open spec fn horizontal_neighbors(pos: BlockPos) -> Seq<BlockPos> {
    seq![
        spec_offset(pos, Direction::North),
        spec_offset(pos, Direction::South),
        spec_offset(pos, Direction::West),
        spec_offset(pos, Direction::East),
    ]
}

/// The strongest signal reaching a wire at `pos`: from its horizontal
/// neighbours, from around a conducting block above it, and from a
/// conducting block below it.
pub open spec fn wire_input(w: Seq<(BlockPos, BlockState)>, pos: BlockPos) -> u8 {
    let above = spec_offset(pos, Direction::Up);
    let from_above = match world_get(w, above) {
        Some(a) => if spec_is_conductor(a) {
            horizontal_signal(w, above)
        } else {
            0
        },
        None => 0,
    };
    let below = spec_offset(pos, Direction::Down);
    let from_below = match world_get(w, below) {
        Some(b) => if spec_is_conductor(b) {
            spec_signal(w, b, below, Direction::Down)
        } else {
            0
        },
        None => 0,
    };
    max2(max2(horizontal_signal(w, pos), from_above), from_below)
}

/// A wire's new state and the neighbours to update, when its power changes:
/// its power becomes one less than the strongest signal reaching it (see
/// [`wire_input`]).
pub open spec fn spec_process_wire(w: Seq<(BlockPos, BlockState)>, pos: BlockPos, state: BlockState) -> Option<(BlockState, Seq<BlockPos>)> {
    let m = wire_input(w, pos);
    let new_power: u8 = if m > 0 {
        (m - 1) as u8
    } else {
        0
    };
    if new_power != spec_power_level(state) {
        let s = if state.power is Some && new_power <= 15 {
            BlockState { power: Some(new_power), ..state }
        } else {
            state
        };
        Some((s, horizontal_neighbors(pos)))
    } else {
        None
    }
}

/// No block sends a signal stronger than full strength.
pub proof fn lemma_signal_bounded(w: Seq<(BlockPos, BlockState)>, state: BlockState, pos: BlockPos, from: Direction)
    requires
        world_wf(w),
        state_wf(state),
    ensures
        spec_signal(w, state, pos, from) <= MAX_SIGNAL,
    decreases max_y(w) - pos.y,
{
    let above = spec_offset(pos, Direction::Up);
    if let Some(a) = world_get(w, above) {
        if spec_is_conductor(a) && pos.y + 1 <= max_y(w) && pos.y + 1 <= i32::MAX {
            let s0 = spec_offset(above, horizontal(0));
            let s1 = spec_offset(above, horizontal(1));
            let s2 = spec_offset(above, horizontal(2));
            let s3 = spec_offset(above, horizontal(3));
            lemma_lookup_facts(w, s0);
            lemma_lookup_facts(w, s1);
            lemma_lookup_facts(w, s2);
            lemma_lookup_facts(w, s3);
            if let Some(t) = world_get(w, s0) {
                lemma_signal_bounded(w, t, s0, horizontal(0));
            }
            if let Some(t) = world_get(w, s1) {
                lemma_signal_bounded(w, t, s1, horizontal(1));
            }
            if let Some(t) = world_get(w, s2) {
                lemma_signal_bounded(w, t, s2, horizontal(2));
            }
            if let Some(t) = world_get(w, s3) {
                lemma_signal_bounded(w, t, s3, horizontal(3));
            }
        }
    }
}

proof fn lemma_neighbor_signal_bounded(w: Seq<(BlockPos, BlockState)>, pos: BlockPos, d: Direction)
    requires
        world_wf(w),
    ensures
        neighbor_signal(w, pos, d) <= MAX_SIGNAL,
{
    let n = spec_offset(pos, d);
    lemma_lookup_facts(w, n);
    if let Some(t) = world_get(w, n) {
        lemma_signal_bounded(w, t, n, d);
    }
}

proof fn lemma_horizontal_signal_bounded(w: Seq<(BlockPos, BlockState)>, pos: BlockPos)
    requires
        world_wf(w),
    ensures
        horizontal_signal(w, pos) <= MAX_SIGNAL,
{
    lemma_neighbor_signal_bounded(w, pos, horizontal(0));
    lemma_neighbor_signal_bounded(w, pos, horizontal(1));
    lemma_neighbor_signal_bounded(w, pos, horizontal(2));
    lemma_neighbor_signal_bounded(w, pos, horizontal(3));
}

/// The signal reaching a wire is at least each signal from its horizontal
/// neighbours, and at most full strength.
pub proof fn lemma_wire_input_bounds(w: Seq<(BlockPos, BlockState)>, pos: BlockPos)
    requires
        world_wf(w),
    ensures
        wire_input(w, pos) <= MAX_SIGNAL,
        forall|k: int| 0 <= k < 4 ==> neighbor_signal(w, pos, #[trigger] horizontal(k)) <= wire_input(w, pos),
{
    lemma_horizontal_signal_bounded(w, pos);
    lemma_horizontal_signal_bounded(w, spec_offset(pos, Direction::Up));
    let below = spec_offset(pos, Direction::Down);
    lemma_lookup_facts(w, below);
    if let Some(b) = world_get(w, below) {
        lemma_signal_bounded(w, b, below, Direction::Down);
    }
}

/// A wire's power after it is recomputed is one less than the strongest
/// signal reaching it, and 0 when none reaches it: a wire always carries
/// less than what powers it, so the signal weakens by one along each wire.
/// A wire with full strength next to it (a lit torch, a redstone block)
/// carries 14.
pub proof fn lemma_wire_power_one_below_input(w: Seq<(BlockPos, BlockState)>, pos: BlockPos, state: BlockState)
    requires
        world_wf(w),
        state.kind == BlockKind::RedstoneWire,
        state_wf(state),
    ensures
        ({
            let after = match spec_process_wire(w, pos, state) {
                Some((s, _)) => spec_power_level(s),
                None => spec_power_level(state),
            };
            &&& wire_input(w, pos) > 0 ==> after + 1 == wire_input(w, pos)
            &&& wire_input(w, pos) == 0 ==> after == 0
            &&& after < MAX_SIGNAL
            &&& (forall|k: int| 0 <= k < 4 && neighbor_signal(w, pos, #[trigger] horizontal(k)) == MAX_SIGNAL ==> after == 14)
        }),
{
    lemma_wire_input_bounds(w, pos);
    assert(crate::world::spec_default_state(BlockKind::RedstoneWire).power is Some);
}

/// A torch is lit exactly when the wire below it carries no power; its new
/// state and the neighbours to update (horizontal ones, then the one above),
/// when that changes.
pub open spec fn spec_process_torch(w: Seq<(BlockPos, BlockState)>, pos: BlockPos, state: BlockState) -> Option<(BlockState, Seq<BlockPos>)> {
    let input = match world_get(w, spec_offset(pos, Direction::Down)) {
        Some(b) => spec_power_level(b),
        None => 0,
    };
    let should_be_lit = input == 0;
    if torch_or_default(state).lit != should_be_lit {
        let s = if state.lit is Some {
            BlockState { lit: Some(should_be_lit), ..state }
        } else {
            state
        };
        Some((s, horizontal_neighbors(pos).push(spec_offset(pos, Direction::Up))))
    } else {
        None
    }
}

/// A repeater reads the signal behind it and the stronger of its two sides;
/// when that changes it, its new state and the position in front of it.
pub open spec fn spec_process_repeater(w: Seq<(BlockPos, BlockState)>, pos: BlockPos, state: BlockState) -> Option<(BlockState, Seq<BlockPos>)> {
    let r = repeater_or_default(state);
    let input = neighbor_signal(w, pos, spec_input_direction(r.facing));
    let (s1, s2) = spec_side_directions(r.facing);
    let lock = max2(neighbor_signal(w, pos, s1), neighbor_signal(w, pos, s2));
    if r.locked {
        None
    } else {
        let next = RedstoneRepeater { powered: input > 0, locked: lock > 0, ..r };
        if next.powered != r.powered || next.locked != r.locked {
            Some((spec_repeater_state(next), seq![spec_offset(pos, r.facing)]))
        } else {
            None
        }
    }
}

/// A comparator reads the signal behind it and at its two sides; when its
/// output or powered flag changes, its new state and the position in front
/// of it.
pub open spec fn spec_process_comparator(w: Seq<(BlockPos, BlockState)>, pos: BlockPos, state: BlockState) -> Option<(BlockState, Seq<BlockPos>)> {
    let c = comparator_or_default(state);
    let input = neighbor_signal(w, pos, spec_input_direction(c.facing));
    let (d1, d2) = spec_side_directions(c.facing);
    let out = spec_comparator_output(
        c.mode,
        input,
        neighbor_signal(w, pos, d1),
        neighbor_signal(w, pos, d2),
    );
    let next = RedstoneComparator {
        powered: out > 0,
        output_power: out,
        last_input_power: input,
        ..c
    };
    if next.powered != c.powered || next.output_power != c.output_power {
        Some((spec_comparator_state(next), seq![spec_offset(pos, c.facing)]))
    } else {
        None
    }
}

/// A lamp is lit exactly when a signal reaches it from any of its six sides;
/// its new state when that changes.
pub open spec fn spec_process_lamp(w: Seq<(BlockPos, BlockState)>, pos: BlockPos, state: BlockState) -> Option<BlockState> {
    let total = max2(
        max2(horizontal_signal(w, pos), neighbor_signal(w, pos, Direction::Up)),
        neighbor_signal(w, pos, Direction::Down),
    );
    let was_lit = match state.lit {
        Some(l) => l,
        None => false,
    };
    let should_be_lit = total > 0;
    if was_lit != should_be_lit {
        Some(
            if state.lit is Some {
                BlockState { lit: Some(should_be_lit), ..state }
            } else {
                state
            },
        )
    } else {
        None
    }
}

/// A piston is extended exactly when a direct signal reaches it from any of
/// its six sides; its new state and the position it pushes into, when that
/// changes.
pub open spec fn spec_process_piston(w: Seq<(BlockPos, BlockState)>, pos: BlockPos, state: BlockState) -> Option<(BlockState, Seq<BlockPos>)> {
    let p = piston_or_default(state);
    let total = max2(
        max2(
            max4(
                strong_at(w, spec_offset(pos, Direction::North)),
                strong_at(w, spec_offset(pos, Direction::South)),
                strong_at(w, spec_offset(pos, Direction::West)),
                strong_at(w, spec_offset(pos, Direction::East)),
            ),
            strong_at(w, spec_offset(pos, Direction::Up)),
        ),
        strong_at(w, spec_offset(pos, Direction::Down)),
    );
    let should_be_extended = total > 0;
    if p.extended != should_be_extended {
        let next = Piston { extended: should_be_extended, ..p };
        Some((spec_piston_state(next), seq![spec_offset(pos, p.facing)]))
    } else {
        None
    }
}

/// The entries queued for each position of `ps`.
pub open spec fn entries_for(ps: Seq<BlockPos>, t: UpdateType) -> Seq<RedstoneUpdateEntry> {
    Seq::new(ps.len(), |i: int| RedstoneUpdateEntry { pos: ps[i], update_type: t })
}

/// What updating the block at `pos` does: the world afterwards and the
/// entries it queues.
pub open spec fn spec_update_at(w: Seq<(BlockPos, BlockState)>, pos: BlockPos) -> (Seq<(BlockPos, BlockState)>, Seq<RedstoneUpdateEntry>) {
    match world_get(w, pos) {
        None => (w, Seq::empty()),
        Some(state) => {
            let changed: Option<(BlockState, Seq<BlockPos>)> = match state.kind {
                BlockKind::RedstoneWire => spec_process_wire(w, pos, state),
                BlockKind::RedstoneTorch | BlockKind::RedstoneWallTorch => spec_process_torch(
                    w,
                    pos,
                    state,
                ),
                BlockKind::Repeater => spec_process_repeater(w, pos, state),
                BlockKind::Comparator => spec_process_comparator(w, pos, state),
                BlockKind::RedstoneLamp => match spec_process_lamp(w, pos, state) {
                    Some(s) => Some((s, Seq::<BlockPos>::empty())),
                    None => None,
                },
                BlockKind::Piston | BlockKind::StickyPiston => spec_process_piston(w, pos, state),
                _ => None,
            };
            let t = match state.kind {
                BlockKind::RedstoneTorch | BlockKind::RedstoneWallTorch => UpdateType::SignalSource,
                _ => UpdateType::SignalPropagation,
            };
            match changed {
                Some((s, ns)) => (store(w, pos, s), entries_for(ns, t)),
                None => (w, Seq::empty()),
            }
        },
    }
}

/// Updating the queued positions in order: the final world and every entry
/// queued along the way.
pub open spec fn spec_update_all(w: Seq<(BlockPos, BlockState)>, ps: Seq<BlockPos>) -> (Seq<(BlockPos, BlockState)>, Seq<RedstoneUpdateEntry>)
    decreases ps.len(),
{
    if ps.len() == 0 {
        (w, Seq::empty())
    } else {
        let (w1, e1) = spec_update_at(w, ps[0]);
        let (w2, e2) = spec_update_all(w1, ps.drop_first());
        (w2, e1 + e2)
    }
}


/// The signal a block at `pos` sends into its neighbour in direction `from`
/// (see [`spec_signal`]).
pub fn calc_signal_for_input(world: &BlockWorld, state: BlockState, pos: BlockPos, from: Direction) -> (r: RedstoneStrength)
    requires
        world_wf(world.blocks@),
        pos_in_bounds(pos),
        pos.y <= max_y(world.blocks@),
    ensures
        r == spec_signal(world.blocks@, state, pos, from),
    decreases max_y(world.blocks@) - pos.y, 1nat,
{
    let ghost w = world.blocks@;
    match state.to_kind() {
        BlockKind::RedstoneWire => get_power_level(state),
        BlockKind::RedstoneTorch | BlockKind::RedstoneWallTorch => {
            let torch = match RedstoneTorch::from_block_state(state) {
                Some(t) => t,
                None => RedstoneTorch::default(),
            };
            if torch.lit {
                MAX_SIGNAL
            } else {
                0
            }
        },
        BlockKind::Repeater => {
            let repeater = match RedstoneRepeater::from_block_state(state) {
                Some(r) => r,
                None => RedstoneRepeater::default(),
            };
            if repeater.powered && from == repeater.get_output_direction() {
                MAX_SIGNAL
            } else {
                0
            }
        },
        BlockKind::Comparator => {
            let comparator = match RedstoneComparator::from_block_state(state) {
                Some(c) => c,
                None => RedstoneComparator::default(),
            };
            if comparator.powered && from == comparator.get_output_direction() {
                comparator.output_power
            } else {
                0
            }
        },
        BlockKind::RedstoneBlock => MAX_SIGNAL,
        _ => {
            if is_redstone_conductor(state) {
                let above_pos = offset_pos(pos, Direction::Up);
                if let Some(above_state) = world.block(above_pos) {
                    if is_redstone_conductor(above_state) {
                        proof {
                            lemma_lookup_facts(w, above_pos);
                        }
                        let a = side_signal_from(world, above_pos, Direction::North);
                        let b = side_signal_from(world, above_pos, Direction::South);
                        let c = side_signal_from(world, above_pos, Direction::West);
                        let d = side_signal_from(world, above_pos, Direction::East);
                        let ab = if a >= b {
                            a
                        } else {
                            b
                        };
                        let cd = if c >= d {
                            c
                        } else {
                            d
                        };
                        return if ab >= cd {
                            ab
                        } else {
                            cd
                        };
                    }
                }
                0
            } else {
                0
            }
        },
    }
}

fn side_signal_from(world: &BlockWorld, pos: BlockPos, d: Direction) -> (r: RedstoneStrength)
    requires
        world_wf(world.blocks@),
        pos_in_bounds(pos),
        d != Direction::Up && d != Direction::Down,
    ensures
        r == neighbor_signal(world.blocks@, pos, d),
    decreases max_y(world.blocks@) - pos.y, 2nat,
{
    let n = offset_pos(pos, d);
    match world.block(n) {
        Some(t) => {
            proof {
                lemma_lookup_facts(world.blocks@, n);
            }
            calc_signal_for_input(world, t, n, d)
        },
        None => 0,
    }
}

/// The signal arriving at `pos` from its neighbour in direction `d`
/// (see [`neighbor_signal`]).
pub fn signal_from(world: &BlockWorld, pos: BlockPos, d: Direction) -> (r: RedstoneStrength)
    requires
        world_wf(world.blocks@),
        pos_in_bounds(pos),
    ensures
        r == neighbor_signal(world.blocks@, pos, d),
{
    let n = offset_pos(pos, d);
    match world.block(n) {
        Some(t) => {
            proof {
                lemma_lookup_facts(world.blocks@, n);
            }
            calc_signal_for_input(world, t, n, d)
        },
        None => 0,
    }
}

fn horizontal_signal_at(world: &BlockWorld, pos: BlockPos) -> (r: RedstoneStrength)
    requires
        world_wf(world.blocks@),
        pos_in_bounds(pos),
    ensures
        r == horizontal_signal(world.blocks@, pos),
{
    let a = signal_from(world, pos, Direction::North);
    let b = signal_from(world, pos, Direction::South);
    let c = signal_from(world, pos, Direction::West);
    let d = signal_from(world, pos, Direction::East);
    let ab = if a >= b {
        a
    } else {
        b
    };
    let cd = if c >= d {
        c
    } else {
        d
    };
    if ab >= cd {
        ab
    } else {
        cd
    }
}

fn max_u8(a: u8, b: u8) -> (r: u8)
    ensures
        r == max2(a, b),
{
    if a >= b {
        a
    } else {
        b
    }
}

fn horizontal_positions(pos: BlockPos) -> (v: Vec<BlockPos>)
    requires
        pos_in_bounds(pos),
    ensures
        v@ == horizontal_neighbors(pos),
{
    let mut v: Vec<BlockPos> = Vec::new();
    v.push(offset_pos(pos, Direction::North));
    v.push(offset_pos(pos, Direction::South));
    v.push(offset_pos(pos, Direction::West));
    v.push(offset_pos(pos, Direction::East));
    proof {
        assert(v@ =~= horizontal_neighbors(pos));
    }
    v
}

/// Recomputes a wire's power (see [`spec_process_wire`]).
pub fn process_wire(world: &BlockWorld, pos: BlockPos, state: BlockState) -> (res: Option<(BlockState, Vec<BlockPos>)>)
    requires
        world_wf(world.blocks@),
        pos_in_bounds(pos),
    ensures
        match spec_process_wire(world.blocks@, pos, state) {
            Some((s, ns)) => res matches Some((s2, v)) && s2 == s && v@ == ns,
            None => res is None,
        },
{
    let max_h = horizontal_signal_at(world, pos);
    let above_pos = offset_pos(pos, Direction::Up);
    let mut from_above: u8 = 0;
    if let Some(above_state) = world.block(above_pos) {
        if is_redstone_conductor(above_state) {
            proof {
                lemma_lookup_facts(world.blocks@, above_pos);
            }
            from_above = horizontal_signal_at(world, above_pos);
        }
    }
    let below_pos = offset_pos(pos, Direction::Down);
    let mut from_below: u8 = 0;
    if let Some(below_state) = world.block(below_pos) {
        if is_redstone_conductor(below_state) {
            proof {
                lemma_lookup_facts(world.blocks@, below_pos);
            }
            from_below = calc_signal_for_input(world, below_state, below_pos, Direction::Down);
        }
    }
    let max_power = max_u8(max_u8(max_h, from_above), from_below);
    let new_power = max_power.saturating_sub(1);
    let old_power = get_power_level(state);
    if new_power != old_power {
        let new_state = state.with_power(new_power);
        Some((new_state, horizontal_positions(pos)))
    } else {
        None
    }
}

/// Recomputes a torch (see [`spec_process_torch`]).
pub fn process_torch(world: &BlockWorld, pos: BlockPos, state: BlockState) -> (res: Option<(BlockState, Vec<BlockPos>)>)
    requires
        world_wf(world.blocks@),
        pos_in_bounds(pos),
    ensures
        match spec_process_torch(world.blocks@, pos, state) {
            Some((s, ns)) => res matches Some((s2, v)) && s2 == s && v@ == ns,
            None => res is None,
        },
{
    let torch = match RedstoneTorch::from_block_state(state) {
        Some(t) => t,
        None => RedstoneTorch::default(),
    };
    let attach_pos = offset_pos(pos, torch.get_attachment_direction());
    let mut input_power: u8 = 0;
    if let Some(attach_state) = world.block(attach_pos) {
        input_power = get_power_level(attach_state);
    }
    let was_lit = torch.lit;
    let should_be_lit = input_power == 0;
    if was_lit != should_be_lit {
        let new_state = state.with_lit(should_be_lit);
        let mut neighbors = horizontal_positions(pos);
        neighbors.push(offset_pos(pos, Direction::Up));
        Some((new_state, neighbors))
    } else {
        None
    }
}

/// Recomputes a repeater (see [`spec_process_repeater`]).
pub fn process_repeater(world: &BlockWorld, pos: BlockPos, state: BlockState, current_tick: u64) -> (res: Option<(BlockState, Vec<BlockPos>)>)
    requires
        world_wf(world.blocks@),
        pos_in_bounds(pos),
    ensures
        match spec_process_repeater(world.blocks@, pos, state) {
            Some((s, ns)) => res matches Some((s2, v)) && s2 == s && v@ == ns,
            None => res is None,
        },
{
    let mut repeater = match RedstoneRepeater::from_block_state(state) {
        Some(r) => r,
        None => RedstoneRepeater::default(),
    };
    let input_dir = repeater.get_input_direction();
    let input_power = signal_from(world, pos, input_dir);
    let lock_dirs = repeater.get_lock_directions();
    let lock_power = max_u8(signal_from(world, pos, lock_dirs[0]), signal_from(world, pos, lock_dirs[1]));
    let mut inputs: Vec<RedstoneSignal> = Vec::new();
    inputs.push(RedstoneSignal { strength: input_power, signal_type: SignalType::Strong, from_direction: Some(input_dir) });
    inputs.push(RedstoneSignal { strength: lock_power, signal_type: SignalType::Strong, from_direction: Some(lock_dirs[0]) });
    if repeater.update_signal(inputs.as_slice(), current_tick) {
        let output_state = repeater.to_block_state();
        let output_pos = offset_pos(pos, repeater.get_output_direction());
        let mut v: Vec<BlockPos> = Vec::new();
        v.push(output_pos);
        proof {
            assert(v@ =~= seq![output_pos]);
        }
        Some((output_state, v))
    } else {
        None
    }
}

/// Recomputes a comparator (see [`spec_process_comparator`]).
pub fn process_comparator(world: &BlockWorld, pos: BlockPos, state: BlockState, current_tick: u64) -> (res: Option<(BlockState, Vec<BlockPos>)>)
    requires
        world_wf(world.blocks@),
        pos_in_bounds(pos),
    ensures
        match spec_process_comparator(world.blocks@, pos, state) {
            Some((s, ns)) => res matches Some((s2, v)) && s2 == s && v@ == ns,
            None => res is None,
        },
{
    let mut comparator = match RedstoneComparator::from_block_state(state) {
        Some(c) => c,
        None => RedstoneComparator::default(),
    };
    let input_dir = comparator.get_input_direction();
    let input_power = signal_from(world, pos, input_dir);
    let side_dirs = comparator.get_side_directions();
    let side_power_1 = signal_from(world, pos, side_dirs[0]);
    let side_power_2 = signal_from(world, pos, side_dirs[1]);
    let mut inputs: Vec<RedstoneSignal> = Vec::new();
    inputs.push(RedstoneSignal { strength: input_power, signal_type: SignalType::Strong, from_direction: Some(input_dir) });
    inputs.push(RedstoneSignal { strength: side_power_1, signal_type: SignalType::Weak, from_direction: Some(side_dirs[0]) });
    inputs.push(RedstoneSignal { strength: side_power_2, signal_type: SignalType::Weak, from_direction: Some(side_dirs[1]) });
    if comparator.update_signal(inputs.as_slice(), current_tick) {
        let output_state = comparator.to_block_state();
        let output_pos = offset_pos(pos, comparator.get_output_direction());
        let mut v: Vec<BlockPos> = Vec::new();
        v.push(output_pos);
        proof {
            assert(v@ =~= seq![output_pos]);
        }
        Some((output_state, v))
    } else {
        None
    }
}

/// Recomputes a lamp (see [`spec_process_lamp`]).
pub fn process_lamp(world: &BlockWorld, pos: BlockPos, state: BlockState) -> (res: Option<BlockState>)
    requires
        world_wf(world.blocks@),
        pos_in_bounds(pos),
    ensures
        res == spec_process_lamp(world.blocks@, pos, state),
{
    let total = max_u8(
        max_u8(horizontal_signal_at(world, pos), signal_from(world, pos, Direction::Up)),
        signal_from(world, pos, Direction::Down),
    );
    let was_lit = match state.lit {
        Some(l) => l,
        None => false,
    };
    let should_be_lit = total > 0;
    if was_lit != should_be_lit {
        Some(state.with_lit(should_be_lit))
    } else {
        None
    }
}

/// The direct signal a block gives out (see [`spec_strong_signal`]).
pub fn calc_strong_signal(state: BlockState) -> (r: RedstoneStrength)
    ensures
        r == spec_strong_signal(state),
{
    match state.to_kind() {
        BlockKind::RedstoneWire => {
            let power = get_power_level(state);
            if power > 0 {
                power
            } else {
                0
            }
        },
        BlockKind::RedstoneTorch | BlockKind::RedstoneWallTorch => {
            let torch = match RedstoneTorch::from_block_state(state) {
                Some(t) => t,
                None => RedstoneTorch::default(),
            };
            if torch.lit {
                MAX_SIGNAL
            } else {
                0
            }
        },
        BlockKind::Repeater => {
            let repeater = match RedstoneRepeater::from_block_state(state) {
                Some(r) => r,
                None => RedstoneRepeater::default(),
            };
            if repeater.powered {
                MAX_SIGNAL
            } else {
                0
            }
        },
        BlockKind::Comparator => {
            let comparator = match RedstoneComparator::from_block_state(state) {
                Some(c) => c,
                None => RedstoneComparator::default(),
            };
            if comparator.powered {
                comparator.output_power
            } else {
                0
            }
        },
        BlockKind::RedstoneBlock => MAX_SIGNAL,
        _ => 0,
    }
}

fn strong_from(world: &BlockWorld, pos: BlockPos, d: Direction) -> (r: RedstoneStrength)
    requires
        pos_in_bounds(pos),
    ensures
        r == strong_at(world.blocks@, spec_offset(pos, d)),
{
    match world.block(offset_pos(pos, d)) {
        Some(t) => calc_strong_signal(t),
        None => 0,
    }
}

/// Recomputes a piston (see [`spec_process_piston`]).
pub fn process_piston(world: &BlockWorld, pos: BlockPos, state: BlockState) -> (res: Option<(BlockState, Vec<BlockPos>)>)
    requires
        pos_in_bounds(pos),
    ensures
        match spec_process_piston(world.blocks@, pos, state) {
            Some((s, ns)) => res matches Some((s2, v)) && s2 == s && v@ == ns,
            None => res is None,
        },
{
    let mut piston = match Piston::from_block_state(state) {
        Some(p) => p,
        None => Piston::default(),
    };
    let a = strong_from(world, pos, Direction::North);
    let b = strong_from(world, pos, Direction::South);
    let c = strong_from(world, pos, Direction::West);
    let d = strong_from(world, pos, Direction::East);
    let h = max_u8(max_u8(a, b), max_u8(c, d));
    let total = max_u8(max_u8(h, strong_from(world, pos, Direction::Up)), strong_from(world, pos, Direction::Down));
    let was_extended = piston.is_extended();
    let should_be_extended = total > 0;
    if was_extended != should_be_extended {
        piston.set_extended(should_be_extended, 0);
        let output_state = piston.to_block_state();
        let output_pos = offset_pos(pos, piston.get_extension_direction());
        let mut v: Vec<BlockPos> = Vec::new();
        v.push(output_pos);
        proof {
            assert(v@ =~= seq![output_pos]);
        }
        Some((output_state, v))
    } else {
        None
    }
}

/// The positions of the queued entries.
pub open spec fn entry_positions(es: Seq<RedstoneUpdateEntry>) -> Seq<BlockPos> {
    Seq::new(es.len(), |i: int| es[i].pos)
}

/// Every state that an update stores is well-formed.
proof fn lemma_update_at_wf(w: Seq<(BlockPos, BlockState)>, pos: BlockPos)
    requires
        world_wf(w),
    ensures
        world_wf(spec_update_at(w, pos).0),
{
    lemma_lookup_facts(w, pos);
    if let Some(state) = world_get(w, pos) {
        let changed: Option<(BlockState, Seq<BlockPos>)> = match state.kind {
            BlockKind::RedstoneWire => spec_process_wire(w, pos, state),
            BlockKind::RedstoneTorch | BlockKind::RedstoneWallTorch => spec_process_torch(w, pos, state),
            BlockKind::Repeater => spec_process_repeater(w, pos, state),
            BlockKind::Comparator => spec_process_comparator(w, pos, state),
            BlockKind::RedstoneLamp => match spec_process_lamp(w, pos, state) {
                Some(s) => Some((s, Seq::<BlockPos>::empty())),
                None => None,
            },
            BlockKind::Piston | BlockKind::StickyPiston => spec_process_piston(w, pos, state),
            _ => None,
        };
        if let Some((s, ns)) = changed {
            assert(state_wf(s));
            lemma_store_wf(w, pos, s);
        }
    }
}

fn push_all(queue: &mut RedstoneUpdateQueue, ps: &Vec<BlockPos>, t: UpdateType)
    ensures
        final(queue)@ == old(queue)@ + entries_for(ps@, t),
{
    let mut i: usize = 0;
    while i < ps.len()
        invariant
            i <= ps@.len(),
            queue@ == old(queue)@ + entries_for(ps@.take(i as int), t),
        decreases ps@.len() - i,
    {
        queue.push(RedstoneUpdateEntry { pos: ps[i], update_type: t });
        i = i + 1;
        proof {
            assert(entries_for(ps@.take(i as int), t) =~= entries_for(ps@.take((i - 1) as int), t).push(
                RedstoneUpdateEntry { pos: ps@[i - 1], update_type: t },
            ));
        }
    }
    proof {
        assert(ps@.take(ps@.len() as int) =~= ps@);
    }
}

/// Updates the block at `pos` (see [`spec_update_at`]).
fn update_at(world: &mut BlockWorld, queue: &mut RedstoneUpdateQueue, pos: BlockPos, current_tick: u64)
    requires
        world_wf(old(world).blocks@),
    ensures
        final(world).blocks@ == spec_update_at(old(world).blocks@, pos).0,
        final(queue)@ == old(queue)@ + spec_update_at(old(world).blocks@, pos).1,
        world_wf(final(world).blocks@),
{
    proof {
        lemma_update_at_wf(world.blocks@, pos);
        lemma_lookup_facts(world.blocks@, pos);
    }
    let state = match world.block(pos) {
        Some(s) => s,
        None => {
            proof {
                assert(queue@ =~= old(queue)@ + Seq::<RedstoneUpdateEntry>::empty());
            }
            return ;
        },
    };
    let (changed, t): (Option<(BlockState, Vec<BlockPos>)>, UpdateType) = match state.to_kind() {
        BlockKind::RedstoneWire => (process_wire(world, pos, state), UpdateType::SignalPropagation),
        BlockKind::RedstoneTorch | BlockKind::RedstoneWallTorch => (process_torch(world, pos, state), UpdateType::SignalSource),
        BlockKind::Repeater => (process_repeater(world, pos, state, current_tick), UpdateType::SignalPropagation),
        BlockKind::Comparator => (process_comparator(world, pos, state, current_tick), UpdateType::SignalPropagation),
        BlockKind::RedstoneLamp => {
            let lamp = process_lamp(world, pos, state);
            match lamp {
                Some(s) => (Some((s, Vec::new())), UpdateType::SignalPropagation),
                None => (None, UpdateType::SignalPropagation),
            }
        },
        BlockKind::Piston | BlockKind::StickyPiston => (process_piston(world, pos, state), UpdateType::SignalPropagation),
        _ => (None, UpdateType::SignalPropagation),
    };
    match changed {
        Some((new_state, neighbors)) => {
            world.set_block(pos, new_state);
            push_all(queue, &neighbors, t);
        },
        None => {
            proof {
                assert(queue@ =~= old(queue)@ + Seq::<RedstoneUpdateEntry>::empty());
            }
        },
    }
}

/// The layers after one round of redstone updates at the positions `ps`,
/// each layer updated on its own (see [`spec_update_all`]), and the entries
/// those updates queue, layer after layer.
pub open spec fn spec_update_layers(layers: Seq<Seq<(BlockPos, BlockState)>>, ps: Seq<BlockPos>) -> (
    Seq<Seq<(BlockPos, BlockState)>>,
    Seq<RedstoneUpdateEntry>,
)
    decreases layers.len(),
{
    if layers.len() == 0 {
        (Seq::empty(), Seq::empty())
    } else {
        let (ls, es) = spec_update_layers(layers.drop_last(), ps);
        let (w, e) = spec_update_all(layers.last(), ps);
        (ls.push(w), es + e)
    }
}

/// A round with nothing queued leaves every layer as it was and queues
/// nothing.
pub proof fn lemma_update_layers_empty_queue(layers: Seq<Seq<(BlockPos, BlockState)>>)
    ensures
        spec_update_layers(layers, Seq::empty()) == (layers, Seq::<RedstoneUpdateEntry>::empty()),
    decreases layers.len(),
{
    if layers.len() > 0 {
        lemma_update_layers_empty_queue(layers.drop_last());
        assert(layers.drop_last().push(layers.last()) =~= layers);
        assert(Seq::<RedstoneUpdateEntry>::empty() + Seq::<RedstoneUpdateEntry>::empty() =~= Seq::<RedstoneUpdateEntry>::empty());
    }
}

/// In one round every layer is updated once, on its own, at the queued
/// positions in order; with one layer, the queue afterwards is what that
/// layer's updates queue.
pub proof fn lemma_update_layers_each_layer(layers: Seq<Seq<(BlockPos, BlockState)>>, ps: Seq<BlockPos>)
    ensures
        spec_update_layers(layers, ps).0.len() == layers.len(),
        forall|i: int|
            0 <= i < layers.len() ==> (#[trigger] spec_update_layers(layers, ps).0[i]) == spec_update_all(layers[i], ps).0,
        layers.len() == 1 ==> spec_update_layers(layers, ps).1 == spec_update_all(layers[0], ps).1,
    decreases layers.len(),
{
    if layers.len() > 0 {
        let d = layers.drop_last();
        lemma_update_layers_each_layer(d, ps);
        let out = spec_update_layers(layers, ps).0;
        assert forall|i: int| 0 <= i < layers.len() implies (#[trigger] out[i]) == spec_update_all(layers[i], ps).0 by {
            if i < d.len() {
                assert(layers[i] == d[i]);
            }
        }
        if layers.len() == 1 {
            assert(Seq::<RedstoneUpdateEntry>::empty() + spec_update_all(layers[0], ps).1 =~= spec_update_all(layers[0], ps).1);
        }
    }
}

pub open spec fn layer_blocks(layers: Seq<BlockWorld>) -> Seq<Seq<(BlockPos, BlockState)>> {
    layers.map_values(|w: BlockWorld| w.blocks@)
}

/// Updates the positions `ps` in order in one layer, appending what they
/// queue.
fn update_layer(world: &mut BlockWorld, update_queue: &mut RedstoneUpdateQueue, positions: &Vec<BlockPos>, tick: u64)
    requires
        world_wf(old(world).blocks@),
    ensures
        final(world).blocks@ == spec_update_all(old(world).blocks@, positions@).0,
        final(update_queue)@ == old(update_queue)@ + spec_update_all(old(world).blocks@, positions@).1,
        world_wf(final(world).blocks@),
{
    let ghost q0 = update_queue@;
    let ghost ps = positions@;
    let ghost w0 = world.blocks@;
    let mut i: usize = 0;
    proof {
        assert(q0 + spec_update_all(w0, ps).1 == update_queue@ + spec_update_all(world.blocks@, ps.skip(0)).1) by {
            assert(ps.skip(0) =~= ps);
        }
        assert(ps.skip(0) =~= ps);
    }
    while i < positions.len()
        invariant
            i <= ps.len(),
            positions@ == ps,
            world_wf(world.blocks@),
            spec_update_all(w0, ps).0 == spec_update_all(world.blocks@, ps.skip(i as int)).0,
            q0 + spec_update_all(w0, ps).1 == update_queue@ + spec_update_all(world.blocks@, ps.skip(i as int)).1,
        decreases ps.len() - i,
    {
        let ghost wb = world.blocks@;
        let ghost qb = update_queue@;
        update_at(world, update_queue, positions[i], tick);
        proof {
            let rest = ps.skip(i as int);
            assert(rest[0] == ps[i as int]);
            assert(rest.drop_first() =~= ps.skip((i + 1) as int));
            let (w1, e1) = spec_update_at(wb, ps[i as int]);
            let (w2, e2) = spec_update_all(w1, ps.skip((i + 1) as int));
            assert(spec_update_all(wb, rest) == (w2, e1 + e2));
            assert(qb + (e1 + e2) =~= (qb + e1) + e2);
            assert(q0 + spec_update_all(w0, ps).1 == qb + (e1 + e2));
        }
        i = i + 1;
    }
    proof {
        assert(ps.skip(i as int) =~= Seq::<BlockPos>::empty());
        assert(update_queue@ + Seq::<RedstoneUpdateEntry>::empty() =~= update_queue@);
        assert(q0 + spec_update_all(w0, ps).1 == update_queue@);
    }
}

/// One round of redstone updates: advances the tick, takes every queued
/// position, and in each chunk layer in turn updates them in order against
/// the layer as it stands (see [`spec_update_layers`]); the entries those
/// updates queue become the new queue.
pub fn update_redstone_components(
    layers: &mut Vec<BlockWorld>,
    update_queue: &mut RedstoneUpdateQueue,
    system_state: &mut RedstoneSystemState,
)
    requires
        forall|i: int| 0 <= i < old(layers)@.len() ==> world_wf(#[trigger] old(layers)@[i].blocks@),
        old(system_state).current_tick < u64::MAX,
    ensures
        final(system_state).current_tick == old(system_state).current_tick + 1,
        layer_blocks(final(layers)@) == spec_update_layers(layer_blocks(old(layers)@), entry_positions(old(update_queue)@)).0,
        final(update_queue)@ == spec_update_layers(layer_blocks(old(layers)@), entry_positions(old(update_queue)@)).1,
        forall|i: int| 0 <= i < final(layers)@.len() ==> world_wf(#[trigger] final(layers)@[i].blocks@),
{
    system_state.current_tick = system_state.current_tick + 1;
    let tick = system_state.current_tick;
    let mut positions: Vec<BlockPos> = Vec::new();
    let entries = update_queue.iter();
    let mut j: usize = 0;
    while j < entries.len()
        invariant
            j <= entries@.len(),
            entries@ == old(update_queue)@,
            positions@ == entry_positions(entries@).take(j as int),
        decreases entries@.len() - j,
    {
        positions.push(entries[j].pos);
        j = j + 1;
        proof {
            assert(positions@ =~= entry_positions(entries@).take(j as int));
        }
    }
    proof {
        assert(positions@ =~= entry_positions(old(update_queue)@));
    }
    update_queue.clear();
    let ghost ps = positions@;
    let ghost l0 = layer_blocks(layers@);
    let n = layers.len();
    let mut i: usize = 0;
    proof {
        assert(l0.take(0) =~= Seq::<Seq<(BlockPos, BlockState)>>::empty());
        assert(layer_blocks(layers@).take(0) =~= Seq::<Seq<(BlockPos, BlockState)>>::empty());
        assert(update_queue@ =~= Seq::<RedstoneUpdateEntry>::empty());
    }
    while i < n
        invariant
            i <= n,
            n == layers@.len(),
            n == l0.len(),
            positions@ == ps,
            forall|k: int| 0 <= k < n ==> world_wf(#[trigger] layers@[k].blocks@),
            forall|k: int| i <= k < n ==> #[trigger] layers@[k].blocks@ == l0[k],
            forall|k: int| 0 <= k < n ==> world_wf(#[trigger] l0[k]),
            layer_blocks(layers@).take(i as int) == spec_update_layers(l0.take(i as int), ps).0,
            update_queue@ == spec_update_layers(l0.take(i as int), ps).1,
        decreases n - i,
    {
        let ghost before = layers@;
        let mut w = layers.remove(i);
        assert(w.blocks@ == l0[i as int]);
        update_layer(&mut w, update_queue, &positions, tick);
        layers.insert(i, w);
        proof {
            let pre = l0.take(i + 1);
            assert(pre.drop_last() =~= l0.take(i as int));
            assert(pre.last() == l0[i as int]);
            assert forall|k: int| 0 <= k < n && k != i implies #[trigger] layers@[k] == before[k] by {}
            assert(layer_blocks(layers@).take(i + 1) =~= layer_blocks(before).take(i as int).push(layers@[i as int].blocks@));
        }
        i = i + 1;
    }
    proof {
        assert(l0.take(n as int) =~= l0);
        assert(layer_blocks(layers@).take(n as int) =~= layer_blocks(layers@));
    }
}

/// Queues a neighbour update for `pos` and its six neighbours: the position
/// itself, the four horizontal ones, then above and below.
pub fn trigger_redstone_update(pos: BlockPos, update_queue: &mut RedstoneUpdateQueue)
    requires
        pos_in_bounds(pos),
    ensures
        final(update_queue)@ == old(update_queue)@ + entries_for(
            seq![pos] + horizontal_neighbors(pos) + seq![
                spec_offset(pos, Direction::Up),
                spec_offset(pos, Direction::Down),
            ],
            UpdateType::NeighborUpdate,
        ),
{
    let mut ps: Vec<BlockPos> = Vec::new();
    ps.push(pos);
    ps.push(offset_pos(pos, Direction::North));
    ps.push(offset_pos(pos, Direction::South));
    ps.push(offset_pos(pos, Direction::West));
    ps.push(offset_pos(pos, Direction::East));
    ps.push(offset_pos(pos, Direction::Up));
    ps.push(offset_pos(pos, Direction::Down));
    proof {
        assert(ps@ =~= seq![pos] + horizontal_neighbors(pos) + seq![
            spec_offset(pos, Direction::Up),
            spec_offset(pos, Direction::Down),
        ]);
    }
    push_all(update_queue, &ps, UpdateType::NeighborUpdate);
}

/// Whether a signal reaches `pos` from a horizontal neighbour or from above.
pub fn is_block_powered_at(world: &BlockWorld, pos: BlockPos) -> (b: bool)
    requires
        world_wf(world.blocks@),
        pos_in_bounds(pos),
    ensures
        b == (horizontal_signal(world.blocks@, pos) > 0 || neighbor_signal(
            world.blocks@,
            pos,
            Direction::Up,
        ) > 0),
{
    let dirs = get_horizontal_directions();
    let mut i: usize = 0;
    while i < 4
        invariant
            i <= 4,
            world_wf(world.blocks@),
            pos_in_bounds(pos),
            forall|k: int| 0 <= k < 4 ==> dirs@[k] == horizontal(k),
            forall|k: int| 0 <= k < i ==> neighbor_signal(world.blocks@, pos, horizontal(k)) == 0,
        decreases 4 - i,
    {
        if signal_from(world, pos, dirs[i]) > 0 {
            return true;
        }
        i = i + 1;
    }
    signal_from(world, pos, Direction::Up) > 0
}

/// The direct signal of the block at `pos`, 0 where there is none.
pub fn get_redstone_signal_at(world: &BlockWorld, pos: BlockPos) -> (r: RedstoneStrength)
    ensures
        r == strong_at(world.blocks@, pos),
{
    match world.block(pos) {
        Some(state) => calc_strong_signal(state),
        None => 0,
    }
}

} // verus!
