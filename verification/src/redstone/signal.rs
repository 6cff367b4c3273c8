//! Signal strengths, the queue of positions awaiting a redstone update, and
//! the block properties that carry power.
use vstd::prelude::*;

use crate::world::{pos_in_bounds, spec_offset, BlockKind, BlockPos, BlockState, Direction};

verus! {

/// A redstone signal strength, 0 to 15.
pub type RedstoneStrength = u8;

/// The strongest signal.
pub const MAX_SIGNAL: RedstoneStrength = 15;

/// Whether a signal powers the block it enters strongly or weakly.
#[derive(Clone, Copy, Debug, PartialEq, Eq, Structural)]
pub enum SignalType {
    Strong,
    Weak,
}

/// A signal arriving at a component.
#[derive(Clone, Copy, Debug)]
pub struct RedstoneSignal {
    pub strength: RedstoneStrength,
    pub signal_type: SignalType,
    pub from_direction: Option<Direction>,
}

/// Why a position was queued for a redstone update.
#[derive(Clone, Copy, Debug, PartialEq, Eq, Structural)]
pub enum UpdateType {
    NeighborUpdate,
    SignalPropagation,
    SignalSource,
}

/// A position queued for a redstone update.
#[derive(Clone, Copy, Debug, PartialEq, Eq, Structural)]
pub struct RedstoneUpdateEntry {
    pub pos: BlockPos,
    pub update_type: UpdateType,
}

/// Positions awaiting a redstone update, in the order they were queued.
#[derive(Debug)]
pub struct RedstoneUpdateQueue {
    entries: Vec<RedstoneUpdateEntry>,
}

impl View for RedstoneUpdateQueue {
    type V = Seq<RedstoneUpdateEntry>;

    closed spec fn view(&self) -> Seq<RedstoneUpdateEntry> {
        self.entries@
    }
}

impl RedstoneUpdateQueue {
    /// An empty queue.
    pub fn new() -> (q: RedstoneUpdateQueue)
        ensures
            q@ == Seq::<RedstoneUpdateEntry>::empty(),
    {
        RedstoneUpdateQueue { entries: Vec::new() }
    }

    /// Adds an entry at the back.
    pub fn push(&mut self, entry: RedstoneUpdateEntry)
        ensures
            final(self)@ == old(self)@.push(entry),
    {
        self.entries.push(entry);
    }

    /// The queued entries, front first.
    pub fn iter(&self) -> (s: &[RedstoneUpdateEntry])
        ensures
            s@ == self@,
    {
        self.entries.as_slice()
    }

    /// Removes every entry.
    pub fn clear(&mut self)
        ensures
            final(self)@ == Seq::<RedstoneUpdateEntry>::empty(),
    {
        self.entries.clear();
    }

    /// Whether no entry is queued.
    pub fn is_empty(&self) -> (b: bool)
        ensures
            b == (self@.len() == 0),
    {
        self.entries.len() == 0
    }
}

/// The four horizontal directions, in the order the updates visit them.
pub open spec fn horizontal(i: int) -> Direction {
    if i == 0 {
        Direction::North
    } else if i == 1 {
        Direction::South
    } else if i == 2 {
        Direction::West
    } else {
        Direction::East
    }
}

/// North, south, west and east.
pub fn get_horizontal_directions() -> (d: [Direction; 4])
    ensures
        forall|i: int| 0 <= i < 4 ==> d@[i] == horizontal(i),
{
    [Direction::North, Direction::South, Direction::West, Direction::East]
}

/// The position one step from `pos` in direction `dir`.
pub fn offset_pos(pos: BlockPos, dir: Direction) -> (p: BlockPos)
    requires
        pos_in_bounds(pos),
    ensures
        p == spec_offset(pos, dir),
{
    pos.get_in_direction(dir)
}

/// The power of a redstone wire; every other block has none.
pub open spec fn spec_power_level(state: BlockState) -> u8 {
    if state.kind == BlockKind::RedstoneWire {
        match state.power {
            Some(p) => p,
            None => 0,
        }
    } else {
        0
    }
}

/// The power level a wire block carries (0 for any other block).
pub fn get_power_level(state: BlockState) -> (p: RedstoneStrength)
    ensures
        p == spec_power_level(state),
{
    if state.kind == BlockKind::RedstoneWire {
        match state.power {
            Some(p) => p,
            None => 0,
        }
    } else {
        0
    }
}

/// Whether a block passes power through: every block except air, wire,
/// glass and the small plants.
pub open spec fn spec_is_conductor(state: BlockState) -> bool {
    !(state.kind == BlockKind::Air || state.kind == BlockKind::CaveAir || state.kind
        == BlockKind::VoidAir || state.kind == BlockKind::RedstoneWire || state.kind
        == BlockKind::TallGrass || state.kind == BlockKind::Grass || state.kind == BlockKind::Fern
        || state.kind == BlockKind::DeadBush || state.kind == BlockKind::Dandelion || state.kind
        == BlockKind::Poppy || state.kind == BlockKind::Glass || state.kind == BlockKind::GlassPane)
}

/// Whether a block passes power through.
pub fn is_redstone_conductor(state: BlockState) -> (b: bool)
    ensures
        b == spec_is_conductor(state),
{
    match state.kind {
        BlockKind::Air | BlockKind::CaveAir | BlockKind::VoidAir | BlockKind::RedstoneWire
        | BlockKind::TallGrass | BlockKind::Grass | BlockKind::Fern | BlockKind::DeadBush
        | BlockKind::Dandelion | BlockKind::Poppy | BlockKind::Glass | BlockKind::GlassPane => false,
        _ => true,
    }
}

} // verus!
