//! Block changes and the updates they send to neighbouring blocks.
use vstd::prelude::*;
use crate::world::{BlockPos, BlockState, BlockWorld, Direction, pos_in_bounds, spec_offset, spec_opposite, world_get, store};
use crate::tick_schedule::{ScheduledTick, TickScheduler};

verus! {

/// A block changed state.
#[derive(Clone, Copy, Debug, PartialEq, Eq, Structural)]
pub struct BlockUpdateEvent {
    pub position: BlockPos,
    pub old_state: BlockState,
    pub new_state: BlockState,
}

/// A neighbour of a changed block is told of the change.
#[derive(Clone, Copy, Debug, PartialEq, Eq, Structural)]
pub struct NeighborUpdateEvent {
    /// The neighbour being told.
    pub position: BlockPos,
    /// The block that changed.
    pub source_position: BlockPos,
    /// The direction from the neighbour to the changed block.
    pub direction: Direction,
    pub source_old_state: BlockState,
    pub source_new_state: BlockState,
}

/// The six directions in the order neighbours are told: down, up, north,
/// south, west, east.
pub open spec fn all_directions() -> Seq<Direction> {
    seq![Direction::Down, Direction::Up, Direction::North, Direction::South, Direction::West, Direction::East]
}

/// The events telling the six neighbours of `pos` of its change, in the
/// order of [`all_directions`].
pub open spec fn neighbor_events(pos: BlockPos, old_state: BlockState, new_state: BlockState) -> Seq<NeighborUpdateEvent> {
    all_directions().map_values(|d: Direction| NeighborUpdateEvent {
        position: spec_offset(pos, d),
        source_position: pos,
        direction: spec_opposite(d),
        source_old_state: old_state,
        source_new_state: new_state,
    })
}

/// Each neighbour event points back at the changed block: one step from the
/// neighbour in the event's direction is the changed block.
pub proof fn lemma_neighbor_event_points_back(pos: BlockPos, old_state: BlockState, new_state: BlockState, i: int)
    requires
        pos_in_bounds(pos),
        0 <= i < 6,
    ensures
        spec_offset(
            neighbor_events(pos, old_state, new_state)[i].position,
            neighbor_events(pos, old_state, new_state)[i].direction,
        ) == pos,
{
}

/// Tells the six neighbours of `pos` that it changed.
pub fn update_neighbors_at(
    pos: BlockPos,
    source_old_state: BlockState,
    source_new_state: BlockState,
    events: &mut Vec<NeighborUpdateEvent>,
)
    requires
        pos_in_bounds(pos),
    ensures
        final(events)@ == old(events)@ + neighbor_events(pos, source_old_state, source_new_state),
{
    let dirs: [Direction; 6] = [
        Direction::Down,
        Direction::Up,
        Direction::North,
        Direction::South,
        Direction::West,
        Direction::East,
    ];
    let mut i: usize = 0;
    while i < 6
        invariant
            i <= 6,
            pos_in_bounds(pos),
            dirs@ == all_directions(),
            events@ == old(events)@ + neighbor_events(pos, source_old_state, source_new_state).take(i as int),
        decreases 6 - i,
    {
        let dir = dirs[i];
        let neighbor_pos = pos.get_in_direction(dir);
        events.push(
            NeighborUpdateEvent {
                position: neighbor_pos,
                source_position: pos,
                direction: dir.opposite(),
                source_old_state,
                source_new_state,
            },
        );
        i = i + 1;
        proof {
            assert(events@ =~= old(events)@ + neighbor_events(pos, source_old_state, source_new_state).take(i as int));
        }
    }
    proof {
        assert(neighbor_events(pos, source_old_state, source_new_state).take(6) =~= neighbor_events(
            pos,
            source_old_state,
            source_new_state,
        ));
    }
}

/// Sets a block and, when its state changes, reports the change and tells
/// its neighbours. Returns the previous state; `None`, with nothing done,
/// where no block is stored.
pub fn set_block_with_update(
    world: &mut BlockWorld,
    pos: BlockPos,
    new_state: BlockState,
    block_events: &mut Vec<BlockUpdateEvent>,
    neighbor_events_out: &mut Vec<NeighborUpdateEvent>,
) -> (r: Option<BlockState>)
    requires
        pos_in_bounds(pos),
    ensures
        r == world_get(old(world).blocks@, pos),
        match r {
            Some(old_state) if old_state != new_state => {
                &&& final(world).blocks@ == store(old(world).blocks@, pos, new_state)
                &&& final(block_events)@ == old(block_events)@.push(
                    BlockUpdateEvent { position: pos, old_state, new_state },
                )
                &&& final(neighbor_events_out)@ == old(neighbor_events_out)@ + neighbor_events(pos, old_state, new_state)
            },
            _ => {
                &&& final(world).blocks@ == old(world).blocks@
                &&& final(block_events)@ == old(block_events)@
                &&& final(neighbor_events_out)@ == old(neighbor_events_out)@
            },
        },
{
    let old_state = match world.block(pos) {
        Some(s) => s,
        None => {
            return None;
        },
    };
    if old_state == new_state {
        return Some(old_state);
    }
    world.set_block(pos, new_state);
    block_events.push(BlockUpdateEvent { position: pos, old_state, new_state });
    update_neighbors_at(pos, old_state, new_state, neighbor_events_out);
    Some(old_state)
}

/// Sets a block and, when its state changes, reports the change and
/// schedules a tick of the block for the next game tick. Returns the
/// previous state; `None`, with nothing done, where no block is stored.
pub fn set_block_with_delayed_update(
    world: &mut BlockWorld,
    pos: BlockPos,
    new_state: BlockState,
    block_events: &mut Vec<BlockUpdateEvent>,
    scheduler: &mut TickScheduler,
) -> (r: Option<BlockState>)
    requires
        old(scheduler).current_tick() < u64::MAX,
    ensures
        r == world_get(old(world).blocks@, pos),
        final(scheduler).current_tick() == old(scheduler).current_tick(),
        final(scheduler).random_tick_speed() == old(scheduler).random_tick_speed(),
        match r {
            Some(old_state) if old_state != new_state => {
                &&& final(world).blocks@ == store(old(world).blocks@, pos, new_state)
                &&& final(block_events)@ == old(block_events)@.push(
                    BlockUpdateEvent { position: pos, old_state, new_state },
                )
                &&& final(scheduler)@ == old(scheduler)@.push(
                    ScheduledTick { pos, state: new_state, tick: (old(scheduler).current_tick() + 1) as u64, priority: 0 },
                )
            },
            _ => {
                &&& final(world).blocks@ == old(world).blocks@
                &&& final(block_events)@ == old(block_events)@
                &&& final(scheduler)@ == old(scheduler)@
            },
        },
{
    let old_state = match world.block(pos) {
        Some(s) => s,
        None => {
            return None;
        },
    };
    if old_state == new_state {
        return Some(old_state);
    }
    world.set_block(pos, new_state);
    block_events.push(BlockUpdateEvent { position: pos, old_state, new_state });
    let tick = ScheduledTick::new(pos, new_state, 1, scheduler.current_tick());
    scheduler.schedule_tick(tick);
    Some(old_state)
}

/// Schedules a tick of the block at `pos` to set `state` after `delay`
/// game ticks.
pub fn schedule_block_tick(scheduler: &mut TickScheduler, pos: BlockPos, state: BlockState, delay: u64)
    requires
        old(scheduler).current_tick() + delay <= u64::MAX,
    ensures
        final(scheduler)@ == old(scheduler)@.push(
            ScheduledTick { pos, state, tick: (old(scheduler).current_tick() + delay) as u64, priority: 0 },
        ),
        final(scheduler).current_tick() == old(scheduler).current_tick(),
        final(scheduler).random_tick_speed() == old(scheduler).random_tick_speed(),
{
    let tick = ScheduledTick::new(pos, state, delay, scheduler.current_tick());
    scheduler.schedule_tick(tick);
}

} // verus!
