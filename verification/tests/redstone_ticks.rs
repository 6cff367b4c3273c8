use mili_rust::block_update::{set_block_with_delayed_update, set_block_with_update, update_neighbors_at};
use mili_rust::redstone::comparator::RedstoneComparator;
use mili_rust::redstone::lamp::process_lamp_update;
use mili_rust::redstone::piston::Piston;
use mili_rust::redstone::repeater::RedstoneRepeater;
use mili_rust::redstone::signal::{RedstoneUpdateEntry, RedstoneUpdateQueue, UpdateType};
use mili_rust::redstone::{update_redstone_components, RedstoneSystemState};
use mili_rust::redstone::signal::{
    get_horizontal_directions, get_power_level, is_redstone_conductor, RedstoneSignal, SignalType,
};
use mili_rust::redstone::torch::RedstoneTorch;
use mili_rust::redstone::wire::calculate_wire_power;
use mili_rust::tick_schedule::{random_tick_at, sort_into_run_order, ScheduledTick, TickScheduler};
use mili_rust::world::{BlockKind, BlockPos, BlockState, BlockWorld, ComparatorMode, Direction};

fn sig(strength: u8) -> RedstoneSignal {
    RedstoneSignal { strength, signal_type: SignalType::Strong, from_direction: None }
}

fn st(kind: BlockKind) -> BlockState {
    BlockState::default_of(kind)
}

#[test]
fn piston_default_and_state() {
    let p = Piston::default();
    assert!(!p.is_extended());
    assert_eq!(p.facing, Direction::North);
    let mut s = Piston::from_block_state(st(BlockKind::StickyPiston)).unwrap();
    assert!(s.is_sticky);
    s.set_extended(true, 12);
    assert!(s.is_extended());
    assert_eq!(s.to_block_state().extended, Some(true));
    assert_eq!(s.get_extension_direction(), s.facing);
    assert!(Piston::from_block_state(st(BlockKind::Stone)).is_none());
}

#[test]
fn repeater_directions_and_signal() {
    let mut r = RedstoneRepeater::default();
    assert_eq!(r.facing, Direction::South);
    assert_eq!(r.delay, 1);
    assert_eq!(r.get_input_direction(), Direction::North);
    assert_eq!(r.get_output_direction(), Direction::South);
    assert_eq!(r.get_lock_directions(), [Direction::West, Direction::East]);
    assert!(r.update_signal(&[sig(5), sig(0)], 0));
    assert!(r.powered);
    assert!(!r.update_signal(&[sig(5), sig(0)], 1));
    assert!(r.update_signal(&[sig(0), sig(3)], 2));
    assert!(r.locked);
    assert!(!r.powered);
    // A locked repeater keeps its state.
    assert!(!r.update_signal(&[sig(15), sig(0)], 3));
    assert!(r.locked);
    let east = RedstoneRepeater { facing: Direction::East, ..RedstoneRepeater::default() };
    assert_eq!(east.get_input_direction(), Direction::West);
    assert_eq!(east.get_lock_directions(), [Direction::North, Direction::South]);
    let back = RedstoneRepeater::from_block_state(east.to_block_state()).unwrap();
    assert_eq!(back.facing, Direction::East);
}

#[test]
fn comparator_modes() {
    let mut c = RedstoneComparator::default();
    assert!(c.update_signal(&[sig(10), sig(4), sig(6)], 0));
    assert_eq!(c.output_power, 10);
    assert!(c.powered);
    assert!(c.update_signal(&[sig(5), sig(6)], 0));
    assert_eq!(c.output_power, 0);
    c.mode = ComparatorMode::Subtract;
    c.update_signal(&[sig(10), sig(4), sig(6)], 0);
    assert_eq!(c.output_power, 4);
    assert_eq!(c.last_input_power, 10);
    assert!(!c.update_signal(&[sig(10), sig(6), sig(1)], 0));
}

#[test]
fn torch_wire_lamp() {
    let t = RedstoneTorch::default();
    assert!(t.lit);
    assert_eq!(t.get_output_power(), 15);
    assert_eq!(t.get_attachment_direction(), Direction::Down);
    let off = RedstoneTorch { lit: false };
    assert_eq!(off.get_output_power(), 0);
    let wire = st(BlockKind::RedstoneWire);
    let powered = calculate_wire_power(wire, [3, 15, 0, 7]).unwrap();
    assert_eq!(get_power_level(powered), 14);
    assert!(calculate_wire_power(powered, [15, 0, 0, 0]).is_none());
    let lamp = st(BlockKind::RedstoneLamp);
    assert_eq!(process_lamp_update(lamp, true).lit, Some(true));
    assert_eq!(process_lamp_update(lamp, false).lit, Some(false));
    assert!(is_redstone_conductor(st(BlockKind::Stone)));
    assert!(!is_redstone_conductor(st(BlockKind::Glass)));
    assert_eq!(
        get_horizontal_directions(),
        [Direction::North, Direction::South, Direction::West, Direction::East]
    );
}

#[test]
fn scheduler_runs_due_ticks_in_order() {
    let mut s = TickScheduler::new();
    assert_eq!(s.current_tick(), 0);
    let p = BlockPos::new(0, 0, 0);
    let stone = st(BlockKind::Stone);
    s.schedule_tick(ScheduledTick::new(p, stone, 2, 0));
    s.schedule_tick(ScheduledTick::new(p, stone, 1, 0).with_priority(1));
    s.schedule_tick(ScheduledTick::new(p, stone, 1, 0));
    s.schedule_tick(ScheduledTick::new(p, stone, 5, 0));
    assert_eq!(s.pending_tick_count(), 4);
    assert!(s.drain_due_ticks().is_empty());
    s.increment_tick();
    s.increment_tick();
    let due = s.drain_due_ticks();
    let order: Vec<(u64, i32)> = due.iter().map(|t| (t.tick, t.priority)).collect();
    assert_eq!(order, vec![(1, 0), (2, 0), (1, 1)]);
    assert_eq!(s.pending_tick_count(), 1);
    assert!(s.has_pending_ticks());
    let sorted = sort_into_run_order(&vec![
        ScheduledTick::new(p, stone, 3, 0),
        ScheduledTick::new(p, stone, 1, 0),
        ScheduledTick::new(p, stone, 3, 0).with_priority(-1),
    ]);
    let order: Vec<(u64, i32)> = sorted.iter().map(|t| (t.tick, t.priority)).collect();
    assert_eq!(order, vec![(3, -1), (1, 0), (3, 0)]);
}

#[test]
fn random_tick_speed() {
    let s = TickScheduler::with_random_tick_speed(3);
    assert_eq!(s.random_tick_speed(), 3);
    assert_eq!(TickScheduler::new().random_tick_speed(), 3);
    let mut w = BlockWorld::new();
    let p = BlockPos::new(1, 2, 3);
    assert!(random_tick_at(&w, p).is_none());
    w.set_block(p, st(BlockKind::Air));
    assert!(random_tick_at(&w, p).is_none());
    w.set_block(p, st(BlockKind::Wheat));
    assert_eq!(random_tick_at(&w, p).unwrap().state, st(BlockKind::Wheat));
}

#[test]
fn block_updates_notify_neighbours() {
    let mut w = BlockWorld::new();
    let p = BlockPos::new(0, 10, 0);
    let mut blocks = Vec::new();
    let mut neighbours = Vec::new();
    assert!(set_block_with_update(&mut w, p, st(BlockKind::Stone), &mut blocks, &mut neighbours).is_none());
    assert!(blocks.is_empty());
    w.set_block(p, st(BlockKind::Air));
    let old = set_block_with_update(&mut w, p, st(BlockKind::Stone), &mut blocks, &mut neighbours);
    assert_eq!(old, Some(st(BlockKind::Air)));
    assert_eq!(blocks.len(), 1);
    assert_eq!(neighbours.len(), 6);
    assert_eq!(neighbours[0].position, BlockPos::new(0, 9, 0));
    assert_eq!(neighbours[1].position, BlockPos::new(0, 11, 0));
    // Each event's direction points from the neighbour back to the changed block.
    assert_eq!(neighbours[0].direction, Direction::Up);
    assert_eq!(neighbours[1].direction, Direction::Down);
    for n in &neighbours {
        assert_eq!(n.position.get_in_direction(n.direction), p);
        assert_eq!(n.source_position, p);
    }
    assert_eq!(w.block(p), Some(st(BlockKind::Stone)));
    let mut more = Vec::new();
    update_neighbors_at(p, st(BlockKind::Stone), st(BlockKind::Dirt), &mut more);
    assert_eq!(more.len(), 6);
    let mut s = TickScheduler::new();
    let old = set_block_with_delayed_update(&mut w, p, st(BlockKind::Dirt), &mut blocks, &mut s);
    assert_eq!(old, Some(st(BlockKind::Stone)));
    assert_eq!(s.pending_tick_count(), 1);
}

#[test]
fn redstone_round_runs_in_every_layer() {
    let p = BlockPos::new(0, 64, 0);
    let mut a = BlockWorld::new();
    a.set_block(p, st(BlockKind::Stone));
    let mut b = BlockWorld::new();
    b.set_block(p, st(BlockKind::Dirt));
    let mut layers = vec![a, b];
    let mut queue = RedstoneUpdateQueue::new();
    queue.push(RedstoneUpdateEntry { pos: p, update_type: UpdateType::NeighborUpdate });
    let mut state = RedstoneSystemState::new();
    update_redstone_components(&mut layers, &mut queue, &mut state);
    assert_eq!(state.current_tick, 1);
    assert!(queue.iter().is_empty());
    assert_eq!(layers[0].block(p), Some(st(BlockKind::Stone)));
    assert_eq!(layers[1].block(p), Some(st(BlockKind::Dirt)));
}

#[test]
fn redstone_round_with_empty_queue_changes_nothing() {
    let p = BlockPos::new(3, 64, -2);
    let mut a = BlockWorld::new();
    a.set_block(p, st(BlockKind::Stone));
    let mut layers = vec![a, BlockWorld::new()];
    let mut queue = RedstoneUpdateQueue::new();
    let mut state = RedstoneSystemState::new();
    update_redstone_components(&mut layers, &mut queue, &mut state);
    assert_eq!(state.current_tick, 1);
    assert!(queue.iter().is_empty());
    assert_eq!(layers[0].block(p), Some(st(BlockKind::Stone)));
    assert_eq!(layers[1].block(p), None);
}
