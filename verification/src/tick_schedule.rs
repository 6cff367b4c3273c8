//! The game tick counter and the queue of scheduled block ticks.
//!
//! Scheduled ticks wait in the order they were scheduled. Each game tick,
//! those due are taken out and run sorted by priority (lower first), then
//! by tick, keeping scheduling order among equals.
use vstd::prelude::*;
use vstd::multiset::Multiset;
use vstd::seq_lib::{to_multiset_build, to_multiset_insert, to_multiset_contains};
use crate::world::{BlockKind, BlockPos, BlockState, BlockWorld, world_get, store, pos_in_bounds};
use crate::random::random_below;
use crate::block_update::{NeighborUpdateEvent, neighbor_events, update_neighbors_at};

verus! {

/// A block tick scheduled for a later game tick.
#[derive(Clone, Copy, Debug, PartialEq, Eq, Structural)]
pub struct ScheduledTick {
    /// The block to tick.
    pub pos: BlockPos,
    /// The state the block is set to when the tick runs.
    pub state: BlockState,
    /// The game tick at which it runs.
    pub tick: u64,
    /// Among ticks due together, lower runs first.
    pub priority: i32,
}

impl ScheduledTick {
    /// A tick with priority 0 running `delay` ticks after `current_tick`.
    pub fn new(pos: BlockPos, state: BlockState, delay: u64, current_tick: u64) -> (t: ScheduledTick)
        requires
            current_tick + delay <= u64::MAX,
        ensures
            t == (ScheduledTick { pos, state, tick: (current_tick + delay) as u64, priority: 0 }),
    {
        ScheduledTick { pos, state, tick: current_tick + delay, priority: 0 }
    }

    /// The tick with another priority.
    pub fn with_priority(self, priority: i32) -> (t: ScheduledTick)
        ensures
            t == (ScheduledTick { priority, ..self }),
    {
        ScheduledTick { priority, ..self }
    }
}

/// Whether `a` runs before `b` when both are due: lower priority, then
/// earlier tick.
pub open spec fn runs_before(a: ScheduledTick, b: ScheduledTick) -> bool {
    a.priority < b.priority || (a.priority == b.priority && a.tick < b.tick)
}

/// `s` with `x` inserted after every tick that does not run after it.
pub open spec fn insert_in_order(s: Seq<ScheduledTick>, x: ScheduledTick) -> Seq<ScheduledTick> {
    let i = first_after(s, x, 0);
    s.insert(i, x)
}

/// The first index from `i` on holding a tick that runs after `x`, or the
/// length when there is none.
pub open spec fn first_after(s: Seq<ScheduledTick>, x: ScheduledTick, i: int) -> int
    decreases s.len() - i,
{
    if i < 0 || i >= s.len() {
        s.len() as int
    } else if runs_before(x, s[i]) {
        i
    } else {
        first_after(s, x, i + 1)
    }
}

/// The ticks of `s` sorted into running order, keeping the order of `s`
/// among equals.
pub open spec fn run_order(s: Seq<ScheduledTick>) -> Seq<ScheduledTick>
    decreases s.len(),
{
    if s.len() == 0 {
        s
    } else {
        insert_in_order(run_order(s.drop_last()), s.last())
    }
}

/// Whether a tick is due at `current`.
pub open spec fn is_due(current: u64) -> spec_fn(ScheduledTick) -> bool {
    |t: ScheduledTick| t.tick <= current
}

/// Whether a tick is not yet due at `current`.
pub open spec fn is_pending(current: u64) -> spec_fn(ScheduledTick) -> bool {
    |t: ScheduledTick| t.tick > current
}

/// The ticks of `s` due at `current`.
pub open spec fn due_ticks(s: Seq<ScheduledTick>, current: u64) -> Seq<ScheduledTick> {
    s.filter(is_due(current))
}

/// The ticks of `s` not yet due at `current`.
pub open spec fn pending_ticks(s: Seq<ScheduledTick>, current: u64) -> Seq<ScheduledTick> {
    s.filter(is_pending(current))
}

/// The game tick counter and the scheduled block ticks.
pub struct TickScheduler {
    scheduled_ticks: Vec<ScheduledTick>,
    current_tick: u64,
    random_tick_speed: u32,
}

impl View for TickScheduler {
    type V = Seq<ScheduledTick>;

    /// The pending scheduled ticks, in the order they were scheduled.
    closed spec fn view(&self) -> Seq<ScheduledTick> {
        self.scheduled_ticks@
    }
}

impl Default for TickScheduler {
    fn default() -> (s: TickScheduler)
        ensures
            s@ == Seq::<ScheduledTick>::empty(),
            s.spec_current_tick() == 0,
            s.spec_random_tick_speed() == 3,
    {
        TickScheduler { scheduled_ticks: Vec::new(), current_tick: 0, random_tick_speed: 3 }
    }
}

impl TickScheduler {
    /// The current game tick.
    pub closed spec fn spec_current_tick(&self) -> u64 {
        self.current_tick
    }

    /// Random block ticks per chunk section per game tick.
    pub closed spec fn spec_random_tick_speed(&self) -> u32 {
        self.random_tick_speed
    }

    /// A scheduler at tick 0 with nothing scheduled and the vanilla random
    /// tick speed, 3.
    pub fn new() -> (s: TickScheduler)
        ensures
            s@ == Seq::<ScheduledTick>::empty(),
            s.spec_current_tick() == 0,
            s.spec_random_tick_speed() == 3,
    {
        TickScheduler { scheduled_ticks: Vec::new(), current_tick: 0, random_tick_speed: 3 }
    }

    /// A scheduler at tick 0 with nothing scheduled and the given random
    /// tick speed.
    pub fn with_random_tick_speed(random_tick_speed: u32) -> (s: TickScheduler)
        ensures
            s@ == Seq::<ScheduledTick>::empty(),
            s.spec_current_tick() == 0,
            s.spec_random_tick_speed() == random_tick_speed,
    {
        TickScheduler { scheduled_ticks: Vec::new(), current_tick: 0, random_tick_speed }
    }

    /// The current game tick.
    #[verifier::when_used_as_spec(spec_current_tick)]
    pub fn current_tick(&self) -> (t: u64)
        ensures
            t == self.spec_current_tick(),
    {
        self.current_tick
    }

    /// Random block ticks per chunk section per game tick; 0 turns them off.
    #[verifier::when_used_as_spec(spec_random_tick_speed)]
    pub fn random_tick_speed(&self) -> (s: u32)
        ensures
            s == self.spec_random_tick_speed(),
    {
        self.random_tick_speed
    }

    /// Sets the random tick speed.
    pub fn set_random_tick_speed(&mut self, speed: u32)
        ensures
            final(self)@ == old(self)@,
            final(self).spec_current_tick() == old(self).spec_current_tick(),
            final(self).spec_random_tick_speed() == speed,
    {
        self.random_tick_speed = speed;
    }

    /// Adds a tick after those already scheduled.
    pub fn schedule_tick(&mut self, tick: ScheduledTick)
        ensures
            final(self)@ == old(self)@.push(tick),
            final(self).spec_current_tick() == old(self).spec_current_tick(),
            final(self).spec_random_tick_speed() == old(self).spec_random_tick_speed(),
    {
        self.scheduled_ticks.push(tick);
    }

    /// Whether any tick is scheduled.
    pub fn has_pending_ticks(&self) -> (b: bool)
        ensures
            b == (self@.len() > 0),
    {
        self.scheduled_ticks.len() > 0
    }

    /// How many ticks are scheduled.
    pub fn pending_tick_count(&self) -> (n: usize)
        ensures
            n == self@.len(),
    {
        self.scheduled_ticks.len()
    }

    /// Takes out every tick due at the current game tick and returns them
    /// in running order (see [`run_order`]); the ticks not yet due stay, in
    /// their order.
    pub fn drain_due_ticks(&mut self) -> (due: Vec<ScheduledTick>)
        ensures
            due@ == run_order(due_ticks(old(self)@, old(self).spec_current_tick())),
            final(self)@ == pending_ticks(old(self)@, old(self).spec_current_tick()),
            final(self).spec_current_tick() == old(self).spec_current_tick(),
            final(self).spec_random_tick_speed() == old(self).spec_random_tick_speed(),
    {
        let current = self.current_tick;
        let ghost s0 = self.scheduled_ticks@;
        let mut due_in_order: Vec<ScheduledTick> = Vec::new();
        let mut keep: Vec<ScheduledTick> = Vec::new();
        let mut i: usize = 0;
        while i < self.scheduled_ticks.len()
            invariant
                self.scheduled_ticks@ == s0,
                i <= s0.len(),
                due_in_order@ == due_ticks(s0.take(i as int), current),
                keep@ == pending_ticks(s0.take(i as int), current),
            decreases s0.len() - i,
        {
            let t = self.scheduled_ticks[i];
            proof {
                assert(s0.take(i + 1) =~= s0.take(i as int).push(t));
                s0.take(i as int).lemma_filter_push(t, is_due(current));
                s0.take(i as int).lemma_filter_push(t, is_pending(current));
            }
            if t.tick <= current {
                due_in_order.push(t);
            } else {
                keep.push(t);
            }
            i = i + 1;
        }
        proof {
            assert(s0.take(s0.len() as int) =~= s0);
        }
        self.scheduled_ticks = keep;
        sort_into_run_order(&due_in_order)
    }

    /// Advances the game tick by one.
    pub fn increment_tick(&mut self)
        requires
            old(self).spec_current_tick() < u64::MAX,
        ensures
            final(self)@ == old(self)@,
            final(self).spec_current_tick() == old(self).spec_current_tick() + 1,
            final(self).spec_random_tick_speed() == old(self).spec_random_tick_speed(),
    {
        self.current_tick = self.current_tick + 1;
    }
}

/// A scheduled tick ran.
#[derive(Clone, Copy, Debug, PartialEq, Eq, Structural)]
pub struct ScheduledTickEvent {
    /// The ticked block.
    pub position: BlockPos,
    /// The state it was set to.
    pub state: BlockState,
    /// The game tick it was scheduled for.
    pub scheduled_tick: u64,
}

/// A block got a random tick.
#[derive(Clone, Copy, Debug, PartialEq, Eq, Structural)]
pub struct RandomTickEvent {
    /// The ticked block.
    pub position: BlockPos,
    /// Its state.
    pub state: BlockState,
}

/// Running the ticks `ts` in order against the world `w`: each sets its
/// block, tells the block's neighbours when a stored block changed state,
/// and is reported. The world after, the tick reports and the neighbour
/// updates.
pub open spec fn run_ticks(w: Seq<(BlockPos, BlockState)>, ts: Seq<ScheduledTick>) -> (
    Seq<(BlockPos, BlockState)>,
    Seq<ScheduledTickEvent>,
    Seq<NeighborUpdateEvent>,
)
    decreases ts.len(),
{
    if ts.len() == 0 {
        (w, Seq::empty(), Seq::empty())
    } else {
        let (w1, te, ne) = run_ticks(w, ts.drop_last());
        let t = ts.last();
        let ne2 = match world_get(w1, t.pos) {
            Some(old_state) => if old_state != t.state {
                ne + neighbor_events(t.pos, old_state, t.state)
            } else {
                ne
            },
            None => ne,
        };
        (
            store(w1, t.pos, t.state),
            te.push(ScheduledTickEvent { position: t.pos, state: t.state, scheduled_tick: t.tick }),
            ne2,
        )
    }
}

/// Running ticks reports each of them once, in the order they run, with its
/// position, state and scheduled tick.
pub proof fn lemma_run_ticks_reports_each(w: Seq<(BlockPos, BlockState)>, ts: Seq<ScheduledTick>)
    ensures
        run_ticks(w, ts).1.len() == ts.len(),
        forall|i: int|
            0 <= i < ts.len() ==> #[trigger] run_ticks(w, ts).1[i] == (ScheduledTickEvent {
                position: ts[i].pos,
                state: ts[i].state,
                scheduled_tick: ts[i].tick,
            }),
    decreases ts.len(),
{
    if ts.len() > 0 {
        let d = ts.drop_last();
        lemma_run_ticks_reports_each(w, d);
        assert forall|i: int| 0 <= i < ts.len() implies #[trigger] run_ticks(w, ts).1[i] == (ScheduledTickEvent {
            position: ts[i].pos,
            state: ts[i].state,
            scheduled_tick: ts[i].tick,
        }) by {
            if i < d.len() {
                assert(d[i] == ts[i]);
                assert(run_ticks(w, ts).1[i] == run_ticks(w, d).1[i]);
            }
        }
    }
}

/// After running ticks, a position that some tick names holds the state of
/// the last tick that names it, and every other position holds what it
/// held before.
pub proof fn lemma_run_ticks_sets_blocks(w: Seq<(BlockPos, BlockState)>, ts: Seq<ScheduledTick>, p: BlockPos)
    ensures
        (forall|i: int| 0 <= i < ts.len() ==> (#[trigger] ts[i]).pos != p) ==> world_get(run_ticks(w, ts).0, p)
            == world_get(w, p),
        forall|i: int|
            0 <= i < ts.len() && (#[trigger] ts[i]).pos == p && (forall|j: int| i < j < ts.len() ==> ts[j].pos != p)
                ==> world_get(run_ticks(w, ts).0, p) == Some(ts[i].state),
    decreases ts.len(),
{
    if ts.len() > 0 {
        let d = ts.drop_last();
        lemma_run_ticks_sets_blocks(w, d, p);
        let t = ts.last();
        let w1 = run_ticks(w, d).0;
        crate::world::lemma_store_lookup(w1, t.pos, t.state, p);
        assert forall|i: int| 0 <= i < d.len() implies #[trigger] d[i] == ts[i] by {}
        if t.pos != p {
            assert forall|i: int|
                0 <= i < ts.len() && (#[trigger] ts[i]).pos == p && (forall|j: int| i < j < ts.len() ==> ts[j].pos != p)
                implies world_get(run_ticks(w, ts).0, p) == Some(ts[i].state) by {
                assert(i < d.len());
                assert(d[i] == ts[i]);
                assert forall|j: int| i < j < d.len() implies d[j].pos != p by {
                    assert(d[j] == ts[j]);
                }
            }
            if forall|i: int| 0 <= i < ts.len() ==> (#[trigger] ts[i]).pos != p {
                assert forall|i: int| 0 <= i < d.len() implies (#[trigger] d[i]).pos != p by {
                    assert(d[i] == ts[i]);
                }
            }
        } else {
            assert forall|i: int|
                0 <= i < ts.len() && (#[trigger] ts[i]).pos == p && (forall|j: int| i < j < ts.len() ==> ts[j].pos != p)
                implies world_get(run_ticks(w, ts).0, p) == Some(ts[i].state) by {
                if i < ts.len() - 1 {
                    assert(ts[ts.len() - 1].pos == p);
                }
            }
            assert(ts[ts.len() - 1].pos == p);
        }
    }
}

/// Runs the ticks due now (see [`TickScheduler::drain_due_ticks`]) in
/// running order against the world (see [`run_ticks`]), appending their
/// reports and the neighbour updates they cause.
pub fn process_scheduled_ticks(
    scheduler: &mut TickScheduler,
    world: &mut BlockWorld,
    tick_events: &mut Vec<ScheduledTickEvent>,
    neighbor_events_out: &mut Vec<NeighborUpdateEvent>,
)
    requires
        forall|i: int| 0 <= i < old(scheduler)@.len() ==> pos_in_bounds(#[trigger] old(scheduler)@[i].pos),
    ensures
        ({
            let due = run_order(due_ticks(old(scheduler)@, old(scheduler).spec_current_tick()));
            let (w, te, ne) = run_ticks(old(world).blocks@, due);
            &&& final(scheduler)@ == pending_ticks(old(scheduler)@, old(scheduler).spec_current_tick())
            &&& final(scheduler).spec_current_tick() == old(scheduler).spec_current_tick()
            &&& final(scheduler).spec_random_tick_speed() == old(scheduler).spec_random_tick_speed()
            &&& final(world).blocks@ == w
            &&& final(tick_events)@ == old(tick_events)@ + te
            &&& final(neighbor_events_out)@ == old(neighbor_events_out)@ + ne
        }),
{
    let ghost s0 = scheduler@;
    let ghost cur = scheduler.spec_current_tick();
    let due_ticks_now = scheduler.drain_due_ticks();
    let ghost due = due_ticks_now@;
    proof {
        lemma_run_order_permutes(due_ticks(s0, cur));
        assert forall|i: int| 0 <= i < due.len() implies pos_in_bounds(#[trigger] due[i].pos) by {
            to_multiset_contains(due, due[i]);
            to_multiset_contains(due_ticks(s0, cur), due[i]);
            assert(due.contains(due[i]));
            s0.lemma_filter_contains_rev(is_due(cur), due[i]);
        }
    }
    let ghost w0 = world.blocks@;
    let ghost te0 = tick_events@;
    let ghost ne0 = neighbor_events_out@;
    let mut i: usize = 0;
    while i < due_ticks_now.len()
        invariant
            due_ticks_now@ == due,
            i <= due.len(),
            forall|k: int| 0 <= k < due.len() ==> pos_in_bounds(#[trigger] due[k].pos),
            world.blocks@ == run_ticks(w0, due.take(i as int)).0,
            tick_events@ == te0 + run_ticks(w0, due.take(i as int)).1,
            neighbor_events_out@ == ne0 + run_ticks(w0, due.take(i as int)).2,
        decreases due.len() - i,
    {
        let tick = due_ticks_now[i];
        proof {
            assert(due.take(i + 1).drop_last() =~= due.take(i as int));
            assert(due.take(i + 1).last() == tick);
        }
        let old_block = world.set_block(tick.pos, tick.state);
        match old_block {
            Some(old_state) => {
                if old_state != tick.state {
                    update_neighbors_at(tick.pos, old_state, tick.state, neighbor_events_out);
                    proof {
                        assert(neighbor_events_out@ =~= ne0 + run_ticks(w0, due.take(i + 1)).2);
                    }
                }
            },
            None => {},
        }
        tick_events.push(ScheduledTickEvent { position: tick.pos, state: tick.state, scheduled_tick: tick.tick });
        i = i + 1;
        proof {
            assert(tick_events@ =~= te0 + run_ticks(w0, due.take(i as int)).1);
        }
    }
    proof {
        assert(due.take(due.len() as int) =~= due);
    }
}

/// What a random tick at `pos` reports: the block there, when one is
/// stored and it is not air.
pub open spec fn random_tick_event_at(w: Seq<(BlockPos, BlockState)>, pos: BlockPos) -> Option<RandomTickEvent> {
    match world_get(w, pos) {
        Some(s) => if s.kind == BlockKind::Air || s.kind == BlockKind::CaveAir || s.kind == BlockKind::VoidAir {
            None
        } else {
            Some(RandomTickEvent { position: pos, state: s })
        },
        None => None,
    }
}

/// What a random tick at `pos` reports (see [`random_tick_event_at`]).
pub fn random_tick_at(world: &BlockWorld, pos: BlockPos) -> (r: Option<RandomTickEvent>)
    ensures
        r == random_tick_event_at(world.blocks@, pos),
{
    match world.block(pos) {
        Some(state) => if state.is_air() {
            None
        } else {
            Some(RandomTickEvent { position: pos, state })
        },
        None => None,
    }
}

/// Whether `pos` lies in one of the `sections` sixteen-block sections,
/// starting at height `min_y`, of the chunk at `chunk`.
pub open spec fn in_chunk_section(pos: BlockPos, chunk: (i32, i32), min_y: i32, sections: int) -> bool {
    &&& chunk.0 * 16 <= pos.x < chunk.0 * 16 + 16
    &&& chunk.1 * 16 <= pos.z < chunk.1 * 16 + 16
    &&& min_y <= pos.y < min_y + sections * 16
}

/// A random tick report that may come out of [`process_random_ticks`]:
/// the report of a random tick at a position in a section of one of the
/// chunks.
pub open spec fn possible_random_tick(
    w: Seq<(BlockPos, BlockState)>,
    chunks: Seq<(i32, i32)>,
    min_y: i32,
    sections: int,
    e: RandomTickEvent,
) -> bool {
    &&& exists|c: int| 0 <= c < chunks.len() && in_chunk_section(e.position, #[trigger] chunks[c], min_y, sections)
    &&& random_tick_event_at(w, e.position) == Some(e)
}

/// The sections of one chunk that get random ticks, in the order they get
/// them: each of its `sections` sections from the bottom, `speed` times.
pub open spec fn chunk_tick_slots(chunk: (i32, i32), sections: nat, speed: nat) -> Seq<((i32, i32), int)>
    decreases sections,
{
    if sections == 0 {
        Seq::empty()
    } else {
        chunk_tick_slots(chunk, (sections - 1) as nat, speed) + Seq::new(
            speed,
            |_i: int| (chunk, sections - 1),
        )
    }
}

/// The sections that get random ticks, in the order they get them: those
/// of each chunk in turn (see [`chunk_tick_slots`]).
pub open spec fn tick_slots(chunks: Seq<(i32, i32)>, sections: nat, speed: nat) -> Seq<((i32, i32), int)>
    decreases chunks.len(),
{
    if chunks.len() == 0 {
        Seq::empty()
    } else {
        tick_slots(chunks.drop_last(), sections, speed) + chunk_tick_slots(chunks.last(), sections, speed)
    }
}

/// `pos` lies in section `slot.1` (sixteen blocks high, counted from
/// `min_y`) of the chunk `slot.0`.
pub open spec fn in_slot(pos: BlockPos, slot: ((i32, i32), int), min_y: i32) -> bool {
    &&& slot.0.0 * 16 <= pos.x < slot.0.0 * 16 + 16
    &&& slot.0.1 * 16 <= pos.z < slot.0.1 * 16 + 16
    &&& min_y + slot.1 * 16 <= pos.y < min_y + slot.1 * 16 + 16
}

/// The reports of random ticks at the positions `ps`, in order.
pub open spec fn random_tick_reports(w: Seq<(BlockPos, BlockState)>, ps: Seq<BlockPos>) -> Seq<RandomTickEvent>
    decreases ps.len(),
{
    if ps.len() == 0 {
        Seq::empty()
    } else {
        let head = random_tick_reports(w, ps.drop_last());
        match random_tick_event_at(w, ps.last()) {
            Some(e) => head.push(e),
            None => head,
        }
    }
}

proof fn lemma_no_slots_without_speed(chunks: Seq<(i32, i32)>, sections: nat)
    ensures
        tick_slots(chunks, sections, 0).len() == 0,
    decreases chunks.len(),
{
    if chunks.len() > 0 {
        lemma_no_slots_without_speed(chunks.drop_last(), sections);
        lemma_no_chunk_slots_without_speed(chunks.last(), sections);
    }
}

proof fn lemma_no_chunk_slots_without_speed(chunk: (i32, i32), sections: nat)
    ensures
        chunk_tick_slots(chunk, sections, 0).len() == 0,
    decreases sections,
{
    if sections > 0 {
        lemma_no_chunk_slots_without_speed(chunk, (sections - 1) as nat);
    }
}

/// Random ticks: unless the random tick speed is 0, each section of each
/// chunk gets that many random ticks at random positions in it, and each
/// tick that lands on a non-air block is reported.
pub fn process_random_ticks(
    scheduler: &TickScheduler,
    world: &BlockWorld,
    chunks: &Vec<(i32, i32)>,
    min_y: i32,
    height: u32,
    events: &mut Vec<RandomTickEvent>,
)
    requires
        forall|c: int| 0 <= c < chunks@.len() ==> -0x400_0000 <= #[trigger] chunks@[c].0 < 0x400_0000
            && -0x400_0000 <= chunks@[c].1 < 0x400_0000,
        min_y + height <= i32::MAX,
        height <= i32::MAX,
    ensures
        scheduler.spec_random_tick_speed() == 0 ==> final(events)@ == old(events)@,
        final(events)@.len() <= old(events)@.len() + chunks@.len() * (height / 16) * scheduler.spec_random_tick_speed(),
        final(events)@.subrange(0, old(events)@.len() as int) == old(events)@,
        forall|i: int| old(events)@.len() <= i < final(events)@.len() ==> possible_random_tick(
            world.blocks@,
            chunks@,
            min_y,
            (height / 16) as int,
            #[trigger] final(events)@[i],
        ),
        exists|ps: Seq<BlockPos>|
            #![trigger random_tick_reports(world.blocks@, ps)]
            {
                let slots = tick_slots(chunks@, (height / 16) as nat, scheduler.spec_random_tick_speed() as nat);
                &&& ps.len() == slots.len()
                &&& forall|i: int| 0 <= i < ps.len() ==> in_slot(#[trigger] ps[i], slots[i], min_y)
                &&& final(events)@ == old(events)@ + random_tick_reports(world.blocks@, ps)
            },
{
    let speed = scheduler.random_tick_speed();
    if speed == 0 {
        proof {
            lemma_no_slots_without_speed(chunks@, (height / 16) as nat);
            let ps = Seq::<BlockPos>::empty();
            assert(events@ =~= old(events)@ + random_tick_reports(world.blocks@, ps));
        }
        return;
    }
    let sections: u32 = height / 16;
    let ghost e0 = events@;
    let ghost per_chunk: int = sections * speed;
    let ghost mut ps: Seq<BlockPos> = Seq::empty();
    let mut ci: usize = 0;
    proof {
        assert(chunks@.take(0) =~= Seq::<(i32, i32)>::empty());
        assert(events@ =~= e0 + random_tick_reports(world.blocks@, ps));
    }
    while ci < chunks.len()
        invariant
            ci <= chunks@.len(),
            ps.len() == tick_slots(chunks@.take(ci as int), sections as nat, speed as nat).len(),
            forall|i: int|
                0 <= i < ps.len() ==> in_slot(
                    #[trigger] ps[i],
                    tick_slots(chunks@.take(ci as int), sections as nat, speed as nat)[i],
                    min_y,
                ),
            events@ == e0 + random_tick_reports(world.blocks@, ps),
            sections == height / 16,
            per_chunk == sections * speed,
            min_y + height <= i32::MAX,
            height <= i32::MAX,
            forall|c: int| 0 <= c < chunks@.len() ==> -0x400_0000 <= #[trigger] chunks@[c].0 < 0x400_0000
                && -0x400_0000 <= chunks@[c].1 < 0x400_0000,
            events@.len() <= e0.len() + ci * per_chunk,
            e0.len() <= events@.len(),
            events@.subrange(0, e0.len() as int) == e0,
            forall|i: int| e0.len() <= i < events@.len() ==> possible_random_tick(
                world.blocks@,
                chunks@,
                min_y,
                sections as int,
                #[trigger] events@[i],
            ),
        decreases chunks@.len() - ci,
    {
        let chunk = chunks[ci];
        let mut sect: u32 = 0;
        let ghost ec = events@.len();
        let ghost base = tick_slots(chunks@.take(ci as int), sections as nat, speed as nat);
        proof {
            assert(chunk_tick_slots(chunk, 0, speed as nat) =~= Seq::<((i32, i32), int)>::empty());
            assert(base + chunk_tick_slots(chunk, 0, speed as nat) =~= base);
        }
        while sect < sections
            invariant
                ci < chunks@.len(),
                ps.len() == (base + chunk_tick_slots(chunk, sect as nat, speed as nat)).len(),
                forall|i: int|
                    0 <= i < ps.len() ==> in_slot(
                        #[trigger] ps[i],
                        (base + chunk_tick_slots(chunk, sect as nat, speed as nat))[i],
                        min_y,
                    ),
                events@ == e0 + random_tick_reports(world.blocks@, ps),
                chunk == chunks@[ci as int],
                sect <= sections,
                sections == height / 16,
                min_y + height <= i32::MAX,
                -0x400_0000 <= chunk.0 < 0x400_0000,
                -0x400_0000 <= chunk.1 < 0x400_0000,
                events@.len() <= ec + sect * speed,
                e0.len() <= ec <= events@.len(),
                events@.subrange(0, e0.len() as int) == e0,
                height <= i32::MAX,
                forall|i: int| e0.len() <= i < events@.len() ==> possible_random_tick(
                    world.blocks@,
                    chunks@,
                    min_y,
                    sections as int,
                    #[trigger] events@[i],
                ),
            decreases sections - sect,
        {
            assert(sect * 16 + 16 <= height) by (nonlinear_arith)
                requires
                    sect < sections,
                    sections == height / 16,
            ;
            let sect_min_y: i32 = min_y + (sect as i32) * 16;
            let ghost es = events@.len();
            let ghost cur = base + chunk_tick_slots(chunk, sect as nat, speed as nat);
            let mut n: u32 = 0;
            proof {
                assert(cur + Seq::new(0, |_i: int| (chunk, sect as int)) =~= cur);
            }
            while n < speed
                invariant
                    ci < chunks@.len(),
                    ps.len() == (cur + Seq::new(n as nat, |_i: int| (chunk, sect as int))).len(),
                    forall|i: int|
                        0 <= i < ps.len() ==> in_slot(
                            #[trigger] ps[i],
                            (cur + Seq::new(n as nat, |_i: int| (chunk, sect as int)))[i],
                            min_y,
                        ),
                    events@ == e0 + random_tick_reports(world.blocks@, ps),
                    chunk == chunks@[ci as int],
                    sect < sections,
                    sections == height / 16,
                    sect_min_y == min_y + sect * 16,
                    sect * 16 + 16 <= height,
                    min_y + height <= i32::MAX,
                    -0x400_0000 <= chunk.0 < 0x400_0000,
                    -0x400_0000 <= chunk.1 < 0x400_0000,
                    n <= speed,
                    events@.len() <= es + n,
                    e0.len() <= es <= events@.len(),
                    events@.subrange(0, e0.len() as int) == e0,
                    forall|i: int| e0.len() <= i < events@.len() ==> possible_random_tick(
                        world.blocks@,
                        chunks@,
                        min_y,
                        sections as int,
                        #[trigger] events@[i],
                    ),
                decreases speed - n,
            {
                let local_x = random_below(16) as u32;
                let local_y = random_below(16) as u32;
                let local_z = random_below(16) as u32;
                let pos = BlockPos::new(
                    chunk.0 * 16 + local_x as i32,
                    sect_min_y + local_y as i32,
                    chunk.1 * 16 + local_z as i32,
                );
                let ghost old_ps = ps;
                let ghost old_events = events@;
                let ghost slots_n = cur + Seq::new(n as nat, |_i: int| (chunk, sect as int));
                let ghost slots_n1 = cur + Seq::new((n + 1) as nat, |_i: int| (chunk, sect as int));
                proof {
                    ps = ps.push(pos);
                    assert(slots_n1 =~= slots_n.push((chunk, sect as int)));
                    assert(in_slot(pos, (chunk, sect as int), min_y));
                    assert forall|i: int| 0 <= i < ps.len() implies in_slot(#[trigger] ps[i], slots_n1[i], min_y) by {
                        if i < old_ps.len() {
                            assert(ps[i] == old_ps[i]);
                            assert(slots_n1[i] == slots_n[i]);
                        }
                    }
                    assert(ps.drop_last() =~= old_ps);
                }
                match random_tick_at(world, pos) {
                    Some(e) => {
                        proof {
                            assert(in_chunk_section(pos, chunks@[ci as int], min_y, sections as int));
                        }
                        events.push(e);
                        proof {
                            assert(events@ =~= e0 + random_tick_reports(world.blocks@, ps));
                        }
                    },
                    None => {},
                }
                n = n + 1;
            }
            proof {
                assert(chunk_tick_slots(chunk, (sect + 1) as nat, speed as nat) =~= chunk_tick_slots(
                    chunk,
                    sect as nat,
                    speed as nat,
                ) + Seq::new(speed as nat, |_i: int| (chunk, sect as int)));
                assert(cur + Seq::new(speed as nat, |_i: int| (chunk, sect as int)) =~= base
                    + chunk_tick_slots(chunk, (sect + 1) as nat, speed as nat));
            }
            sect = sect + 1;
            assert(events@.len() <= ec + sect * speed) by (nonlinear_arith)
                requires
                    events@.len() <= es + speed,
                    es <= ec + (sect - 1) * speed,
            ;
        }
        proof {
            let t1 = chunks@.take(ci + 1);
            assert(t1.drop_last() =~= chunks@.take(ci as int));
            assert(t1.last() == chunk);
            assert(tick_slots(t1, sections as nat, speed as nat) == base + chunk_tick_slots(
                chunk,
                sections as nat,
                speed as nat,
            ));
        }
        ci = ci + 1;
        assert(events@.len() <= e0.len() + ci * per_chunk) by (nonlinear_arith)
            requires
                events@.len() <= ec + sections * speed,
                ec <= e0.len() + (ci - 1) * per_chunk,
                per_chunk == sections * speed,
        ;
    }
    assert(events@.len() <= e0.len() + chunks@.len() * (height / 16) * speed) by (nonlinear_arith)
        requires
            events@.len() <= e0.len() + ci * per_chunk,
            ci == chunks@.len(),
            per_chunk == sections * speed,
            sections == height / 16,
    ;
    proof {
        assert(chunks@.take(ci as int) =~= chunks@);
    }
}

/// Whether `a` runs before `b` (see [`runs_before`]).
fn tick_runs_before(a: &ScheduledTick, b: &ScheduledTick) -> (r: bool)
    ensures
        r == runs_before(*a, *b),
{
    a.priority < b.priority || (a.priority == b.priority && a.tick < b.tick)
}

/// The ticks sorted into running order, equal ones kept in their order.
pub fn sort_into_run_order(ticks: &Vec<ScheduledTick>) -> (sorted: Vec<ScheduledTick>)
    ensures
        sorted@ == run_order(ticks@),
{
    let mut sorted: Vec<ScheduledTick> = Vec::new();
    let mut k: usize = 0;
    while k < ticks.len()
        invariant
            k <= ticks@.len(),
            sorted@ == run_order(ticks@.take(k as int)),
        decreases ticks@.len() - k,
    {
        let x = ticks[k];
        let mut j: usize = 0;
        while j < sorted.len()
            invariant
                j <= sorted@.len(),
                first_after(sorted@, x, 0) == first_after(sorted@, x, j as int),
            ensures
                j <= sorted@.len(),
                first_after(sorted@, x, 0) == j,
            decreases sorted@.len() - j,
        {
            if tick_runs_before(&x, &sorted[j]) {
                break;
            }
            j = j + 1;
        }
        proof {
            assert(ticks@.take(k + 1).drop_last() =~= ticks@.take(k as int));
            assert(ticks@.take(k + 1).last() == x);
        }
        sorted.insert(j, x);
        k = k + 1;
    }
    proof {
        assert(ticks@.take(ticks@.len() as int) =~= ticks@);
    }
    sorted
}

/// The first index found from `i` on lies between `i` and the length.
proof fn lemma_first_after_range(s: Seq<ScheduledTick>, x: ScheduledTick, i: int)
    requires
        0 <= i <= s.len(),
    ensures
        i <= first_after(s, x, i) <= s.len(),
        first_after(s, x, i) < s.len() ==> runs_before(x, s[first_after(s, x, i)]),
        forall|j: int| i <= j < first_after(s, x, i) ==> !runs_before(x, #[trigger] s[j]),
    decreases s.len() - i,
{
    if i < s.len() {
        lemma_first_after_range(s, x, i + 1);
    }
}

/// Whether the ticks are in running order: none runs before one ahead of
/// it.
pub open spec fn in_run_order(s: Seq<ScheduledTick>) -> bool {
    forall|i: int, j: int| 0 <= i < j < s.len() ==> !runs_before(#[trigger] s[j], #[trigger] s[i])
}

/// Sorting puts the ticks in running order.
pub proof fn lemma_run_order_sorted(s: Seq<ScheduledTick>)
    ensures
        in_run_order(run_order(s)),
    decreases s.len(),
{
    if s.len() > 0 {
        let r = run_order(s.drop_last());
        let x = s.last();
        lemma_run_order_sorted(s.drop_last());
        lemma_first_after_range(r, x, 0);
        let p = first_after(r, x, 0);
        let out = r.insert(p, x);
        r.insert_ensures(p, x);
        assert forall|i: int, j: int| 0 <= i < j < out.len() implies !runs_before(#[trigger] out[j], #[trigger] out[i]) by {
            if j < p {
            } else if j == p {
                assert(!runs_before(x, r[i]));
            } else if i < p {
                assert(out[j] == r[j - 1]);
            } else if i == p {
                assert(out[j] == r[j - 1]);
                assert(runs_before(x, r[p]));
                if j - 1 > p {
                    assert(!runs_before(r[j - 1], r[p]));
                }
            } else {
                assert(out[j] == r[j - 1]);
                assert(out[i] == r[i - 1]);
            }
        }
    }
}

/// Sorting neither adds nor drops a tick.
pub proof fn lemma_run_order_permutes(s: Seq<ScheduledTick>)
    ensures
        run_order(s).to_multiset() == s.to_multiset(),
    decreases s.len(),
{
    if s.len() > 0 {
        let r = run_order(s.drop_last());
        lemma_run_order_permutes(s.drop_last());
        lemma_first_after_range(r, s.last(), 0);
        to_multiset_insert(r, first_after(r, s.last(), 0), s.last());
        assert(s.drop_last().push(s.last()) =~= s);
        to_multiset_build(s.drop_last(), s.last());
    }
}

/// Whether a tick has priority `priority` and is due at `tick`.
pub open spec fn same_key(priority: i32, tick: u64) -> spec_fn(ScheduledTick) -> bool {
    |t: ScheduledTick| t.priority == priority && t.tick == tick
}

proof fn lemma_filter_none(s: Seq<ScheduledTick>, p: spec_fn(ScheduledTick) -> bool)
    requires
        forall|i: int| 0 <= i < s.len() ==> !p(#[trigger] s[i]),
    ensures
        s.filter(p).len() == 0,
{
    if s.filter(p).len() > 0 {
        let e = s.filter(p)[0];
        assert(s.filter(p).contains(e));
        s.lemma_filter_contains_rev(p, e);
        s.lemma_filter_pred(p, 0);
    }
}

/// Sorting is stable: ticks of the same priority and due tick keep the
/// order they were scheduled in.
pub proof fn lemma_run_order_stable(s: Seq<ScheduledTick>, priority: i32, tick: u64)
    ensures
        run_order(s).filter(same_key(priority, tick)) == s.filter(same_key(priority, tick)),
    decreases s.len(),
{
    let k = same_key(priority, tick);
    if s.len() > 0 {
        let d = s.drop_last();
        let x = s.last();
        let r = run_order(d);
        lemma_run_order_stable(d, priority, tick);
        lemma_run_order_sorted(d);
        lemma_first_after_range(r, x, 0);
        let p = first_after(r, x, 0);
        let out = r.insert(p, x);
        assert(out =~= r.take(p) + seq![x] + r.skip(p));
        assert(r =~= r.take(p) + r.skip(p));
        assert(s =~= d + seq![x]);
        Seq::filter_distributes_over_add(r.take(p) + seq![x], r.skip(p), k);
        Seq::filter_distributes_over_add(r.take(p), seq![x], k);
        Seq::filter_distributes_over_add(r.take(p), r.skip(p), k);
        Seq::filter_distributes_over_add(d, seq![x], k);
        if k(x) {
            let rest = r.skip(p);
            assert forall|i: int| 0 <= i < rest.len() implies !k(#[trigger] rest[i]) by {
                assert(rest[i] == r[p + i]);
                if k(r[p + i]) {
                    assert(runs_before(x, r[p]));
                    if i > 0 {
                        assert(!runs_before(r[p + i], r[p]));
                    }
                }
            }
            lemma_filter_none(rest, k);
            assert(rest.filter(k) =~= Seq::<ScheduledTick>::empty());
        } else {
            lemma_filter_none(seq![x], k);
        }
        reveal(Seq::filter);
        assert(seq![x].filter(k) == if k(x) { seq![x] } else { Seq::<ScheduledTick>::empty() }) by {
            reveal_with_fuel(Seq::filter, 2);
            assert(seq![x].drop_last() =~= Seq::<ScheduledTick>::empty());
        }
        assert(out.filter(k) =~= s.filter(k));
    }
}

/// Draining splits the schedule: the due ticks and the pending ones
/// together are the ticks that were scheduled; every due tick is due and
/// every pending one is not.
pub proof fn lemma_drain_partitions(s: Seq<ScheduledTick>, current: u64)
    ensures
        run_order(due_ticks(s, current)).to_multiset().add(pending_ticks(s, current).to_multiset()) == s.to_multiset(),
        forall|i: int| 0 <= i < run_order(due_ticks(s, current)).len() ==> #[trigger] run_order(due_ticks(s, current))[i].tick <= current,
        forall|i: int| 0 <= i < pending_ticks(s, current).len() ==> #[trigger] pending_ticks(s, current)[i].tick > current,
    decreases s.len(),
{
    lemma_run_order_permutes(due_ticks(s, current));
    lemma_filter_split(s, current);
    let d = due_ticks(s, current);
    let r = run_order(d);
    assert forall|i: int| 0 <= i < r.len() implies #[trigger] r[i].tick <= current by {
        to_multiset_contains(r, r[i]);
        to_multiset_contains(d, r[i]);
        assert(r.contains(r[i]));
        assert(d.contains(r[i]));
        let k = choose|k: int| 0 <= k < d.len() && d[k] == r[i];
        s.lemma_filter_pred(is_due(current), k);
    }
    assert forall|i: int| 0 <= i < pending_ticks(s, current).len() implies #[trigger] pending_ticks(s, current)[i].tick > current by {
        s.lemma_filter_pred(is_pending(current), i);
    }
}

/// The due and pending ticks together are all of them.
proof fn lemma_filter_split(s: Seq<ScheduledTick>, current: u64)
    ensures
        due_ticks(s, current).to_multiset().add(pending_ticks(s, current).to_multiset()) == s.to_multiset(),
    decreases s.len(),
{
    broadcast use vstd::multiset::group_multiset_axioms, vstd::seq_lib::group_to_multiset_ensures;

    if s.len() == 0 {
        reveal(Seq::filter);
        assert(due_ticks(s, current) =~= Seq::<ScheduledTick>::empty());
        assert(pending_ticks(s, current) =~= Seq::<ScheduledTick>::empty());
        assert(s =~= Seq::<ScheduledTick>::empty());
        assert(due_ticks(s, current).to_multiset().add(pending_ticks(s, current).to_multiset()) =~= s.to_multiset());
    } else {
        let t = s.last();
        let rest = s.drop_last();
        lemma_filter_split(rest, current);
        assert(rest.push(t) =~= s);
        rest.lemma_filter_push(t, is_due(current));
        rest.lemma_filter_push(t, is_pending(current));
        to_multiset_build(rest, t);
        to_multiset_build(due_ticks(rest, current), t);
        to_multiset_build(pending_ticks(rest, current), t);
        assert(due_ticks(s, current).to_multiset().add(pending_ticks(s, current).to_multiset()) =~= s.to_multiset());
    }
}

} // verus!
