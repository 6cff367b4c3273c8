//! Block positions, directions, block states and a world of placed blocks.
//!
//! A block state is its kind together with the properties that kind has;
//! a property that a kind does not have is `None` and stays `None`.
use vstd::prelude::*;

verus! {

/// The greatest coordinate of a position with neighbours on every side
/// (`i32::MAX - 1`); the least is `-COORD_LIMIT - 1` (`i32::MIN + 1`).
pub const COORD_LIMIT: i32 = 0x7fff_fffe;

/// A block position.
#[derive(Clone, Copy, Debug, PartialEq, Eq, Hash, Structural)]
pub struct BlockPos {
    pub x: i32,
    pub y: i32,
    pub z: i32,
}

/// The six axis directions.
#[derive(Clone, Copy, Debug, PartialEq, Eq, Hash, Structural)]
pub enum Direction {
    Down,
    Up,
    North,
    South,
    West,
    East,
}

/// The direction pointing the other way.
pub open spec fn spec_opposite(d: Direction) -> Direction {
    match d {
        Direction::Down => Direction::Up,
        Direction::Up => Direction::Down,
        Direction::North => Direction::South,
        Direction::South => Direction::North,
        Direction::West => Direction::East,
        Direction::East => Direction::West,
    }
}

impl Direction {
    /// The direction pointing the other way.
    pub fn opposite(self) -> (r: Direction)
        ensures
            r == spec_opposite(self),
    {
        match self {
            Direction::Down => Direction::Up,
            Direction::Up => Direction::Down,
            Direction::North => Direction::South,
            Direction::South => Direction::North,
            Direction::West => Direction::East,
            Direction::East => Direction::West,
        }
    }
}

/// A position with a neighbour in every direction: none of its coordinates
/// is the least or the greatest `i32`.
pub open spec fn pos_in_bounds(p: BlockPos) -> bool {
    -COORD_LIMIT - 1 <= p.x <= COORD_LIMIT && -COORD_LIMIT - 1 <= p.y <= COORD_LIMIT && -COORD_LIMIT
        - 1 <= p.z <= COORD_LIMIT
}

/// The position one step from `p` in direction `d`.
pub open spec fn spec_offset(p: BlockPos, d: Direction) -> BlockPos {
    match d {
        Direction::Down => BlockPos { x: p.x, y: (p.y - 1) as i32, z: p.z },
        Direction::Up => BlockPos { x: p.x, y: (p.y + 1) as i32, z: p.z },
        Direction::North => BlockPos { x: p.x, y: p.y, z: (p.z - 1) as i32 },
        Direction::South => BlockPos { x: p.x, y: p.y, z: (p.z + 1) as i32 },
        Direction::West => BlockPos { x: (p.x - 1) as i32, y: p.y, z: p.z },
        Direction::East => BlockPos { x: (p.x + 1) as i32, y: p.y, z: p.z },
    }
}

impl BlockPos {
    /// Makes a position from its coordinates.
    pub fn new(x: i32, y: i32, z: i32) -> (p: BlockPos)
        ensures
            p == (BlockPos { x, y, z }),
    {
        BlockPos { x, y, z }
    }

    /// The neighbouring position in direction `d`.
    pub fn get_in_direction(self, d: Direction) -> (p: BlockPos)
        requires
            pos_in_bounds(self),
        ensures
            p == spec_offset(self, d),
    {
        match d {
            Direction::Down => BlockPos { x: self.x, y: self.y - 1, z: self.z },
            Direction::Up => BlockPos { x: self.x, y: self.y + 1, z: self.z },
            Direction::North => BlockPos { x: self.x, y: self.y, z: self.z - 1 },
            Direction::South => BlockPos { x: self.x, y: self.y, z: self.z + 1 },
            Direction::West => BlockPos { x: self.x - 1, y: self.y, z: self.z },
            Direction::East => BlockPos { x: self.x + 1, y: self.y, z: self.z },
        }
    }
}

/// The kinds of block the game rules here tell apart; every other block is
/// `Other` with its numeric id.
#[derive(Clone, Copy, Debug, PartialEq, Eq, Hash, Structural)]
pub enum BlockKind {
    Air,
    CaveAir,
    VoidAir,
    Stone,
    Dirt,
    GrassBlock,
    Sand,
    Gravel,
    Water,
    Farmland,
    SoulSand,
    Chest,
    Hopper,
    RedstoneWire,
    TallGrass,
    Grass,
    Fern,
    DeadBush,
    Dandelion,
    Poppy,
    Glass,
    GlassPane,
    RedstoneTorch,
    RedstoneWallTorch,
    Repeater,
    Comparator,
    RedstoneBlock,
    RedstoneLamp,
    Piston,
    StickyPiston,
    Wheat,
    Carrots,
    Potatoes,
    Beetroots,
    NetherWart,
    CraftingTable,
    Furnace,
    Other(u16),
}

/// The mode property of a comparator.
#[derive(Clone, Copy, Debug, PartialEq, Eq, Hash, Structural)]
pub enum ComparatorMode {
    Compare,
    Subtract,
}

/// A block kind with the values of its properties.
#[derive(Clone, Copy, Debug, PartialEq, Eq, Hash, Structural)]
pub struct BlockState {
    pub kind: BlockKind,
    pub facing: Option<Direction>,
    pub powered: Option<bool>,
    pub extended: Option<bool>,
    pub locked: Option<bool>,
    pub lit: Option<bool>,
    pub delay: Option<u8>,
    pub power: Option<u8>,
    pub age: Option<u8>,
    pub mode: Option<ComparatorMode>,
}

/// The state with no properties.
pub open spec fn bare(kind: BlockKind) -> BlockState {
    BlockState {
        kind,
        facing: None,
        powered: None,
        extended: None,
        locked: None,
        lit: None,
        delay: None,
        power: None,
        age: None,
        mode: None,
    }
}

/// Largest age of a crop block.
pub open spec fn spec_max_crop_age(kind: BlockKind) -> u8 {
    match kind {
        BlockKind::Wheat | BlockKind::Carrots | BlockKind::Potatoes => 7,
        _ => 3,
    }
}

/// The state a kind of block is placed with.
pub open spec fn spec_default_state(kind: BlockKind) -> BlockState {
    match kind {
        BlockKind::Piston | BlockKind::StickyPiston => BlockState {
            facing: Some(Direction::North),
            extended: Some(false),
            ..bare(kind)
        },
        BlockKind::Repeater => BlockState {
            facing: Some(Direction::North),
            delay: Some(1),
            locked: Some(false),
            powered: Some(false),
            ..bare(kind)
        },
        BlockKind::Comparator => BlockState {
            facing: Some(Direction::North),
            mode: Some(ComparatorMode::Compare),
            powered: Some(false),
            ..bare(kind)
        },
        BlockKind::RedstoneTorch => BlockState { lit: Some(true), ..bare(kind) },
        BlockKind::RedstoneWallTorch => BlockState {
            facing: Some(Direction::North),
            lit: Some(true),
            ..bare(kind)
        },
        BlockKind::RedstoneWire => BlockState { power: Some(0), ..bare(kind) },
        BlockKind::RedstoneLamp => BlockState { lit: Some(false), ..bare(kind) },
        BlockKind::Wheat | BlockKind::Carrots | BlockKind::Potatoes | BlockKind::Beetroots
        | BlockKind::NetherWart => BlockState { age: Some(0), ..bare(kind) },
        _ => bare(kind),
    }
}

/// A state whose properties are those of its kind, with values in range.
pub open spec fn state_wf(s: BlockState) -> bool {
    let d = spec_default_state(s.kind);
    &&& (s.facing is Some) == (d.facing is Some)
    &&& (s.powered is Some) == (d.powered is Some)
    &&& (s.extended is Some) == (d.extended is Some)
    &&& (s.locked is Some) == (d.locked is Some)
    &&& (s.lit is Some) == (d.lit is Some)
    &&& (s.delay is Some) == (d.delay is Some)
    &&& (s.power is Some) == (d.power is Some)
    &&& (s.age is Some) == (d.age is Some)
    &&& (s.mode is Some) == (d.mode is Some)
    &&& s.delay matches Some(v) ==> 1 <= v <= 4
    &&& s.power matches Some(v) ==> v <= 15
    &&& s.age matches Some(v) ==> v <= spec_max_crop_age(s.kind)
    &&& s.facing matches Some(f) ==> (s.kind == BlockKind::Piston || s.kind
        == BlockKind::StickyPiston || (f != Direction::Up && f != Direction::Down))
}

impl BlockState {
    /// The state a kind of block is placed with.
    pub fn default_of(kind: BlockKind) -> (s: BlockState)
        ensures
            s == spec_default_state(kind),
            state_wf(s),
    {
        let b = BlockState {
            kind,
            facing: None,
            powered: None,
            extended: None,
            locked: None,
            lit: None,
            delay: None,
            power: None,
            age: None,
            mode: None,
        };
        match kind {
            BlockKind::Piston | BlockKind::StickyPiston => BlockState {
                facing: Some(Direction::North),
                extended: Some(false),
                ..b
            },
            BlockKind::Repeater => BlockState {
                facing: Some(Direction::North),
                delay: Some(1),
                locked: Some(false),
                powered: Some(false),
                ..b
            },
            BlockKind::Comparator => BlockState {
                facing: Some(Direction::North),
                mode: Some(ComparatorMode::Compare),
                powered: Some(false),
                ..b
            },
            BlockKind::RedstoneTorch => BlockState { lit: Some(true), ..b },
            BlockKind::RedstoneWallTorch => BlockState {
                facing: Some(Direction::North),
                lit: Some(true),
                ..b
            },
            BlockKind::RedstoneWire => BlockState { power: Some(0), ..b },
            BlockKind::RedstoneLamp => BlockState { lit: Some(false), ..b },
            BlockKind::Wheat | BlockKind::Carrots | BlockKind::Potatoes | BlockKind::Beetroots
            | BlockKind::NetherWart => BlockState { age: Some(0), ..b },
            _ => b,
        }
    }

    /// The kind of block.
    pub fn to_kind(&self) -> (k: BlockKind)
        ensures
            k == self.kind,
    {
        self.kind
    }

    /// Whether this is one of the air blocks.
    pub fn is_air(&self) -> (b: bool)
        ensures
            b == (self.kind == BlockKind::Air || self.kind == BlockKind::CaveAir || self.kind
                == BlockKind::VoidAir),
    {
        match self.kind {
            BlockKind::Air | BlockKind::CaveAir | BlockKind::VoidAir => true,
            _ => false,
        }
    }

    /// Sets the facing property when this kind has it and allows `f`;
    /// otherwise the state is unchanged.
    pub fn with_facing(self, f: Direction) -> (s: BlockState)
        ensures
            s == (if self.facing is Some && (self.kind == BlockKind::Piston || self.kind
                == BlockKind::StickyPiston || (f != Direction::Up && f != Direction::Down)) {
                BlockState { facing: Some(f), ..self }
            } else {
                self
            }),
    {
        if self.facing.is_some() && (self.kind == BlockKind::Piston || self.kind
            == BlockKind::StickyPiston || (f != Direction::Up && f != Direction::Down)) {
            BlockState { facing: Some(f), ..self }
        } else {
            self
        }
    }

    /// Sets the powered property when this kind has it.
    pub fn with_powered(self, v: bool) -> (s: BlockState)
        ensures
            s == (if self.powered is Some {
                BlockState { powered: Some(v), ..self }
            } else {
                self
            }),
    {
        if self.powered.is_some() {
            BlockState { powered: Some(v), ..self }
        } else {
            self
        }
    }

    /// Sets the extended property when this kind has it.
    pub fn with_extended(self, v: bool) -> (s: BlockState)
        ensures
            s == (if self.extended is Some {
                BlockState { extended: Some(v), ..self }
            } else {
                self
            }),
    {
        if self.extended.is_some() {
            BlockState { extended: Some(v), ..self }
        } else {
            self
        }
    }

    /// Sets the locked property when this kind has it.
    pub fn with_locked(self, v: bool) -> (s: BlockState)
        ensures
            s == (if self.locked is Some {
                BlockState { locked: Some(v), ..self }
            } else {
                self
            }),
    {
        if self.locked.is_some() {
            BlockState { locked: Some(v), ..self }
        } else {
            self
        }
    }

    /// Sets the lit property when this kind has it.
    pub fn with_lit(self, v: bool) -> (s: BlockState)
        ensures
            s == (if self.lit is Some {
                BlockState { lit: Some(v), ..self }
            } else {
                self
            }),
    {
        if self.lit.is_some() {
            BlockState { lit: Some(v), ..self }
        } else {
            self
        }
    }

    /// Sets the delay property when this kind has it and `v` is in 1..=4.
    pub fn with_delay(self, v: u8) -> (s: BlockState)
        ensures
            s == (if self.delay is Some && 1 <= v <= 4 {
                BlockState { delay: Some(v), ..self }
            } else {
                self
            }),
    {
        if self.delay.is_some() && 1 <= v && v <= 4 {
            BlockState { delay: Some(v), ..self }
        } else {
            self
        }
    }

    /// Sets the power property when this kind has it and `v` is in 0..=15.
    pub fn with_power(self, v: u8) -> (s: BlockState)
        ensures
            s == (if self.power is Some && v <= 15 {
                BlockState { power: Some(v), ..self }
            } else {
                self
            }),
    {
        if self.power.is_some() && v <= 15 {
            BlockState { power: Some(v), ..self }
        } else {
            self
        }
    }

    /// Sets the age property when this kind has it and `v` is within the
    /// kind's growth stages.
    pub fn with_age(self, v: u8) -> (s: BlockState)
        ensures
            s == (if self.age is Some && v <= spec_max_crop_age(self.kind) {
                BlockState { age: Some(v), ..self }
            } else {
                self
            }),
    {
        let max: u8 = match self.kind {
            BlockKind::Wheat | BlockKind::Carrots | BlockKind::Potatoes => 7,
            _ => 3,
        };
        if self.age.is_some() && v <= max {
            BlockState { age: Some(v), ..self }
        } else {
            self
        }
    }

    /// Sets the mode property when this kind has it.
    pub fn with_mode(self, m: ComparatorMode) -> (s: BlockState)
        ensures
            s == (if self.mode is Some {
                BlockState { mode: Some(m), ..self }
            } else {
                self
            }),
    {
        if self.mode.is_some() {
            BlockState { mode: Some(m), ..self }
        } else {
            self
        }
    }
}

/// A set of placed blocks: each position holds the state of its first entry.
pub struct BlockWorld {
    pub blocks: Vec<(BlockPos, BlockState)>,
}

/// The state at `p` among `entries`: that of the first entry at `p`.
pub open spec fn lookup(entries: Seq<(BlockPos, BlockState)>, p: BlockPos) -> Option<BlockState>
    decreases entries.len(),
{
    if entries.len() == 0 {
        None
    } else if entries[0].0 == p {
        Some(entries[0].1)
    } else {
        lookup(entries.drop_first(), p)
    }
}

/// Largest `y` of any stored block (`i32::MIN` when there is none).
pub open spec fn max_y(entries: Seq<(BlockPos, BlockState)>) -> int
    decreases entries.len(),
{
    if entries.len() == 0 {
        i32::MIN as int
    } else {
        let rest = max_y(entries.drop_first());
        if entries[0].0.y > rest {
            entries[0].0.y as int
        } else {
            rest
        }
    }
}

/// The world's view: the state at each position.
pub open spec fn world_get(w: Seq<(BlockPos, BlockState)>, p: BlockPos) -> Option<BlockState> {
    lookup(w, p)
}

/// Every stored block lies within bounds and has a well-formed state.
pub open spec fn world_wf(w: Seq<(BlockPos, BlockState)>) -> bool {
    forall|i: int| 0 <= i < w.len() ==> pos_in_bounds(#[trigger] w[i].0) && state_wf(w[i].1)
}

/// A position that holds a block lies within bounds, has a well-formed
/// state and is no higher than the highest block.
pub proof fn lemma_lookup_facts(w: Seq<(BlockPos, BlockState)>, p: BlockPos)
    requires
        world_wf(w),
    ensures
        lookup(w, p) matches Some(s) ==> pos_in_bounds(p) && state_wf(s) && p.y <= max_y(w),
    decreases w.len(),
{
    if w.len() > 0 {
        assert(pos_in_bounds(w[0].0) && state_wf(w[0].1));
        if w[0].0 != p {
            assert forall|i: int| 0 <= i < w.drop_first().len() implies pos_in_bounds(
                #[trigger] w.drop_first()[i].0,
            ) && state_wf(w.drop_first()[i].1) by {
                assert(w.drop_first()[i] == w[i + 1]);
            }
            lemma_lookup_facts(w.drop_first(), p);
        }
    }
}

/// The entries after replacing the first entry at `p`, or adding one.
pub open spec fn store(entries: Seq<(BlockPos, BlockState)>, p: BlockPos, s: BlockState) -> Seq<
    (BlockPos, BlockState),
>
    decreases entries.len(),
{
    if entries.len() == 0 {
        seq![(p, s)]
    } else if entries[0].0 == p {
        entries.update(0, (p, s))
    } else {
        seq![entries[0]] + store(entries.drop_first(), p, s)
    }
}

/// Storing at `p` changes the state at `p` and nothing else.
pub proof fn lemma_store_lookup(entries: Seq<(BlockPos, BlockState)>, p: BlockPos, s: BlockState, q: BlockPos)
    ensures
        lookup(store(entries, p, s), q) == (if q == p {
            Some(s)
        } else {
            lookup(entries, q)
        }),
    decreases entries.len(),
{
    let r = store(entries, p, s);
    if entries.len() == 0 {
        assert(r =~= seq![(p, s)]);
        assert(r.drop_first().len() == 0);
        assert(r[0] == (p, s));
    } else if entries[0].0 == p {
        assert(r == entries.update(0, (p, s)));
        assert(r.drop_first() =~= entries.drop_first());
        assert(r[0] == (p, s));
        if q != p {
            assert(lookup(r, q) == lookup(r.drop_first(), q));
            assert(lookup(entries, q) == lookup(entries.drop_first(), q));
        }
    } else {
        lemma_store_lookup(entries.drop_first(), p, s, q);
        assert(r == seq![entries[0]] + store(entries.drop_first(), p, s));
        assert(r.drop_first() =~= store(entries.drop_first(), p, s));
        assert(r[0] == entries[0]);
        if entries[0].0 != q {
            assert(lookup(r, q) == lookup(r.drop_first(), q));
            assert(lookup(entries, q) == lookup(entries.drop_first(), q));
        }
    }
}

/// Storing keeps the world well-formed when the new block is.
pub proof fn lemma_store_wf(entries: Seq<(BlockPos, BlockState)>, p: BlockPos, s: BlockState)
    requires
        world_wf(entries),
        pos_in_bounds(p),
        state_wf(s),
    ensures
        world_wf(store(entries, p, s)),
    decreases entries.len(),
{
    if entries.len() > 0 && entries[0].0 != p {
        assert forall|i: int| 0 <= i < entries.drop_first().len() implies pos_in_bounds(
            #[trigger] entries.drop_first()[i].0,
        ) && state_wf(entries.drop_first()[i].1) by {
            assert(entries.drop_first()[i] == entries[i + 1]);
        }
        lemma_store_wf(entries.drop_first(), p, s);
        let r = seq![entries[0]] + store(entries.drop_first(), p, s);
        assert(store(entries, p, s) == r);
        assert(pos_in_bounds(entries[0].0) && state_wf(entries[0].1));
        assert forall|i: int| 0 <= i < r.len() implies pos_in_bounds(#[trigger] r[i].0) && state_wf(
            r[i].1,
        ) by {
            if i > 0 {
                assert(r[i] == store(entries.drop_first(), p, s)[i - 1]);
            }
        }
    } else if entries.len() > 0 {
        let r = entries.update(0, (p, s));
        assert(store(entries, p, s) == r);
        assert forall|i: int| 0 <= i < r.len() implies pos_in_bounds(#[trigger] r[i].0) && state_wf(
            r[i].1,
        ) by {
            if i > 0 {
                assert(r[i] == entries[i]);
            }
        }
    } else {
        let r = seq![(p, s)];
        assert(store(entries, p, s) == r);
        assert forall|i: int| 0 <= i < r.len() implies pos_in_bounds(#[trigger] r[i].0) && state_wf(
            r[i].1,
        ) by {
            assert(r[i] == (p, s));
        }
    }
}

impl BlockWorld {
    /// An empty world.
    pub fn new() -> (w: BlockWorld)
        ensures
            w.blocks@.len() == 0,
    {
        BlockWorld { blocks: Vec::new() }
    }

    /// The state at `p`, if a block is there.
    pub fn block(&self, p: BlockPos) -> (res: Option<BlockState>)
        ensures
            res == world_get(self.blocks@, p),
    {
        let mut i: usize = 0;
        proof {
            assert(self.blocks@.skip(0) =~= self.blocks@);
        }
        while i < self.blocks.len()
            invariant
                i <= self.blocks@.len(),
                lookup(self.blocks@, p) == lookup(self.blocks@.skip(i as int), p),
            decreases self.blocks@.len() - i,
        {
            proof {
                assert(self.blocks@.skip(i as int).drop_first() =~= self.blocks@.skip((i + 1) as int));
            }
            if self.blocks[i].0 == p {
                return Some(self.blocks[i].1);
            }
            i = i + 1;
        }
        proof {
            assert(self.blocks@.skip(i as int) =~= Seq::<(BlockPos, BlockState)>::empty());
        }
        None
    }

    /// Places `s` at `p` and returns the state that was there.
    pub fn set_block(&mut self, p: BlockPos, s: BlockState) -> (old_state: Option<BlockState>)
        ensures
            final(self).blocks@ == store(old(self).blocks@, p, s),
            old_state == world_get(old(self).blocks@, p),
    {
        let ghost orig = self.blocks@;
        let mut i: usize = 0;
        proof {
            assert(orig.skip(0) =~= orig);
        }
        while i < self.blocks.len()
            invariant
                i <= self.blocks@.len(),
                self.blocks@ == orig,
                orig == old(self).blocks@,
                forall|j: int| 0 <= j < i ==> (#[trigger] orig[j]).0 != p,
                lookup(orig, p) == lookup(orig.skip(i as int), p),
            decreases self.blocks@.len() - i,
        {
            proof {
                assert(orig.skip(i as int).drop_first() =~= orig.skip((i + 1) as int));
            }
            if self.blocks[i].0 == p {
                let prev = self.blocks[i].1;
                self.blocks.set(i, (p, s));
                proof {
                    lemma_store_prefix(orig, p, s, i as nat);
                    assert(orig.skip(i as int)[0] == orig[i as int]);
                    assert(self.blocks@ =~= orig.update(i as int, (p, s)));
                }
                return Some(prev);
            }
            i = i + 1;
        }
        self.blocks.push((p, s));
        proof {
            lemma_store_absent(orig, p, s);
            assert(orig.skip(i as int) =~= Seq::<(BlockPos, BlockState)>::empty());
        }
        None
    }
}

proof fn lemma_store_prefix(entries: Seq<(BlockPos, BlockState)>, p: BlockPos, s: BlockState, i: nat)
    requires
        i < entries.len(),
        entries[i as int].0 == p,
        forall|j: int| 0 <= j < i ==> (#[trigger] entries[j]).0 != p,
    ensures
        store(entries, p, s) == entries.update(i as int, (p, s)),
    decreases i,
{
    if i > 0 {
        lemma_store_prefix(entries.drop_first(), p, s, (i - 1) as nat);
        assert(seq![entries[0]] + entries.drop_first().update((i - 1) as int, (p, s)) =~= entries.update(
            i as int,
            (p, s),
        ));
    }
}

proof fn lemma_store_absent(entries: Seq<(BlockPos, BlockState)>, p: BlockPos, s: BlockState)
    requires
        forall|j: int| 0 <= j < entries.len() ==> (#[trigger] entries[j]).0 != p,
    ensures
        store(entries, p, s) == entries.push((p, s)),
    decreases entries.len(),
{
    if entries.len() > 0 {
        lemma_store_absent(entries.drop_first(), p, s);
        assert(seq![entries[0]] + entries.drop_first().push((p, s)) =~= entries.push((p, s)));
    } else {
        assert(seq![(p, s)] =~= entries.push((p, s)));
    }
}

} // verus!
