//! Crops: growth stages, growth conditions, bone meal and harvest drops.
use vstd::prelude::*;
use crate::items::{ItemKind, ItemStack};
use crate::random::random_below;
use crate::world::{
    BlockKind, BlockPos, BlockState, BlockWorld, spec_default_state, spec_max_crop_age, world_get,
    store, world_wf, state_wf, pos_in_bounds,
};

verus! {

/// The kinds of crop.
#[derive(Debug, Clone, Copy, PartialEq, Eq, Hash, Structural)]
pub enum CropType {
    Wheat,
    Carrot,
    Potato,
    Beetroot,
    NetherWart,
}

/// The last growth stage of a crop type.
pub open spec fn spec_max_age(c: CropType) -> i32 {
    match c {
        CropType::Wheat | CropType::Carrot | CropType::Potato => 7,
        CropType::Beetroot | CropType::NetherWart => 3,
    }
}

/// The block a crop type grows as.
pub open spec fn crop_block(c: CropType) -> BlockKind {
    match c {
        CropType::Wheat => BlockKind::Wheat,
        CropType::Carrot => BlockKind::Carrots,
        CropType::Potato => BlockKind::Potatoes,
        CropType::Beetroot => BlockKind::Beetroots,
        CropType::NetherWart => BlockKind::NetherWart,
    }
}

impl CropType {
    /// The last growth stage: 7 for wheat, carrots and potatoes, 3 for
    /// beetroots and nether wart.
    pub fn max_age(self) -> (a: i32)
        ensures
            a == spec_max_age(self),
    {
        match self {
            CropType::Wheat | CropType::Carrot | CropType::Potato => 7,
            CropType::Beetroot | CropType::NetherWart => 3,
        }
    }

    /// A crop grows on one random tick in this many.
    pub fn growth_chance(self) -> (n: u32)
        ensures
            n == 8,
    {
        8
    }

    /// Whether the crop needs water nearby to grow: all but nether wart.
    pub fn requires_water(self) -> (b: bool)
        ensures
            b == (self != CropType::NetherWart),
    {
        self != CropType::NetherWart
    }

    /// Whether the crop can be planted on `block`: nether wart on soul
    /// sand, the others on farmland.
    pub fn can_place_on(self, block: BlockKind) -> (b: bool)
        ensures
            b == if self == CropType::NetherWart {
                block == BlockKind::SoulSand
            } else {
                block == BlockKind::Farmland
            },
    {
        match self {
            CropType::Wheat | CropType::Carrot | CropType::Potato | CropType::Beetroot => block
                == BlockKind::Farmland,
            CropType::NetherWart => block == BlockKind::SoulSand,
        }
    }

    /// The block of the crop at its first stage.
    pub fn initial_block_state(self) -> (s: BlockState)
        ensures
            s == spec_default_state(crop_block(self)),
            state_wf(s),
    {
        let kind = match self {
            CropType::Wheat => BlockKind::Wheat,
            CropType::Carrot => BlockKind::Carrots,
            CropType::Potato => BlockKind::Potatoes,
            CropType::Beetroot => BlockKind::Beetroots,
            CropType::NetherWart => BlockKind::NetherWart,
        };
        BlockState::default_of(kind)
    }
}

/// A planted crop.
#[derive(Debug, Clone, Copy, PartialEq, Eq, Structural)]
pub struct Crop {
    pub crop_type: CropType,
    /// The current growth stage.
    pub age: i32,
    /// The last growth stage.
    pub max_age: i32,
    /// A growth chance of one in this many random ticks.
    pub growth_chance: u32,
    pub pos: BlockPos,
}

/// The age property a crop's block shows: its age from 0 to 6, 7 for any
/// other age.
pub open spec fn shown_age(age: i32) -> u8 {
    if 0 <= age <= 6 {
        age as u8
    } else {
        7
    }
}

/// The block of a crop: its kind's first stage with the age property set
/// to [`shown_age`] where the kind allows that age.
pub open spec fn spec_crop_block_state(c: Crop) -> BlockState {
    let base = spec_default_state(crop_block(c.crop_type));
    let v = shown_age(c.age);
    if v <= spec_max_crop_age(base.kind) {
        BlockState { age: Some(v), ..base }
    } else {
        base
    }
}

impl Crop {
    /// A crop of the type at its first stage.
    pub fn new(crop_type: CropType, pos: BlockPos) -> (c: Crop)
        ensures
            c == (Crop { crop_type, age: 0, max_age: spec_max_age(crop_type), growth_chance: 8, pos }),
    {
        let max_age = crop_type.max_age();
        let growth_chance = crop_type.growth_chance();
        Crop { crop_type, age: 0, max_age, growth_chance, pos }
    }

    /// Whether the crop reached its last stage.
    pub fn is_fully_grown(&self) -> (b: bool)
        ensures
            b == (self.age >= self.max_age),
    {
        self.age >= self.max_age
    }

    /// Advances the crop one stage, unless it is fully grown.
    pub fn grow(&mut self)
        ensures
            *final(self) == (Crop {
                age: if old(self).age < old(self).max_age { (old(self).age + 1) as i32 } else { old(self).age },
                ..*old(self)
            }),
    {
        if !self.is_fully_grown() {
            self.age = self.age + 1;
        }
    }

    /// Bone meal: advances the crop two stages, not past its last; false
    /// when it was already fully grown.
    pub fn apply_bone_meal(&mut self) -> (applied: bool)
        requires
            old(self).age < old(self).max_age ==> old(self).age + 2 <= i32::MAX,
        ensures
            applied == (old(self).age < old(self).max_age),
            *final(self) == (Crop {
                age: if !applied {
                    old(self).age
                } else if old(self).age + 2 <= old(self).max_age {
                    (old(self).age + 2) as i32
                } else {
                    old(self).max_age
                },
                ..*old(self)
            }),
    {
        if self.is_fully_grown() {
            return false;
        }
        let advancement = if self.age + 2 <= self.max_age {
            2
        } else {
            self.max_age - self.age
        };
        self.age = self.age + advancement;
        true
    }

    /// The block of the crop at its current stage (see
    /// [`spec_crop_block_state`]).
    pub fn to_block_state(&self) -> (s: BlockState)
        ensures
            s == spec_crop_block_state(*self),
            state_wf(s),
    {
        let age_value: u8 = if 0 <= self.age && self.age <= 6 {
            self.age as u8
        } else {
            7
        };
        self.crop_type.initial_block_state().with_age(age_value)
    }
}

/// Whether a crop grows at this light level and water: nether wart at any
/// light, the others at 9 or more; all but nether wart need water.
pub open spec fn spec_growth_conditions(crop_type: CropType, light_level: i32, has_water: bool) -> bool {
    let min_light = if crop_type == CropType::NetherWart { 0i32 } else { 9i32 };
    light_level >= min_light && (crop_type == CropType::NetherWart || has_water)
}

/// Whether a crop grows at this light level and water (see
/// [`spec_growth_conditions`]).
pub fn check_growth_conditions(crop_type: CropType, light_level: i32, has_water: bool) -> (b: bool)
    ensures
        b == spec_growth_conditions(crop_type, light_level, has_water),
{
    let min_light = match crop_type {
        CropType::NetherWart => 0,
        _ => 9,
    };
    if light_level < min_light {
        return false;
    }
    if crop_type.requires_water() && !has_water {
        return false;
    }
    true
}

/// The light at a crop: with no world, 12; otherwise 15 under open air and
/// 10 anywhere else.
pub open spec fn spec_light_level(world: Option<Seq<(BlockPos, BlockState)>>, pos: BlockPos) -> i32 {
    match world {
        None => 12,
        Some(w) => match world_get(w, BlockPos { x: pos.x, y: (pos.y + 1) as i32, z: pos.z }) {
            Some(b) => if b.kind == BlockKind::Air {
                15
            } else {
                10
            },
            None => 10,
        },
    }
}

/// The light at a crop (see [`spec_light_level`]).
pub fn get_light_level(world: Option<&BlockWorld>, pos: BlockPos) -> (l: i32)
    requires
        pos.y < i32::MAX,
    ensures
        l == spec_light_level(
            match world {
                Some(w) => Some(w.blocks@),
                None => None,
            },
            pos,
        ),
{
    match world {
        Some(w) => {
            let above_pos = BlockPos::new(pos.x, pos.y + 1, pos.z);
            match w.block(above_pos) {
                Some(above) => {
                    if above.to_kind() == BlockKind::Air {
                        return 15;
                    }
                },
                None => {},
            }
            10
        },
        None => 12,
    }
}

/// Whether water lies at `pos` shifted by `dx` and `dz`, at its height or
/// one above.
pub open spec fn water_at(w: Seq<(BlockPos, BlockState)>, pos: BlockPos, dx: int, dz: int) -> bool {
    ||| world_get(w, BlockPos { x: (pos.x + dx) as i32, y: pos.y, z: (pos.z + dz) as i32 }) matches Some(b) && b.kind == BlockKind::Water
    ||| world_get(w, BlockPos { x: (pos.x + dx) as i32, y: (pos.y + 1) as i32, z: (pos.z + dz) as i32 }) matches Some(b) && b.kind == BlockKind::Water
}

/// Whether water lies within four blocks horizontally of `pos`, at its
/// height or one above.
pub open spec fn spec_nearby_water(w: Seq<(BlockPos, BlockState)>, pos: BlockPos) -> bool {
    exists|dx: int, dz: int| -4 <= dx <= 4 && -4 <= dz <= 4 && #[trigger] water_at(w, pos, dx, dz)
}

fn is_water_at(w: &BlockWorld, p: BlockPos) -> (b: bool)
    ensures
        b == (world_get(w.blocks@, p) matches Some(s) && s.kind == BlockKind::Water),
{
    match w.block(p) {
        Some(s) => s.to_kind() == BlockKind::Water,
        None => false,
    }
}

/// The positions whose water search (four blocks each way horizontally,
/// and one up) stays within `i32`.
pub open spec fn water_search_in_bounds(pos: BlockPos) -> bool {
    &&& i32::MIN + 4 <= pos.x <= i32::MAX - 4
    &&& i32::MIN + 4 <= pos.z <= i32::MAX - 4
    &&& pos.y < i32::MAX
}

/// Whether a crop has water nearby (see [`spec_nearby_water`]); with no
/// world, it has.
pub fn check_nearby_water(world: Option<&BlockWorld>, pos: BlockPos) -> (b: bool)
    requires
        world is Some ==> water_search_in_bounds(pos),
    ensures
        b == match world {
            None => true,
            Some(w) => spec_nearby_water(w.blocks@, pos),
        },
{
    let w = match world {
        Some(w) => w,
        None => {
            return true;
        },
    };
    let mut dx: i32 = -4;
    while dx <= 4
        invariant
            -4 <= dx <= 5,
            water_search_in_bounds(pos),
            world == Some(w),
            forall|i: int, j: int| -4 <= i < dx && -4 <= j <= 4 ==> !#[trigger] water_at(w.blocks@, pos, i, j),
        decreases 5 - dx,
    {
        let mut dz: i32 = -4;
        while dz <= 4
            invariant
                -4 <= dx <= 4,
                -4 <= dz <= 5,
                water_search_in_bounds(pos),
                world == Some(w),
                forall|i: int, j: int| -4 <= i < dx && -4 <= j <= 4 ==> !#[trigger] water_at(w.blocks@, pos, i, j),
                forall|j: int| -4 <= j < dz ==> !#[trigger] water_at(w.blocks@, pos, dx as int, j),
            decreases 5 - dz,
        {
            let check_pos = BlockPos::new(pos.x + dx, pos.y, pos.z + dz);
            if is_water_at(w, check_pos) {
                assert(water_at(w.blocks@, pos, dx as int, dz as int));
                return true;
            }
            let above_pos = BlockPos::new(pos.x + dx, pos.y + 1, pos.z + dz);
            if is_water_at(w, above_pos) {
                assert(water_at(w.blocks@, pos, dx as int, dz as int));
                return true;
            }
            dz = dz + 1;
        }
        dx = dx + 1;
    }
    false
}

/// Shows the crop's current stage in the world at `pos`.
pub fn set_crop_block_state(crop: &Crop, pos: BlockPos, world: &mut BlockWorld)
    ensures
        final(world).blocks@ == store(old(world).blocks@, pos, spec_crop_block_state(*crop)),
{
    let new_state = crop.to_block_state();
    world.set_block(pos, new_state);
}

/// The item a harvested crop always gives.
pub open spec fn spec_harvest_item(c: CropType) -> ItemStack {
    match c {
        CropType::Wheat => ItemStack { item: ItemKind::Wheat, count: 1 },
        CropType::Carrot => ItemStack { item: ItemKind::Carrot, count: 1 },
        CropType::Potato => ItemStack { item: ItemKind::Potato, count: 1 },
        CropType::Beetroot => ItemStack { item: ItemKind::BeetrootSeeds, count: 1 },
        CropType::NetherWart => ItemStack { item: ItemKind::NetherWart, count: 1 },
    }
}

/// The item a harvested crop always gives.
pub fn get_harvest_item(crop_type: CropType) -> (s: ItemStack)
    ensures
        s == spec_harvest_item(crop_type),
{
    match crop_type {
        CropType::Wheat => ItemStack::new(ItemKind::Wheat, 1),
        CropType::Carrot => ItemStack::new(ItemKind::Carrot, 1),
        CropType::Potato => ItemStack::new(ItemKind::Potato, 1),
        CropType::Beetroot => ItemStack::new(ItemKind::BeetrootSeeds, 1),
        CropType::NetherWart => ItemStack::new(ItemKind::NetherWart, 1),
    }
}

/// The range the extra-drop roll of a crop is drawn from, `lo` inclusive,
/// `hi` exclusive.
pub open spec fn drop_roll_range(c: CropType) -> (i8, i8) {
    match c {
        CropType::Wheat => (0, 4),
        CropType::Carrot | CropType::Potato => (1, 5),
        CropType::Beetroot => (1, 4),
        CropType::NetherWart => (2, 5),
    }
}

/// The extra drops of a harvested crop for a given roll: wheat seeds as
/// many as rolled; one carrot, potato or nether wart fewer than rolled;
/// beetroot seeds as many as rolled; nothing when that count is zero.
pub open spec fn spec_drops_for_roll(c: CropType, roll: i8) -> Seq<ItemStack> {
    let (kind, n) = match c {
        CropType::Wheat => (ItemKind::WheatSeeds, roll as int),
        CropType::Carrot => (ItemKind::Carrot, roll - 1),
        CropType::Potato => (ItemKind::Potato, roll - 1),
        CropType::Beetroot => (ItemKind::BeetrootSeeds, roll as int),
        CropType::NetherWart => (ItemKind::NetherWart, roll - 1),
    };
    if n > 0 {
        seq![ItemStack { item: kind, count: n as i8 }]
    } else {
        Seq::empty()
    }
}

/// The extra drops of a harvested crop for a given roll (see
/// [`spec_drops_for_roll`]).
pub fn drops_for_roll(crop_type: CropType, roll: i8) -> (drops: Vec<ItemStack>)
    requires
        drop_roll_range(crop_type).0 <= roll < drop_roll_range(crop_type).1,
    ensures
        drops@ == spec_drops_for_roll(crop_type, roll),
{
    let mut drops: Vec<ItemStack> = Vec::new();
    match crop_type {
        CropType::Wheat => {
            if roll > 0 {
                drops.push(ItemStack::new(ItemKind::WheatSeeds, roll));
            }
        },
        CropType::Carrot => {
            if roll > 1 {
                drops.push(ItemStack::new(ItemKind::Carrot, roll - 1));
            }
        },
        CropType::Potato => {
            if roll > 1 {
                drops.push(ItemStack::new(ItemKind::Potato, roll - 1));
            }
        },
        CropType::Beetroot => {
            if roll > 0 {
                drops.push(ItemStack::new(ItemKind::BeetrootSeeds, roll));
            }
        },
        CropType::NetherWart => {
            if roll > 1 {
                drops.push(ItemStack::new(ItemKind::NetherWart, roll - 1));
            }
        },
    }
    proof {
        assert(drops@ =~= spec_drops_for_roll(crop_type, roll));
    }
    drops
}

/// The extra drops of a harvested crop, for a random roll in the crop's
/// range (see [`drop_roll_range`] and [`spec_drops_for_roll`]).
pub fn get_additional_drops(crop_type: CropType) -> (drops: Vec<ItemStack>)
    ensures
        exists|roll: i8| drop_roll_range(crop_type).0 <= roll < drop_roll_range(crop_type).1
            && drops@ == spec_drops_for_roll(crop_type, roll),
{
    let (lo, hi): (i8, i8) = match crop_type {
        CropType::Wheat => (0, 4),
        CropType::Carrot | CropType::Potato => (1, 5),
        CropType::Beetroot => (1, 4),
        CropType::NetherWart => (2, 5),
    };
    let r = random_below((hi - lo) as u64);
    let roll: i8 = lo + r as i8;
    drops_for_roll(crop_type, roll)
}

/// Whether a crop grows on a random tick that rolled `roll`: it is not
/// fully grown, rolled 0, and has light and water enough.
pub open spec fn grows_with_roll(c: Crop, w: Seq<(BlockPos, BlockState)>, roll: u32) -> bool {
    c.age < c.max_age && roll == 0 && spec_growth_conditions(
        c.crop_type,
        spec_light_level(Some(w), c.pos),
        spec_nearby_water(w, c.pos),
    )
}

/// A random tick of a crop that rolled `roll`: a crop that is not fully
/// grown, rolled 0, and has light and water enough grows one stage and
/// shows it in the world; whether it grew.
pub fn crop_growth_for_roll(crop: &mut Crop, world: &mut BlockWorld, roll: u32) -> (grew: bool)
    requires
        old(crop).age < old(crop).max_age && roll == 0 ==> water_search_in_bounds(old(crop).pos),
    ensures
        grew == grows_with_roll(*old(crop), old(world).blocks@, roll),
        grew ==> *final(crop) == (Crop { age: (old(crop).age + 1) as i32, ..*old(crop) })
            && final(world).blocks@ == store(old(world).blocks@, old(crop).pos, spec_crop_block_state(*final(crop))),
        !grew ==> *final(crop) == *old(crop) && final(world).blocks@ == old(world).blocks@,
{
    if crop.is_fully_grown() {
        return false;
    }
    if roll != 0 {
        return false;
    }
    let pos = crop.pos;
    let light_level = get_light_level(Some(&*world), pos);
    let has_water = check_nearby_water(Some(&*world), pos);
    if check_growth_conditions(crop.crop_type, light_level, has_water) {
        crop.grow();
        set_crop_block_state(crop, pos, world);
        return true;
    }
    false
}

/// A random tick of a crop: it rolls one in its growth chance and grows
/// as [`crop_growth_for_roll`] says for some roll below its chance.
pub fn crop_random_tick(crop: &mut Crop, world: &mut BlockWorld) -> (grew: bool)
    requires
        old(crop).age < old(crop).max_age ==> water_search_in_bounds(old(crop).pos),
        old(crop).growth_chance > 0,
    ensures
        exists|roll: u32| roll < old(crop).growth_chance && grew == #[trigger] grows_with_roll(*old(crop), old(world).blocks@, roll),
        grew ==> *final(crop) == (Crop { age: (old(crop).age + 1) as i32, ..*old(crop) })
            && final(world).blocks@ == store(old(world).blocks@, old(crop).pos, spec_crop_block_state(*final(crop))),
        !grew ==> *final(crop) == *old(crop) && final(world).blocks@ == old(world).blocks@,
{
    if crop.is_fully_grown() {
        assert(!grows_with_roll(*old(crop), old(world).blocks@, 0));
        return false;
    }
    let roll = random_below(crop.growth_chance as u64) as u32;
    crop_growth_for_roll(crop, world, roll)
}

/// Bone meal on a crop in the world: a crop that is not fully grown
/// advances up to two stages, one at a time, and shows its new stage.
pub fn bone_meal_growth(crop: &mut Crop, world: &mut BlockWorld)
    ensures
        ({
            let a = old(crop).age;
            let m = old(crop).max_age;
            let a2 = if a >= m { a as int } else if a + 2 <= m { a + 2 } else { m as int };
            &&& *final(crop) == (Crop { age: a2 as i32, ..*old(crop) })
            &&& final(world).blocks@ == if a2 != a {
                store(old(world).blocks@, old(crop).pos, spec_crop_block_state(*final(crop)))
            } else {
                old(world).blocks@
            }
        }),
{
    if crop.is_fully_grown() {
        return;
    }
    let old_age = crop.age;
    crop.grow();
    crop.grow();
    if crop.age != old_age {
        let pos = crop.pos;
        set_crop_block_state(crop, pos, world);
    }
}

} // verus!
