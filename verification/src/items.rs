//! Item kinds and item stacks.
use vstd::prelude::*;

verus! {

/// The item kinds the game rules here name; every other item is `Other`
/// with its numeric id.
#[derive(Clone, Copy, Debug, PartialEq, Eq, Hash, Structural)]
pub enum ItemKind {
    Air,
    Apple,
    Arrow,
    Beetroot,
    BeetrootSeeds,
    Bell,
    Book,
    Bow,
    Bread,
    Brick,
    Bucket,
    Cake,
    Carrot,
    Chest,
    ChiseledStoneBricks,
    Clay,
    Clock,
    Coal,
    Cobblestone,
    Comparator,
    CookedPorkchop,
    Cookie,
    CraftingTable,
    Crossbow,
    Diamond,
    DiamondAxe,
    DiamondBoots,
    DiamondChestplate,
    DiamondHelmet,
    DiamondLeggings,
    DiamondPickaxe,
    DiamondShovel,
    DiamondSword,
    Emerald,
    EnderEye,
    ExperienceBottle,
    Feather,
    Flint,
    Furnace,
    Glass,
    GlisteringMelonSlice,
    GlowstoneDust,
    GoldIngot,
    GoldNugget,
    GoldenCarrot,
    Gravel,
    InkSac,
    IronAxe,
    IronBoots,
    IronChestplate,
    IronHelmet,
    IronIngot,
    IronLeggings,
    IronPickaxe,
    IronShovel,
    IronSword,
    Lantern,
    LapisLazuli,
    Leather,
    LeatherBoots,
    LeatherChestplate,
    LeatherHelmet,
    LeatherLeggings,
    NameTag,
    NetherWart,
    OakBoat,
    OakDoor,
    OakPlanks,
    OakSlab,
    OakTrapdoor,
    Paper,
    PolishedAndesite,
    Potato,
    Quartz,
    QuartzBlock,
    RabbitStew,
    Redstone,
    RedstoneLamp,
    RedstoneTorch,
    Repeater,
    RottenFlesh,
    Saddle,
    Sand,
    Stick,
    Stone,
    StoneAxe,
    StoneBricks,
    StoneShovel,
    StoneSlab,
    String,
    Wheat,
    WheatSeeds,
    WhiteWool,
    Other(u16),
}

/// A stack of items: a kind and how many.
#[derive(Clone, Copy, Debug, PartialEq, Eq, Hash, Structural)]
pub struct ItemStack {
    pub item: ItemKind,
    pub count: i8,
}

/// A stack holds nothing when it is air or its count is not positive.
pub open spec fn stack_empty(s: ItemStack) -> bool {
    s.item == ItemKind::Air || s.count <= 0
}

impl ItemStack {
    /// The empty stack: no air.
    pub fn empty() -> (s: ItemStack)
        ensures
            s == (ItemStack { item: ItemKind::Air, count: 0 }),
    {
        ItemStack { item: ItemKind::Air, count: 0 }
    }

    /// A stack of `count` items of kind `item`.
    pub fn new(item: ItemKind, count: i8) -> (s: ItemStack)
        ensures
            s == (ItemStack { item, count }),
    {
        ItemStack { item, count }
    }

    /// Whether the stack holds nothing.
    pub fn is_empty(&self) -> (b: bool)
        ensures
            b == stack_empty(*self),
    {
        match self.item {
            ItemKind::Air => true,
            _ => self.count <= 0,
        }
    }
}

/// A row of item slots, such as a chest's or a hopper's.
pub struct Inventory {
    slots: Vec<ItemStack>,
}

impl View for Inventory {
    type V = Seq<ItemStack>;

    closed spec fn view(&self) -> Seq<ItemStack> {
        self.slots@
    }
}

impl Inventory {
    /// The inventory's invariant: its slots can be numbered by `u16`.
    #[verifier::type_invariant]
    spec fn wf(&self) -> bool {
        self.slots@.len() <= u16::MAX
    }

    /// An inventory of `count` empty slots.
    pub fn new(count: u16) -> (inv: Inventory)
        ensures
            inv@ == Seq::new(count as nat, |i: int| ItemStack { item: ItemKind::Air, count: 0 }),
    {
        let mut slots: Vec<ItemStack> = Vec::new();
        let mut i: u16 = 0;
        while i < count
            invariant
                i <= count,
                slots@ == Seq::new(i as nat, |j: int| ItemStack { item: ItemKind::Air, count: 0 }),
            decreases count - i,
        {
            slots.push(ItemStack::empty());
            i = i + 1;
            proof {
                assert(slots@ =~= Seq::new(i as nat, |j: int| ItemStack { item: ItemKind::Air, count: 0 }));
            }
        }
        Inventory { slots }
    }

    /// An inventory holding the given stacks.
    pub fn from_stacks(stacks: Vec<ItemStack>) -> (inv: Inventory)
        requires
            stacks@.len() <= u16::MAX,
        ensures
            inv@ == stacks@,
    {
        Inventory { slots: stacks }
    }

    /// How many slots the inventory has.
    pub fn slot_count(&self) -> (n: u16)
        ensures
            n == self@.len(),
    {
        proof {
            use_type_invariant(self);
        }
        self.slots.len() as u16
    }

    /// The stack in slot `idx`.
    pub fn slot(&self, idx: u16) -> (s: &ItemStack)
        requires
            idx < self@.len(),
        ensures
            *s == self@[idx as int],
    {
        &self.slots[idx as usize]
    }

    /// Puts `item` into slot `idx`, replacing what was there.
    pub fn set_slot(&mut self, idx: u16, item: ItemStack)
        requires
            idx < old(self)@.len(),
        ensures
            final(self)@ == old(self)@.update(idx as int, item),
    {
        proof {
            use_type_invariant(&*self);
        }
        let mut slots: Vec<ItemStack> = Vec::new();
        std::mem::swap(&mut slots, &mut self.slots);
        slots.set(idx as usize, item);
        self.slots = slots;
    }
}

} // verus!
