//! Villagers: professions, daily activities, trade offers and the trade
//! table, and levelling up through trading.
//!
//! Timers count game ticks (20 per second). Entities are named by their
//! numeric id.
use vstd::prelude::*;
use crate::items::{ItemKind, ItemStack};
use crate::world::BlockPos;

verus! {

/// Villager professions.
#[derive(Clone, Copy, PartialEq, Eq, Debug, Hash, Structural)]
pub enum VillagerProfession {
    Unemployed,
    Armorer,
    Butcher,
    Cartographer,
    Cleric,
    Farmer,
    Fisherman,
    Fletcher,
    Leatherworker,
    Librarian,
    Mason,
    Nitwit,
    Shepherd,
    Toolsmith,
    Weaponsmith,
}

impl Default for VillagerProfession {
    fn default() -> (p: VillagerProfession)
        ensures
            p == VillagerProfession::Nitwit,
    {
        VillagerProfession::Nitwit
    }
}

/// The name of the workstation block a profession works at; empty for
/// professions without one.
pub open spec fn spec_workstation(p: VillagerProfession) -> Seq<char> {
    match p {
        VillagerProfession::Unemployed | VillagerProfession::Nitwit => ""@,
        VillagerProfession::Armorer => "blasting_furnace"@,
        VillagerProfession::Butcher => "smoker"@,
        VillagerProfession::Cartographer => "cartography_table"@,
        VillagerProfession::Cleric => "brewing_stand"@,
        VillagerProfession::Farmer => "composter"@,
        VillagerProfession::Fisherman => "barrel"@,
        VillagerProfession::Fletcher => "fletching_table"@,
        VillagerProfession::Leatherworker => "cauldron"@,
        VillagerProfession::Librarian => "lectern"@,
        VillagerProfession::Mason => "stonecutter"@,
        VillagerProfession::Shepherd => "loom"@,
        VillagerProfession::Toolsmith => "smithing_table"@,
        VillagerProfession::Weaponsmith => "grindstone"@,
    }
}

/// Whether a profession trades: all but the unemployed and the nitwit.
pub open spec fn spec_can_trade(p: VillagerProfession) -> bool {
    !(p == VillagerProfession::Unemployed || p == VillagerProfession::Nitwit)
}

/// The highest level a villager of the profession reaches.
pub open spec fn spec_max_level(p: VillagerProfession) -> i32 {
    if spec_can_trade(p) {
        5
    } else {
        1
    }
}

/// The position of a profession in declaration order, 0 to 14.
pub open spec fn profession_index(p: VillagerProfession) -> int {
    match p {
        VillagerProfession::Unemployed => 0,
        VillagerProfession::Armorer => 1,
        VillagerProfession::Butcher => 2,
        VillagerProfession::Cartographer => 3,
        VillagerProfession::Cleric => 4,
        VillagerProfession::Farmer => 5,
        VillagerProfession::Fisherman => 6,
        VillagerProfession::Fletcher => 7,
        VillagerProfession::Leatherworker => 8,
        VillagerProfession::Librarian => 9,
        VillagerProfession::Mason => 10,
        VillagerProfession::Nitwit => 11,
        VillagerProfession::Shepherd => 12,
        VillagerProfession::Toolsmith => 13,
        VillagerProfession::Weaponsmith => 14,
    }
}

/// How many professions there are.
pub const PROFESSION_COUNT: usize = 15;

impl VillagerProfession {
    /// The name of the workstation block of this profession, empty where
    /// there is none.
    pub fn workstation(&self) -> (s: &'static str)
        ensures
            s@ == spec_workstation(*self),
    {
        match self {
            VillagerProfession::Unemployed | VillagerProfession::Nitwit => "",
            VillagerProfession::Armorer => "blasting_furnace",
            VillagerProfession::Butcher => "smoker",
            VillagerProfession::Cartographer => "cartography_table",
            VillagerProfession::Cleric => "brewing_stand",
            VillagerProfession::Farmer => "composter",
            VillagerProfession::Fisherman => "barrel",
            VillagerProfession::Fletcher => "fletching_table",
            VillagerProfession::Leatherworker => "cauldron",
            VillagerProfession::Librarian => "lectern",
            VillagerProfession::Mason => "stonecutter",
            VillagerProfession::Shepherd => "loom",
            VillagerProfession::Toolsmith => "smithing_table",
            VillagerProfession::Weaponsmith => "grindstone",
        }
    }

    /// The highest level: 1 for the unemployed and the nitwit, 5 for the others.
    pub fn max_level(&self) -> (l: i32)
        ensures
            l == spec_max_level(*self),
    {
        match self {
            VillagerProfession::Unemployed | VillagerProfession::Nitwit => 1,
            _ => 5,
        }
    }

    /// Whether villagers of this profession trade.
    pub fn can_trade(&self) -> (b: bool)
        ensures
            b == spec_can_trade(*self),
    {
        match self {
            VillagerProfession::Unemployed | VillagerProfession::Nitwit => false,
            _ => true,
        }
    }

    /// The position of the profession in declaration order.
    pub fn index(&self) -> (i: usize)
        ensures
            i == profession_index(*self),
    {
        match self {
            VillagerProfession::Unemployed => 0,
            VillagerProfession::Armorer => 1,
            VillagerProfession::Butcher => 2,
            VillagerProfession::Cartographer => 3,
            VillagerProfession::Cleric => 4,
            VillagerProfession::Farmer => 5,
            VillagerProfession::Fisherman => 6,
            VillagerProfession::Fletcher => 7,
            VillagerProfession::Leatherworker => 8,
            VillagerProfession::Librarian => 9,
            VillagerProfession::Mason => 10,
            VillagerProfession::Nitwit => 11,
            VillagerProfession::Shepherd => 12,
            VillagerProfession::Toolsmith => 13,
            VillagerProfession::Weaponsmith => 14,
        }
    }
}

/// What a villager is doing.
#[derive(Clone, Copy, PartialEq, Eq, Debug, Hash, Structural)]
pub enum VillagerActivity {
    Idle,
    Working,
    Resting,
    Gossiping,
    Trading,
    Fleeing,
    Gathering,
    Meeting,
    IdleDefault,
}

impl Default for VillagerActivity {
    fn default() -> (a: VillagerActivity)
        ensures
            a == VillagerActivity::IdleDefault,
    {
        VillagerActivity::IdleDefault
    }
}

/// How long an activity lasts, in seconds.
pub open spec fn spec_activity_secs(a: VillagerActivity) -> u64 {
    match a {
        VillagerActivity::Idle | VillagerActivity::IdleDefault => 300,
        VillagerActivity::Working => 1200,
        VillagerActivity::Resting => 600,
        VillagerActivity::Gossiping => 300,
        VillagerActivity::Trading => 600,
        VillagerActivity::Fleeing => 30,
        VillagerActivity::Gathering => 300,
        VillagerActivity::Meeting => 600,
    }
}

impl VillagerActivity {
    /// How long the activity lasts, in whole seconds.
    pub fn duration(&self) -> (secs: u64)
        ensures
            secs == spec_activity_secs(*self),
    {
        match self {
            VillagerActivity::Idle | VillagerActivity::IdleDefault => 300,
            VillagerActivity::Working => 1200,
            VillagerActivity::Resting => 600,
            VillagerActivity::Gossiping => 300,
            VillagerActivity::Trading => 600,
            VillagerActivity::Fleeing => 30,
            VillagerActivity::Gathering => 300,
            VillagerActivity::Meeting => 600,
        }
    }
}

/// The state of a villager's mind.
#[derive(Clone, Debug)]
pub struct VillagerAi {
    pub profession: VillagerProfession,
    pub level: u8,
    pub home_pos: Option<BlockPos>,
    pub work_pos: Option<BlockPos>,
    pub bed_pos: Option<BlockPos>,
    pub current_activity: VillagerActivity,
    /// Ticks spent in the current activity.
    pub activity_timer: u64,
    /// Ticks since the villager last gossiped.
    pub gossip_timer: u64,
    pub nearby_villagers: Vec<u64>,
    pub has_bed: bool,
    pub has_workstation: bool,
    /// Ticks the villager has been panicking, while it is.
    pub panic_timer: Option<u64>,
}

impl VillagerAi {
    /// A level-1 idle villager of the profession with no home, bed or
    /// workstation.
    pub fn new(profession: VillagerProfession) -> (ai: VillagerAi)
        ensures
            ai.profession == profession,
            ai.level == 1,
            ai.home_pos is None,
            ai.work_pos is None,
            ai.bed_pos is None,
            ai.current_activity == VillagerActivity::Idle,
            ai.activity_timer == 0,
            ai.gossip_timer == 0,
            ai.nearby_villagers@.len() == 0,
            !ai.has_bed,
            !ai.has_workstation,
            ai.panic_timer is None,
    {
        VillagerAi {
            profession,
            level: 1,
            home_pos: None,
            work_pos: None,
            bed_pos: None,
            current_activity: VillagerActivity::Idle,
            activity_timer: 0,
            gossip_timer: 0,
            nearby_villagers: Vec::new(),
            has_bed: false,
            has_workstation: false,
            panic_timer: None,
        }
    }

    /// The villager at another level.
    pub fn with_level(self, level: u8) -> (ai: VillagerAi)
        ensures
            ai == (VillagerAi { level, ..self }),
    {
        VillagerAi { level, ..self }
    }

    /// The villager with a home.
    pub fn with_home(self, pos: BlockPos) -> (ai: VillagerAi)
        ensures
            ai == (VillagerAi { home_pos: Some(pos), ..self }),
    {
        VillagerAi { home_pos: Some(pos), ..self }
    }

    /// The villager bound to a workstation.
    pub fn with_workstation(self, pos: BlockPos) -> (ai: VillagerAi)
        ensures
            ai == (VillagerAi { work_pos: Some(pos), has_workstation: true, ..self }),
    {
        VillagerAi { work_pos: Some(pos), has_workstation: true, ..self }
    }

    /// The villager bound to a bed.
    pub fn with_bed(self, pos: BlockPos) -> (ai: VillagerAi)
        ensures
            ai == (VillagerAi { bed_pos: Some(pos), has_bed: true, ..self }),
    {
        VillagerAi { bed_pos: Some(pos), has_bed: true, ..self }
    }

    /// Whether the villager has a bed.
    pub fn has_bed(&self) -> (b: bool)
        ensures
            b == self.has_bed,
    {
        self.has_bed
    }

    /// Whether the villager has a workstation.
    pub fn has_workstation(&self) -> (b: bool)
        ensures
            b == self.has_workstation,
    {
        self.has_workstation
    }

    /// Whether the villager's profession trades.
    pub fn can_trade(&self) -> (b: bool)
        ensures
            b == spec_can_trade(self.profession),
    {
        self.profession.can_trade()
    }

    /// The highest level of the villager's profession.
    pub fn max_level(&self) -> (l: i32)
        ensures
            l == spec_max_level(self.profession),
    {
        self.profession.max_level()
    }
}

/// A workstation block, and the villager bound to it, if any.
#[derive(Clone, Copy, Debug)]
pub struct VillagerWorkstation {
    pub profession: VillagerProfession,
    pub bound_villager: Option<u64>,
}

impl VillagerWorkstation {
    /// A free workstation of the profession.
    pub fn new(profession: VillagerProfession) -> (w: VillagerWorkstation)
        ensures
            w.profession == profession,
            w.bound_villager is None,
    {
        VillagerWorkstation { profession, bound_villager: None }
    }
}

/// A bed, and the villager bound to it, if any.
#[derive(Clone, Copy, Debug)]
pub struct VillagerBed {
    pub bound_villager: Option<u64>,
}

impl Default for VillagerBed {
    fn default() -> (b: VillagerBed)
        ensures
            b.bound_villager is None,
    {
        VillagerBed { bound_villager: None }
    }
}

/// A villager changed activity.
#[derive(Clone, Copy, Debug)]
pub struct VillagerActivityChanged {
    pub villager: u64,
    pub old_activity: VillagerActivity,
    pub new_activity: VillagerActivity,
}

/// A villager went up a level.
#[derive(Clone, Copy, Debug)]
pub struct VillagerLeveledUp {
    pub villager: u64,
    pub old_level: u8,
    pub new_level: u8,
}

/// A trade a villager offers: what it wants (one or two stacks) and what it
/// gives, with how often the trade can be used.
#[derive(Clone, Copy, Debug, PartialEq, Eq, Structural)]
pub struct TradeOffer {
    pub item1: ItemStack,
    pub item2: Option<ItemStack>,
    pub result: ItemStack,
    pub max_uses: u32,
    pub uses: u32,
    pub reward_exp: bool,
    /// The price multiplier, in hundredths.
    pub price_multiplier: u32,
    pub xp: i32,
    pub demand: i32,
    pub special: bool,
}

/// A fresh offer of `result` for `item1`: twelve uses, none used, rewarding
/// experience, price multiplier 0.2, one experience point, no demand.
pub open spec fn spec_offer(item1: ItemStack, result: ItemStack) -> TradeOffer {
    TradeOffer {
        item1,
        item2: None,
        result,
        max_uses: 12,
        uses: 0,
        reward_exp: true,
        price_multiplier: 20,
        xp: 1,
        demand: 0,
        special: false,
    }
}

impl TradeOffer {
    /// A fresh offer of `result` for `item1` (see [`spec_offer`]).
    pub fn new(item1: ItemStack, result: ItemStack) -> (o: TradeOffer)
        ensures
            o == spec_offer(item1, result),
    {
        TradeOffer {
            item1,
            item2: None,
            result,
            max_uses: 12,
            uses: 0,
            reward_exp: true,
            price_multiplier: 20,
            xp: 1,
            demand: 0,
            special: false,
        }
    }

    /// The offer also asking for `item`.
    pub fn with_item2(self, item: ItemStack) -> (o: TradeOffer)
        ensures
            o == (TradeOffer { item2: Some(item), ..self }),
    {
        TradeOffer { item2: Some(item), ..self }
    }

    /// The offer with another use limit.
    pub fn with_max_uses(self, max: u32) -> (o: TradeOffer)
        ensures
            o == (TradeOffer { max_uses: max, ..self }),
    {
        TradeOffer { max_uses: max, ..self }
    }

    /// The offer with another experience reward.
    pub fn with_xp(self, xp: i32) -> (o: TradeOffer)
        ensures
            o == (TradeOffer { xp, ..self }),
    {
        TradeOffer { xp, ..self }
    }

    /// Whether the offer has uses left.
    pub fn is_available(&self) -> (b: bool)
        ensures
            b == (self.uses < self.max_uses),
    {
        self.uses < self.max_uses
    }

    /// Counts one use of the offer.
    pub fn use_offer(&mut self)
        requires
            old(self).uses < u32::MAX,
        ensures
            *final(self) == (TradeOffer { uses: (old(self).uses + 1) as u32, ..*old(self) }),
    {
        self.uses = self.uses + 1;
    }
}

/// The offers of each level of a profession after registering `offers` for
/// `level`: the levels are padded with empty ones up to `level`, and that
/// level's offers are replaced.
pub open spec fn spec_register_level(
    levels: Seq<Seq<TradeOffer>>,
    level: int,
    offers: Seq<TradeOffer>,
) -> Seq<Seq<TradeOffer>> {
    let idx = level - 1;
    let padded = if idx < levels.len() {
        levels
    } else {
        levels + Seq::new((idx + 1 - levels.len()) as nat, |i: int| Seq::<TradeOffer>::empty())
    };
    padded.update(idx, offers)
}

/// The trade table after registering `offers` for `level` of profession `p`.
pub open spec fn spec_register_trades(
    t: Seq<Seq<Seq<TradeOffer>>>,
    p: VillagerProfession,
    level: int,
    offers: Seq<TradeOffer>,
) -> Seq<Seq<Seq<TradeOffer>>> {
    t.update(profession_index(p), spec_register_level(t[profession_index(p)], level, offers))
}

/// The offers of every level of every profession.
pub struct TradeTable {
    trades: Vec<Vec<Vec<TradeOffer>>>,
}

/// The offers of each level of a profession, as sequences.
pub open spec fn levels_view(ls: Seq<Vec<TradeOffer>>) -> Seq<Seq<TradeOffer>> {
    ls.map_values(|l: Vec<TradeOffer>| l@)
}

impl View for TradeTable {
    type V = Seq<Seq<Seq<TradeOffer>>>;

    /// Indexed by profession (see [`profession_index`]), then by level
    /// less one.
    closed spec fn view(&self) -> Seq<Seq<Seq<TradeOffer>>> {
        self.trades@.map_values(|ls: Vec<Vec<TradeOffer>>| levels_view(ls@))
    }
}

impl TradeTable {
    /// The table's invariant: it has an entry for each profession.
    #[verifier::type_invariant]
    closed spec fn wf(&self) -> bool {
        self.trades@.len() == PROFESSION_COUNT
    }

    /// A table with no offers.
    pub fn new() -> (t: TradeTable)
        ensures
            t@ == Seq::new(PROFESSION_COUNT as nat, |i: int| Seq::<Seq<TradeOffer>>::empty()),
    {
        let mut trades: Vec<Vec<Vec<TradeOffer>>> = Vec::new();
        let mut i: usize = 0;
        while i < PROFESSION_COUNT
            invariant
                i <= PROFESSION_COUNT,
                trades@.len() == i,
                forall|j: int| 0 <= j < i ==> (#[trigger] trades@[j])@.len() == 0,
            decreases PROFESSION_COUNT - i,
        {
            trades.push(Vec::new());
            i = i + 1;
        }
        let t = TradeTable { trades };
        proof {
            assert(t@ =~~= Seq::new(PROFESSION_COUNT as nat, |i: int| Seq::<Seq<TradeOffer>>::empty()));
        }
        t
    }

    /// The table has an entry for each profession.
    pub fn profession_count(&self) -> (n: usize)
        ensures
            n == self@.len(),
            n == PROFESSION_COUNT,
    {
        proof {
            use_type_invariant(self);
        }
        self.trades.len()
    }

    /// The offers of `level` of `profession`, if that level was ever
    /// registered or padded.
    pub fn get_trades(&self, profession: &VillagerProfession, level: i32) -> (r: Option<&Vec<TradeOffer>>)
        ensures
            r is Some <==> 1 <= level && level - 1 < self@[profession_index(*profession)].len(),
            r matches Some(v) ==> v@ == self@[profession_index(*profession)][level - 1],
    {
        proof {
            use_type_invariant(self);
        }
        let levels = &self.trades[profession.index()];
        if level < 1 {
            return None;
        }
        let idx = (level - 1) as usize;
        if idx < levels.len() {
            Some(&levels[idx])
        } else {
            None
        }
    }

    /// Sets the offers of `level` of `profession`, adding empty levels
    /// below it where there are none.
    pub fn register_trades(&mut self, profession: VillagerProfession, level: i32, offers: Vec<TradeOffer>)
        requires
            level >= 1,
        ensures
            final(self)@ == spec_register_trades(old(self)@, profession, level as int, offers@),
    {
        proof {
            use_type_invariant(&*self);
        }
        let pi = profession.index();
        let mut table = TradeTable::new();
        std::mem::swap(self, &mut table);
        let TradeTable { trades: mut trades } = table;
        let ghost t0 = trades@;
        let mut levels = trades.remove(pi);
        let ghost l0 = levels@;
        let idx = (level - 1) as usize;
        while levels.len() <= idx
            invariant
                l0.len() <= levels@.len(),
                levels@.len() > l0.len() ==> levels@.len() <= idx + 1,
                forall|j: int| 0 <= j < l0.len() ==> #[trigger] levels@[j] == l0[j],
                forall|j: int| l0.len() <= j < levels@.len() ==> (#[trigger] levels@[j])@.len() == 0,
            decreases idx + 1 - levels@.len(),
        {
            levels.push(Vec::new());
        }
        let ghost l1 = levels@;
        levels.set(idx, offers);
        trades.insert(pi, levels);
        *self = TradeTable { trades };
        proof {
            let o = old(self)@;
            assert(o[pi as int] == levels_view(l0));
            let lv = spec_register_level(o[pi as int], level as int, offers@);
            assert(lv.len() == levels@.len());
            assert forall|j: int| 0 <= j < lv.len() implies #[trigger] levels_view(levels@)[j] =~= lv[j] by {
                if j == idx {
                } else if j < l0.len() {
                    assert(levels@[j] == l0[j]);
                } else {
                    assert(levels@[j] == l1[j]);
                }
            }
            assert(levels_view(levels@) =~= lv);
            assert(self@ =~= spec_register_trades(o, profession, level as int, offers@));
        }
    }
}

/// A fresh offer of `result` for `item1` that can be used `max_uses` times.
pub open spec fn limited_offer(item1: ItemStack, result: ItemStack, max_uses: u32) -> TradeOffer {
    TradeOffer { max_uses, ..spec_offer(item1, result) }
}

/// The table after registering each `(profession, level, offers)` of
/// `regs` in order.
pub open spec fn spec_register_all(
    t: Seq<Seq<Seq<TradeOffer>>>,
    regs: Seq<(VillagerProfession, int, Seq<TradeOffer>)>,
) -> Seq<Seq<Seq<TradeOffer>>>
    decreases regs.len(),
{
    if regs.len() == 0 {
        t
    } else {
        let r = regs.last();
        spec_register_trades(spec_register_all(t, regs.drop_last()), r.0, r.1, r.2)
    }
}

/// Registering the first `k + 1` entries is registering the first `k`,
/// then entry `k`.
proof fn lemma_register_all_step(
    t: Seq<Seq<Seq<TradeOffer>>>,
    regs: Seq<(VillagerProfession, int, Seq<TradeOffer>)>,
    k: int,
)
    requires
        0 <= k < regs.len(),
    ensures
        spec_register_all(t, regs.take(k + 1)) == spec_register_trades(
            spec_register_all(t, regs.take(k)),
            regs[k].0,
            regs[k].1,
            regs[k].2,
        ),
{
    assert(regs.take(k + 1).drop_last() =~= regs.take(k));
}

/// Entry `k` of the built-in trades (see [`default_trade_registrations`]).
pub open spec fn default_registration(k: int) -> (VillagerProfession, int, Seq<TradeOffer>) {
    if k == 0 {
        (VillagerProfession::Farmer, 1, seq![
                limited_offer(ItemStack { item: ItemKind::Wheat, count: 20 }, ItemStack { item: ItemKind::Emerald, count: 1 }, 16),
                limited_offer(ItemStack { item: ItemKind::Emerald, count: 1 }, ItemStack { item: ItemKind::Bread, count: 1 }, 12),
                limited_offer(ItemStack { item: ItemKind::Carrot, count: 15 }, ItemStack { item: ItemKind::Emerald, count: 1 }, 16),
                limited_offer(ItemStack { item: ItemKind::Emerald, count: 1 }, ItemStack { item: ItemKind::Carrot, count: 15 }, 12),
            ])
    } else if k == 1 {
        (VillagerProfession::Farmer, 2, seq![
                limited_offer(ItemStack { item: ItemKind::Potato, count: 15 }, ItemStack { item: ItemKind::Emerald, count: 1 }, 16),
                limited_offer(ItemStack { item: ItemKind::Emerald, count: 1 }, ItemStack { item: ItemKind::Apple, count: 4 }, 4),
                limited_offer(ItemStack { item: ItemKind::Beetroot, count: 15 }, ItemStack { item: ItemKind::Emerald, count: 1 }, 16),
            ])
    } else if k == 2 {
        (VillagerProfession::Farmer, 3, seq![
                limited_offer(ItemStack { item: ItemKind::Emerald, count: 1 }, ItemStack { item: ItemKind::Cookie, count: 3 }, 12),
                limited_offer(ItemStack { item: ItemKind::Emerald, count: 1 }, ItemStack { item: ItemKind::Cake, count: 1 }, 4),
            ])
    } else if k == 3 {
        (VillagerProfession::Farmer, 4, seq![
                limited_offer(ItemStack { item: ItemKind::Emerald, count: 1 }, ItemStack { item: ItemKind::GoldenCarrot, count: 3 }, 3),
                limited_offer(ItemStack { item: ItemKind::Emerald, count: 1 }, ItemStack { item: ItemKind::GlisteringMelonSlice, count: 3 }, 3),
            ])
    } else if k == 4 {
        (VillagerProfession::Farmer, 5, seq![
                limited_offer(ItemStack { item: ItemKind::Emerald, count: 1 }, ItemStack { item: ItemKind::ExperienceBottle, count: 1 }, 1),
            ])
    } else if k == 5 {
        (VillagerProfession::Cleric, 1, seq![
                limited_offer(ItemStack { item: ItemKind::Coal, count: 15 }, ItemStack { item: ItemKind::Emerald, count: 1 }, 16),
                limited_offer(ItemStack { item: ItemKind::Emerald, count: 1 }, ItemStack { item: ItemKind::IronHelmet, count: 1 }, 4),
            ])
    } else if k == 6 {
        (VillagerProfession::Armorer, 2, seq![
                limited_offer(ItemStack { item: ItemKind::IronIngot, count: 4 }, ItemStack { item: ItemKind::Emerald, count: 1 }, 4),
                limited_offer(ItemStack { item: ItemKind::Emerald, count: 1 }, ItemStack { item: ItemKind::IronChestplate, count: 1 }, 4),
            ])
    } else if k == 7 {
        (VillagerProfession::Armorer, 3, seq![
                limited_offer(ItemStack { item: ItemKind::Emerald, count: 1 }, ItemStack { item: ItemKind::IronLeggings, count: 1 }, 4),
                limited_offer(ItemStack { item: ItemKind::Emerald, count: 1 }, ItemStack { item: ItemKind::IronBoots, count: 1 }, 4),
            ])
    } else if k == 8 {
        (VillagerProfession::Armorer, 4, seq![
                limited_offer(ItemStack { item: ItemKind::Diamond, count: 1 }, ItemStack { item: ItemKind::Emerald, count: 1 }, 1),
                limited_offer(ItemStack { item: ItemKind::Emerald, count: 1 }, ItemStack { item: ItemKind::DiamondChestplate, count: 1 }, 1),
            ])
    } else if k == 9 {
        (VillagerProfession::Armorer, 5, seq![
                limited_offer(ItemStack { item: ItemKind::Emerald, count: 1 }, ItemStack { item: ItemKind::DiamondHelmet, count: 1 }, 1),
                limited_offer(ItemStack { item: ItemKind::Emerald, count: 1 }, ItemStack { item: ItemKind::DiamondLeggings, count: 1 }, 1),
                limited_offer(ItemStack { item: ItemKind::Emerald, count: 1 }, ItemStack { item: ItemKind::DiamondBoots, count: 1 }, 1),
            ])
    } else if k == 10 {
        (VillagerProfession::Weaponsmith, 1, seq![
                limited_offer(ItemStack { item: ItemKind::Coal, count: 15 }, ItemStack { item: ItemKind::Emerald, count: 1 }, 16),
                limited_offer(ItemStack { item: ItemKind::Emerald, count: 1 }, ItemStack { item: ItemKind::IronAxe, count: 1 }, 4),
            ])
    } else if k == 11 {
        (VillagerProfession::Weaponsmith, 2, seq![
                limited_offer(ItemStack { item: ItemKind::IronIngot, count: 4 }, ItemStack { item: ItemKind::Emerald, count: 1 }, 4),
                limited_offer(ItemStack { item: ItemKind::Emerald, count: 1 }, ItemStack { item: ItemKind::IronSword, count: 1 }, 4),
            ])
    } else if k == 12 {
        (VillagerProfession::Weaponsmith, 3, seq![
                limited_offer(ItemStack { item: ItemKind::Emerald, count: 1 }, ItemStack { item: ItemKind::Bell, count: 1 }, 1),
            ])
    } else if k == 13 {
        (VillagerProfession::Weaponsmith, 5, seq![
                limited_offer(ItemStack { item: ItemKind::Diamond, count: 1 }, ItemStack { item: ItemKind::Emerald, count: 1 }, 1),
                limited_offer(ItemStack { item: ItemKind::Emerald, count: 1 }, ItemStack { item: ItemKind::DiamondAxe, count: 1 }, 1),
            ])
    } else if k == 14 {
        (VillagerProfession::Weaponsmith, 5, seq![
                limited_offer(ItemStack { item: ItemKind::Emerald, count: 1 }, ItemStack { item: ItemKind::Bell, count: 1 }, 1),
            ])
    } else if k == 15 {
        (VillagerProfession::Toolsmith, 1, seq![
                limited_offer(ItemStack { item: ItemKind::Coal, count: 15 }, ItemStack { item: ItemKind::Emerald, count: 1 }, 16),
                limited_offer(ItemStack { item: ItemKind::Emerald, count: 1 }, ItemStack { item: ItemKind::IronShovel, count: 1 }, 4),
            ])
    } else if k == 16 {
        (VillagerProfession::Toolsmith, 2, seq![
                limited_offer(ItemStack { item: ItemKind::IronIngot, count: 4 }, ItemStack { item: ItemKind::Emerald, count: 1 }, 4),
                limited_offer(ItemStack { item: ItemKind::Emerald, count: 1 }, ItemStack { item: ItemKind::IronPickaxe, count: 1 }, 4),
            ])
    } else if k == 17 {
        (VillagerProfession::Toolsmith, 3, seq![
                limited_offer(ItemStack { item: ItemKind::Emerald, count: 1 }, ItemStack { item: ItemKind::Bell, count: 1 }, 1),
            ])
    } else if k == 18 {
        (VillagerProfession::Toolsmith, 4, seq![
                limited_offer(ItemStack { item: ItemKind::Diamond, count: 1 }, ItemStack { item: ItemKind::Emerald, count: 1 }, 1),
                limited_offer(ItemStack { item: ItemKind::Emerald, count: 1 }, ItemStack { item: ItemKind::DiamondPickaxe, count: 1 }, 1),
            ])
    } else if k == 19 {
        (VillagerProfession::Butcher, 1, seq![
                limited_offer(ItemStack { item: ItemKind::RottenFlesh, count: 32 }, ItemStack { item: ItemKind::Emerald, count: 1 }, 16),
                limited_offer(ItemStack { item: ItemKind::Emerald, count: 1 }, ItemStack { item: ItemKind::RabbitStew, count: 1 }, 4),
            ])
    } else if k == 20 {
        (VillagerProfession::Butcher, 2, seq![
                limited_offer(ItemStack { item: ItemKind::Coal, count: 15 }, ItemStack { item: ItemKind::Emerald, count: 1 }, 16),
                limited_offer(ItemStack { item: ItemKind::Emerald, count: 1 }, ItemStack { item: ItemKind::CookedPorkchop, count: 5 }, 8),
            ])
    } else if k == 21 {
        (VillagerProfession::Leatherworker, 1, seq![
                limited_offer(ItemStack { item: ItemKind::Leather, count: 9 }, ItemStack { item: ItemKind::Emerald, count: 1 }, 8),
                limited_offer(ItemStack { item: ItemKind::Emerald, count: 1 }, ItemStack { item: ItemKind::LeatherHelmet, count: 1 }, 4),
            ])
    } else if k == 22 {
        (VillagerProfession::Leatherworker, 2, seq![
                limited_offer(ItemStack { item: ItemKind::Emerald, count: 1 }, ItemStack { item: ItemKind::LeatherChestplate, count: 1 }, 4),
            ])
    } else if k == 23 {
        (VillagerProfession::Leatherworker, 3, seq![
                limited_offer(ItemStack { item: ItemKind::Emerald, count: 1 }, ItemStack { item: ItemKind::LeatherLeggings, count: 1 }, 4),
                limited_offer(ItemStack { item: ItemKind::Emerald, count: 1 }, ItemStack { item: ItemKind::Saddle, count: 6 }, 4),
            ])
    } else if k == 24 {
        (VillagerProfession::Leatherworker, 4, seq![
                limited_offer(ItemStack { item: ItemKind::Emerald, count: 1 }, ItemStack { item: ItemKind::LeatherBoots, count: 1 }, 4),
            ])
    } else if k == 25 {
        (VillagerProfession::Librarian, 1, seq![
                limited_offer(ItemStack { item: ItemKind::Paper, count: 24 }, ItemStack { item: ItemKind::Emerald, count: 1 }, 16),
                limited_offer(ItemStack { item: ItemKind::Emerald, count: 1 }, ItemStack { item: ItemKind::Book, count: 12 }, 12),
            ])
    } else if k == 26 {
        (VillagerProfession::Librarian, 2, seq![
                limited_offer(ItemStack { item: ItemKind::Book, count: 12 }, ItemStack { item: ItemKind::Emerald, count: 1 }, 8),
                limited_offer(ItemStack { item: ItemKind::Emerald, count: 1 }, ItemStack { item: ItemKind::Lantern, count: 1 }, 4),
            ])
    } else if k == 27 {
        (VillagerProfession::Librarian, 3, seq![
                limited_offer(ItemStack { item: ItemKind::InkSac, count: 5 }, ItemStack { item: ItemKind::Emerald, count: 1 }, 8),
                limited_offer(ItemStack { item: ItemKind::Emerald, count: 1 }, ItemStack { item: ItemKind::Glass, count: 4 }, 8),
            ])
    } else if k == 28 {
        (VillagerProfession::Librarian, 4, seq![
                limited_offer(ItemStack { item: ItemKind::Emerald, count: 1 }, ItemStack { item: ItemKind::Clock, count: 5 }, 4),
                limited_offer(ItemStack { item: ItemKind::Emerald, count: 1 }, ItemStack { item: ItemKind::ExperienceBottle, count: 1 }, 1),
            ])
    } else if k == 29 {
        (VillagerProfession::Librarian, 5, seq![
                limited_offer(ItemStack { item: ItemKind::Emerald, count: 1 }, ItemStack { item: ItemKind::NameTag, count: 1 }, 1),
            ])
    } else if k == 30 {
        (VillagerProfession::Cleric, 1, seq![
                limited_offer(ItemStack { item: ItemKind::RottenFlesh, count: 32 }, ItemStack { item: ItemKind::Emerald, count: 1 }, 16),
                limited_offer(ItemStack { item: ItemKind::Emerald, count: 1 }, ItemStack { item: ItemKind::Redstone, count: 2 }, 4),
            ])
    } else if k == 31 {
        (VillagerProfession::Cleric, 2, seq![
                limited_offer(ItemStack { item: ItemKind::GoldIngot, count: 3 }, ItemStack { item: ItemKind::Emerald, count: 1 }, 4),
                limited_offer(ItemStack { item: ItemKind::Emerald, count: 1 }, ItemStack { item: ItemKind::LapisLazuli, count: 1 }, 4),
            ])
    } else if k == 32 {
        (VillagerProfession::Cleric, 3, seq![
                limited_offer(ItemStack { item: ItemKind::Emerald, count: 1 }, ItemStack { item: ItemKind::EnderEye, count: 1 }, 4),
            ])
    } else if k == 33 {
        (VillagerProfession::Cleric, 4, seq![
                limited_offer(ItemStack { item: ItemKind::Emerald, count: 1 }, ItemStack { item: ItemKind::GlowstoneDust, count: 1 }, 4),
            ])
    } else if k == 34 {
        (VillagerProfession::Cleric, 5, seq![
                limited_offer(ItemStack { item: ItemKind::Emerald, count: 1 }, ItemStack { item: ItemKind::ExperienceBottle, count: 1 }, 1),
            ])
    } else if k == 35 {
        (VillagerProfession::Mason, 1, seq![
                limited_offer(ItemStack { item: ItemKind::Clay, count: 10 }, ItemStack { item: ItemKind::Emerald, count: 1 }, 16),
                limited_offer(ItemStack { item: ItemKind::Emerald, count: 1 }, ItemStack { item: ItemKind::Brick, count: 10 }, 4),
            ])
    } else if k == 36 {
        (VillagerProfession::Mason, 2, seq![
                limited_offer(ItemStack { item: ItemKind::Gravel, count: 10 }, ItemStack { item: ItemKind::Emerald, count: 1 }, 16),
                limited_offer(ItemStack { item: ItemKind::Emerald, count: 1 }, ItemStack { item: ItemKind::StoneBricks, count: 4 }, 4),
            ])
    } else if k == 37 {
        (VillagerProfession::Mason, 3, seq![
                limited_offer(ItemStack { item: ItemKind::Sand, count: 8 }, ItemStack { item: ItemKind::Emerald, count: 1 }, 8),
                limited_offer(ItemStack { item: ItemKind::Emerald, count: 1 }, ItemStack { item: ItemKind::PolishedAndesite, count: 4 }, 4),
            ])
    } else if k == 38 {
        (VillagerProfession::Mason, 4, seq![
                limited_offer(ItemStack { item: ItemKind::Emerald, count: 1 }, ItemStack { item: ItemKind::ChiseledStoneBricks, count: 1 }, 4),
            ])
    } else if k == 39 {
        (VillagerProfession::Mason, 5, seq![
                limited_offer(ItemStack { item: ItemKind::Quartz, count: 5 }, ItemStack { item: ItemKind::Emerald, count: 1 }, 8),
                limited_offer(ItemStack { item: ItemKind::Emerald, count: 1 }, ItemStack { item: ItemKind::QuartzBlock, count: 1 }, 4),
            ])
    } else if k == 40 {
        (VillagerProfession::Fisherman, 1, seq![
                limited_offer(ItemStack { item: ItemKind::String, count: 2 }, ItemStack { item: ItemKind::Emerald, count: 1 }, 16),
            ])
    } else if k == 41 {
        (VillagerProfession::Fisherman, 2, seq![
                limited_offer(ItemStack { item: ItemKind::Emerald, count: 1 }, ItemStack { item: ItemKind::Bucket, count: 1 }, 1),
            ])
    } else if k == 42 {
        (VillagerProfession::Fletcher, 1, seq![
                limited_offer(ItemStack { item: ItemKind::Flint, count: 10 }, ItemStack { item: ItemKind::Emerald, count: 1 }, 16),
                limited_offer(ItemStack { item: ItemKind::Emerald, count: 1 }, ItemStack { item: ItemKind::Arrow, count: 16 }, 16),
            ])
    } else if k == 43 {
        (VillagerProfession::Fletcher, 2, seq![
                limited_offer(ItemStack { item: ItemKind::Feather, count: 24 }, ItemStack { item: ItemKind::Emerald, count: 1 }, 16),
                limited_offer(ItemStack { item: ItemKind::Emerald, count: 1 }, ItemStack { item: ItemKind::Bow, count: 1 }, 4),
            ])
    } else if k == 44 {
        (VillagerProfession::Fletcher, 3, seq![
                limited_offer(ItemStack { item: ItemKind::Emerald, count: 1 }, ItemStack { item: ItemKind::Crossbow, count: 1 }, 4),
            ])
    } else {
        (VillagerProfession::Shepherd, 1, seq![
                limited_offer(ItemStack { item: ItemKind::WhiteWool, count: 1 }, ItemStack { item: ItemKind::Emerald, count: 1 }, 16),
                limited_offer(ItemStack { item: ItemKind::Emerald, count: 1 }, ItemStack { item: ItemKind::WhiteWool, count: 1 }, 16),
            ])
    }
}

/// The built-in trades, in the order they are registered; a later entry
/// for the same profession and level replaces an earlier one.
pub open spec fn default_trade_registrations() -> Seq<(VillagerProfession, int, Seq<TradeOffer>)> {
    Seq::new(46, |k: int| default_registration(k))
}

fn rabbit_stew() -> (s: ItemStack)
    ensures
        s == (ItemStack { item: ItemKind::RabbitStew, count: 1 }),
{
    ItemStack::new(ItemKind::RabbitStew, 1)
}

fn cooked_porkchop() -> (s: ItemStack)
    ensures
        s == (ItemStack { item: ItemKind::CookedPorkchop, count: 5 }),
{
    ItemStack::new(ItemKind::CookedPorkchop, 5)
}

fn gold_ingot() -> (s: ItemStack)
    ensures
        s == (ItemStack { item: ItemKind::GoldIngot, count: 3 }),
{
    ItemStack::new(ItemKind::GoldIngot, 3)
}

fn wool(kind: ItemKind) -> (s: ItemStack)
    ensures
        s == (ItemStack { item: kind, count: 1 }),
{
    ItemStack::new(kind, 1)
}

/// Registers the built-in trades of every profession (see
/// [`default_trade_registrations`]).
#[verifier::rlimit(100)]
pub fn register_default_trades(trade_table: &mut TradeTable)
    ensures
        final(trade_table)@ == spec_register_all(old(trade_table)@, default_trade_registrations()),
{
    proof {
        assert(default_trade_registrations().take(0) =~= Seq::<(VillagerProfession, int, Seq<TradeOffer>)>::empty());
    }
    let wheat = ItemStack::new(ItemKind::Wheat, 20);
    let bread = ItemStack::new(ItemKind::Bread, 1);
    let emerald = ItemStack::new(ItemKind::Emerald, 1);
    let carrot = ItemStack::new(ItemKind::Carrot, 15);
    let potato = ItemStack::new(ItemKind::Potato, 15);
    let beetroot = ItemStack::new(ItemKind::Beetroot, 15);
    let cake = ItemStack::new(ItemKind::Cake, 1);
    let cookie = ItemStack::new(ItemKind::Cookie, 3);
    let apple = ItemStack::new(ItemKind::Apple, 4);
    let golden_carrot = ItemStack::new(ItemKind::GoldenCarrot, 3);
    let glistering_melon = ItemStack::new(ItemKind::GlisteringMelonSlice, 3);
    let arrow = ItemStack::new(ItemKind::Arrow, 16);
    let bow = ItemStack::new(ItemKind::Bow, 1);
    let crossbow = ItemStack::new(ItemKind::Crossbow, 1);
    let flint = ItemStack::new(ItemKind::Flint, 10);
    let string = ItemStack::new(ItemKind::String, 2);
    let feather = ItemStack::new(ItemKind::Feather, 24);
    let iron_ingot = ItemStack::new(ItemKind::IronIngot, 4);
    let iron_boots = ItemStack::new(ItemKind::IronBoots, 1);
    let iron_leggings = ItemStack::new(ItemKind::IronLeggings, 1);
    let iron_chestplate = ItemStack::new(ItemKind::IronChestplate, 1);
    let iron_helmet = ItemStack::new(ItemKind::IronHelmet, 1);
    let iron_sword = ItemStack::new(ItemKind::IronSword, 1);
    let iron_axe = ItemStack::new(ItemKind::IronAxe, 1);
    let iron_pickaxe = ItemStack::new(ItemKind::IronPickaxe, 1);
    let iron_shovel = ItemStack::new(ItemKind::IronShovel, 1);
    let diamond = ItemStack::new(ItemKind::Diamond, 1);
    let diamond_boots = ItemStack::new(ItemKind::DiamondBoots, 1);
    let diamond_leggings = ItemStack::new(ItemKind::DiamondLeggings, 1);
    let diamond_chestplate = ItemStack::new(ItemKind::DiamondChestplate, 1);
    let diamond_helmet = ItemStack::new(ItemKind::DiamondHelmet, 1);
    let _diamond_sword = ItemStack::new(ItemKind::DiamondSword, 1);
    let diamond_axe = ItemStack::new(ItemKind::DiamondAxe, 1);
    let diamond_pickaxe = ItemStack::new(ItemKind::DiamondPickaxe, 1);
    let coal = ItemStack::new(ItemKind::Coal, 15);
    let bucket = ItemStack::new(ItemKind::Bucket, 1);
    let bell = ItemStack::new(ItemKind::Bell, 1);
    let book = ItemStack::new(ItemKind::Book, 12);
    let ink_sac = ItemStack::new(ItemKind::InkSac, 5);
    let lantern = ItemStack::new(ItemKind::Lantern, 1);
    let name_tag = ItemStack::new(ItemKind::NameTag, 1);
    let redstone = ItemStack::new(ItemKind::Redstone, 2);
    let lapis_lazuli = ItemStack::new(ItemKind::LapisLazuli, 1);
    let glowstone = ItemStack::new(ItemKind::GlowstoneDust, 1);
    let rotten_flesh = ItemStack::new(ItemKind::RottenFlesh, 32);
    let leather = ItemStack::new(ItemKind::Leather, 9);
    let saddle = ItemStack::new(ItemKind::Saddle, 6);
    let leather_helmet = ItemStack::new(ItemKind::LeatherHelmet, 1);
    let leather_chestplate = ItemStack::new(ItemKind::LeatherChestplate, 1);
    let leather_leggings = ItemStack::new(ItemKind::LeatherLeggings, 1);
    let leather_boots = ItemStack::new(ItemKind::LeatherBoots, 1);
    let paper = ItemStack::new(ItemKind::Paper, 24);
    let clock = ItemStack::new(ItemKind::Clock, 5);
    let glass = ItemStack::new(ItemKind::Glass, 4);
    let experience_bottle = ItemStack::new(ItemKind::ExperienceBottle, 1);
    let eye_of_ender = ItemStack::new(ItemKind::EnderEye, 1);
    let brick = ItemStack::new(ItemKind::Brick, 10);
    let stone_bricks = ItemStack::new(ItemKind::StoneBricks, 4);
    let chiseled_stone_bricks = ItemStack::new(ItemKind::ChiseledStoneBricks, 1);
    let polished_andesite = ItemStack::new(ItemKind::PolishedAndesite, 4);
    let quartz = ItemStack::new(ItemKind::Quartz, 5);
    let quartz_block = ItemStack::new(ItemKind::QuartzBlock, 1);
    let gravel = ItemStack::new(ItemKind::Gravel, 10);
    let clay = ItemStack::new(ItemKind::Clay, 10);
    let sand = ItemStack::new(ItemKind::Sand, 8);

    let offers = vec![
            TradeOffer::new(wheat, emerald).with_max_uses(16),
            TradeOffer::new(emerald, bread).with_max_uses(12),
            TradeOffer::new(carrot, emerald).with_max_uses(16),
            TradeOffer::new(emerald, carrot).with_max_uses(12),
        ];
    proof {
        assert(offers@ =~= default_registration(0).2);
    }
    trade_table.register_trades(VillagerProfession::Farmer, 1, offers);
    proof {
        lemma_register_all_step(old(trade_table)@, default_trade_registrations(), 0);
        assert(trade_table@ == spec_register_all(old(trade_table)@, default_trade_registrations().take(1)));
    }
    let offers = vec![
            TradeOffer::new(potato, emerald).with_max_uses(16),
            TradeOffer::new(emerald, apple).with_max_uses(4),
            TradeOffer::new(beetroot, emerald).with_max_uses(16),
        ];
    proof {
        assert(offers@ =~= default_registration(1).2);
    }
    trade_table.register_trades(VillagerProfession::Farmer, 2, offers);
    proof {
        lemma_register_all_step(old(trade_table)@, default_trade_registrations(), 1);
        assert(trade_table@ == spec_register_all(old(trade_table)@, default_trade_registrations().take(2)));
    }
    let offers = vec![
            TradeOffer::new(emerald, cookie).with_max_uses(12),
            TradeOffer::new(emerald, cake).with_max_uses(4),
        ];
    proof {
        assert(offers@ =~= default_registration(2).2);
    }
    trade_table.register_trades(VillagerProfession::Farmer, 3, offers);
    proof {
        lemma_register_all_step(old(trade_table)@, default_trade_registrations(), 2);
        assert(trade_table@ == spec_register_all(old(trade_table)@, default_trade_registrations().take(3)));
    }
    let offers = vec![
            TradeOffer::new(emerald, golden_carrot).with_max_uses(3),
            TradeOffer::new(emerald, glistering_melon).with_max_uses(3),
        ];
    proof {
        assert(offers@ =~= default_registration(3).2);
    }
    trade_table.register_trades(VillagerProfession::Farmer, 4, offers);
    proof {
        lemma_register_all_step(old(trade_table)@, default_trade_registrations(), 3);
        assert(trade_table@ == spec_register_all(old(trade_table)@, default_trade_registrations().take(4)));
    }
    let offers = vec![TradeOffer::new(emerald, experience_bottle).with_max_uses(1)];
    proof {
        assert(offers@ =~= default_registration(4).2);
    }
    trade_table.register_trades(VillagerProfession::Farmer, 5, offers);
    proof {
        lemma_register_all_step(old(trade_table)@, default_trade_registrations(), 4);
        assert(trade_table@ == spec_register_all(old(trade_table)@, default_trade_registrations().take(5)));
    }

    let offers = vec![
            TradeOffer::new(coal, emerald).with_max_uses(16),
            TradeOffer::new(emerald, iron_helmet).with_max_uses(4),
        ];
    proof {
        assert(offers@ =~= default_registration(5).2);
    }
    trade_table.register_trades(VillagerProfession::Cleric, 1, offers);
    proof {
        lemma_register_all_step(old(trade_table)@, default_trade_registrations(), 5);
        assert(trade_table@ == spec_register_all(old(trade_table)@, default_trade_registrations().take(6)));
    }
    let offers = vec![
            TradeOffer::new(iron_ingot, emerald).with_max_uses(4),
            TradeOffer::new(emerald, iron_chestplate).with_max_uses(4),
        ];
    proof {
        assert(offers@ =~= default_registration(6).2);
    }
    trade_table.register_trades(VillagerProfession::Armorer, 2, offers);
    proof {
        lemma_register_all_step(old(trade_table)@, default_trade_registrations(), 6);
        assert(trade_table@ == spec_register_all(old(trade_table)@, default_trade_registrations().take(7)));
    }
    let offers = vec![
            TradeOffer::new(emerald, iron_leggings).with_max_uses(4),
            TradeOffer::new(emerald, iron_boots).with_max_uses(4),
        ];
    proof {
        assert(offers@ =~= default_registration(7).2);
    }
    trade_table.register_trades(VillagerProfession::Armorer, 3, offers);
    proof {
        lemma_register_all_step(old(trade_table)@, default_trade_registrations(), 7);
        assert(trade_table@ == spec_register_all(old(trade_table)@, default_trade_registrations().take(8)));
    }
    let offers = vec![
            TradeOffer::new(diamond, emerald).with_max_uses(1),
            TradeOffer::new(emerald, diamond_chestplate).with_max_uses(1),
        ];
    proof {
        assert(offers@ =~= default_registration(8).2);
    }
    trade_table.register_trades(VillagerProfession::Armorer, 4, offers);
    proof {
        lemma_register_all_step(old(trade_table)@, default_trade_registrations(), 8);
        assert(trade_table@ == spec_register_all(old(trade_table)@, default_trade_registrations().take(9)));
    }
    let offers = vec![
            TradeOffer::new(emerald, diamond_helmet).with_max_uses(1),
            TradeOffer::new(emerald, diamond_leggings).with_max_uses(1),
            TradeOffer::new(emerald, diamond_boots).with_max_uses(1),
        ];
    proof {
        assert(offers@ =~= default_registration(9).2);
    }
    trade_table.register_trades(VillagerProfession::Armorer, 5, offers);
    proof {
        lemma_register_all_step(old(trade_table)@, default_trade_registrations(), 9);
        assert(trade_table@ == spec_register_all(old(trade_table)@, default_trade_registrations().take(10)));
    }

    let offers = vec![
            TradeOffer::new(coal, emerald).with_max_uses(16),
            TradeOffer::new(emerald, iron_axe).with_max_uses(4),
        ];
    proof {
        assert(offers@ =~= default_registration(10).2);
    }
    trade_table.register_trades(VillagerProfession::Weaponsmith, 1, offers);
    proof {
        lemma_register_all_step(old(trade_table)@, default_trade_registrations(), 10);
        assert(trade_table@ == spec_register_all(old(trade_table)@, default_trade_registrations().take(11)));
    }
    let offers = vec![
            TradeOffer::new(iron_ingot, emerald).with_max_uses(4),
            TradeOffer::new(emerald, iron_sword).with_max_uses(4),
        ];
    proof {
        assert(offers@ =~= default_registration(11).2);
    }
    trade_table.register_trades(VillagerProfession::Weaponsmith, 2, offers);
    proof {
        lemma_register_all_step(old(trade_table)@, default_trade_registrations(), 11);
        assert(trade_table@ == spec_register_all(old(trade_table)@, default_trade_registrations().take(12)));
    }
    let offers = vec![TradeOffer::new(emerald, bell).with_max_uses(1)];
    proof {
        assert(offers@ =~= default_registration(12).2);
    }
    trade_table.register_trades(VillagerProfession::Weaponsmith, 3, offers);
    proof {
        lemma_register_all_step(old(trade_table)@, default_trade_registrations(), 12);
        assert(trade_table@ == spec_register_all(old(trade_table)@, default_trade_registrations().take(13)));
    }
    let offers = vec![
            TradeOffer::new(diamond, emerald).with_max_uses(1),
            TradeOffer::new(emerald, diamond_axe).with_max_uses(1),
        ];
    proof {
        assert(offers@ =~= default_registration(13).2);
    }
    trade_table.register_trades(VillagerProfession::Weaponsmith, 5, offers);
    proof {
        lemma_register_all_step(old(trade_table)@, default_trade_registrations(), 13);
        assert(trade_table@ == spec_register_all(old(trade_table)@, default_trade_registrations().take(14)));
    }
    let offers = vec![TradeOffer::new(emerald, bell).with_max_uses(1)];
    proof {
        assert(offers@ =~= default_registration(14).2);
    }
    trade_table.register_trades(VillagerProfession::Weaponsmith, 5, offers);
    proof {
        lemma_register_all_step(old(trade_table)@, default_trade_registrations(), 14);
        assert(trade_table@ == spec_register_all(old(trade_table)@, default_trade_registrations().take(15)));
    }

    let offers = vec![
            TradeOffer::new(coal, emerald).with_max_uses(16),
            TradeOffer::new(emerald, iron_shovel).with_max_uses(4),
        ];
    proof {
        assert(offers@ =~= default_registration(15).2);
    }
    trade_table.register_trades(VillagerProfession::Toolsmith, 1, offers);
    proof {
        lemma_register_all_step(old(trade_table)@, default_trade_registrations(), 15);
        assert(trade_table@ == spec_register_all(old(trade_table)@, default_trade_registrations().take(16)));
    }
    let offers = vec![
            TradeOffer::new(iron_ingot, emerald).with_max_uses(4),
            TradeOffer::new(emerald, iron_pickaxe).with_max_uses(4),
        ];
    proof {
        assert(offers@ =~= default_registration(16).2);
    }
    trade_table.register_trades(VillagerProfession::Toolsmith, 2, offers);
    proof {
        lemma_register_all_step(old(trade_table)@, default_trade_registrations(), 16);
        assert(trade_table@ == spec_register_all(old(trade_table)@, default_trade_registrations().take(17)));
    }
    let offers = vec![TradeOffer::new(emerald, bell).with_max_uses(1)];
    proof {
        assert(offers@ =~= default_registration(17).2);
    }
    trade_table.register_trades(VillagerProfession::Toolsmith, 3, offers);
    proof {
        lemma_register_all_step(old(trade_table)@, default_trade_registrations(), 17);
        assert(trade_table@ == spec_register_all(old(trade_table)@, default_trade_registrations().take(18)));
    }
    let offers = vec![
            TradeOffer::new(diamond, emerald).with_max_uses(1),
            TradeOffer::new(emerald, diamond_pickaxe).with_max_uses(1),
        ];
    proof {
        assert(offers@ =~= default_registration(18).2);
    }
    trade_table.register_trades(VillagerProfession::Toolsmith, 4, offers);
    proof {
        lemma_register_all_step(old(trade_table)@, default_trade_registrations(), 18);
        assert(trade_table@ == spec_register_all(old(trade_table)@, default_trade_registrations().take(19)));
    }

    let offers = vec![
            TradeOffer::new(rotten_flesh, emerald).with_max_uses(16),
            TradeOffer::new(emerald, rabbit_stew()).with_max_uses(4),
        ];
    proof {
        assert(offers@ =~= default_registration(19).2);
    }
    trade_table.register_trades(VillagerProfession::Butcher, 1, offers);
    proof {
        lemma_register_all_step(old(trade_table)@, default_trade_registrations(), 19);
        assert(trade_table@ == spec_register_all(old(trade_table)@, default_trade_registrations().take(20)));
    }
    let offers = vec![
            TradeOffer::new(coal, emerald).with_max_uses(16),
            TradeOffer::new(emerald, cooked_porkchop()).with_max_uses(8),
        ];
    proof {
        assert(offers@ =~= default_registration(20).2);
    }
    trade_table.register_trades(VillagerProfession::Butcher, 2, offers);
    proof {
        lemma_register_all_step(old(trade_table)@, default_trade_registrations(), 20);
        assert(trade_table@ == spec_register_all(old(trade_table)@, default_trade_registrations().take(21)));
    }

    let offers = vec![
            TradeOffer::new(leather, emerald).with_max_uses(8),
            TradeOffer::new(emerald, leather_helmet).with_max_uses(4),
        ];
    proof {
        assert(offers@ =~= default_registration(21).2);
    }
    trade_table.register_trades(VillagerProfession::Leatherworker, 1, offers);
    proof {
        lemma_register_all_step(old(trade_table)@, default_trade_registrations(), 21);
        assert(trade_table@ == spec_register_all(old(trade_table)@, default_trade_registrations().take(22)));
    }
    let offers = vec![TradeOffer::new(emerald, leather_chestplate).with_max_uses(4)];
    proof {
        assert(offers@ =~= default_registration(22).2);
    }
    trade_table.register_trades(VillagerProfession::Leatherworker, 2, offers);
    proof {
        lemma_register_all_step(old(trade_table)@, default_trade_registrations(), 22);
        assert(trade_table@ == spec_register_all(old(trade_table)@, default_trade_registrations().take(23)));
    }
    let offers = vec![
            TradeOffer::new(emerald, leather_leggings).with_max_uses(4),
            TradeOffer::new(emerald, saddle).with_max_uses(4),
        ];
    proof {
        assert(offers@ =~= default_registration(23).2);
    }
    trade_table.register_trades(VillagerProfession::Leatherworker, 3, offers);
    proof {
        lemma_register_all_step(old(trade_table)@, default_trade_registrations(), 23);
        assert(trade_table@ == spec_register_all(old(trade_table)@, default_trade_registrations().take(24)));
    }
    let offers = vec![TradeOffer::new(emerald, leather_boots).with_max_uses(4)];
    proof {
        assert(offers@ =~= default_registration(24).2);
    }
    trade_table.register_trades(VillagerProfession::Leatherworker, 4, offers);
    proof {
        lemma_register_all_step(old(trade_table)@, default_trade_registrations(), 24);
        assert(trade_table@ == spec_register_all(old(trade_table)@, default_trade_registrations().take(25)));
    }

    let offers = vec![
            TradeOffer::new(paper, emerald).with_max_uses(16),
            TradeOffer::new(emerald, book).with_max_uses(12),
        ];
    proof {
        assert(offers@ =~= default_registration(25).2);
    }
    trade_table.register_trades(VillagerProfession::Librarian, 1, offers);
    proof {
        lemma_register_all_step(old(trade_table)@, default_trade_registrations(), 25);
        assert(trade_table@ == spec_register_all(old(trade_table)@, default_trade_registrations().take(26)));
    }
    let offers = vec![
            TradeOffer::new(book, emerald).with_max_uses(8),
            TradeOffer::new(emerald, lantern).with_max_uses(4),
        ];
    proof {
        assert(offers@ =~= default_registration(26).2);
    }
    trade_table.register_trades(VillagerProfession::Librarian, 2, offers);
    proof {
        lemma_register_all_step(old(trade_table)@, default_trade_registrations(), 26);
        assert(trade_table@ == spec_register_all(old(trade_table)@, default_trade_registrations().take(27)));
    }
    let offers = vec![
            TradeOffer::new(ink_sac, emerald).with_max_uses(8),
            TradeOffer::new(emerald, glass).with_max_uses(8),
        ];
    proof {
        assert(offers@ =~= default_registration(27).2);
    }
    trade_table.register_trades(VillagerProfession::Librarian, 3, offers);
    proof {
        lemma_register_all_step(old(trade_table)@, default_trade_registrations(), 27);
        assert(trade_table@ == spec_register_all(old(trade_table)@, default_trade_registrations().take(28)));
    }
    let offers = vec![
            TradeOffer::new(emerald, clock).with_max_uses(4),
            TradeOffer::new(emerald, experience_bottle).with_max_uses(1),
        ];
    proof {
        assert(offers@ =~= default_registration(28).2);
    }
    trade_table.register_trades(VillagerProfession::Librarian, 4, offers);
    proof {
        lemma_register_all_step(old(trade_table)@, default_trade_registrations(), 28);
        assert(trade_table@ == spec_register_all(old(trade_table)@, default_trade_registrations().take(29)));
    }
    let offers = vec![TradeOffer::new(emerald, name_tag).with_max_uses(1)];
    proof {
        assert(offers@ =~= default_registration(29).2);
    }
    trade_table.register_trades(VillagerProfession::Librarian, 5, offers);
    proof {
        lemma_register_all_step(old(trade_table)@, default_trade_registrations(), 29);
        assert(trade_table@ == spec_register_all(old(trade_table)@, default_trade_registrations().take(30)));
    }

    let offers = vec![
            TradeOffer::new(rotten_flesh, emerald).with_max_uses(16),
            TradeOffer::new(emerald, redstone).with_max_uses(4),
        ];
    proof {
        assert(offers@ =~= default_registration(30).2);
    }
    trade_table.register_trades(VillagerProfession::Cleric, 1, offers);
    proof {
        lemma_register_all_step(old(trade_table)@, default_trade_registrations(), 30);
        assert(trade_table@ == spec_register_all(old(trade_table)@, default_trade_registrations().take(31)));
    }
    let offers = vec![
            TradeOffer::new(gold_ingot(), emerald).with_max_uses(4),
            TradeOffer::new(emerald, lapis_lazuli).with_max_uses(4),
        ];
    proof {
        assert(offers@ =~= default_registration(31).2);
    }
    trade_table.register_trades(VillagerProfession::Cleric, 2, offers);
    proof {
        lemma_register_all_step(old(trade_table)@, default_trade_registrations(), 31);
        assert(trade_table@ == spec_register_all(old(trade_table)@, default_trade_registrations().take(32)));
    }
    let offers = vec![TradeOffer::new(emerald, eye_of_ender).with_max_uses(4)];
    proof {
        assert(offers@ =~= default_registration(32).2);
    }
    trade_table.register_trades(VillagerProfession::Cleric, 3, offers);
    proof {
        lemma_register_all_step(old(trade_table)@, default_trade_registrations(), 32);
        assert(trade_table@ == spec_register_all(old(trade_table)@, default_trade_registrations().take(33)));
    }
    let offers = vec![TradeOffer::new(emerald, glowstone).with_max_uses(4)];
    proof {
        assert(offers@ =~= default_registration(33).2);
    }
    trade_table.register_trades(VillagerProfession::Cleric, 4, offers);
    proof {
        lemma_register_all_step(old(trade_table)@, default_trade_registrations(), 33);
        assert(trade_table@ == spec_register_all(old(trade_table)@, default_trade_registrations().take(34)));
    }
    let offers = vec![TradeOffer::new(emerald, experience_bottle).with_max_uses(1)];
    proof {
        assert(offers@ =~= default_registration(34).2);
    }
    trade_table.register_trades(VillagerProfession::Cleric, 5, offers);
    proof {
        lemma_register_all_step(old(trade_table)@, default_trade_registrations(), 34);
        assert(trade_table@ == spec_register_all(old(trade_table)@, default_trade_registrations().take(35)));
    }

    let offers = vec![
            TradeOffer::new(clay, emerald).with_max_uses(16),
            TradeOffer::new(emerald, brick).with_max_uses(4),
        ];
    proof {
        assert(offers@ =~= default_registration(35).2);
    }
    trade_table.register_trades(VillagerProfession::Mason, 1, offers);
    proof {
        lemma_register_all_step(old(trade_table)@, default_trade_registrations(), 35);
        assert(trade_table@ == spec_register_all(old(trade_table)@, default_trade_registrations().take(36)));
    }
    let offers = vec![
            TradeOffer::new(gravel, emerald).with_max_uses(16),
            TradeOffer::new(emerald, stone_bricks).with_max_uses(4),
        ];
    proof {
        assert(offers@ =~= default_registration(36).2);
    }
    trade_table.register_trades(VillagerProfession::Mason, 2, offers);
    proof {
        lemma_register_all_step(old(trade_table)@, default_trade_registrations(), 36);
        assert(trade_table@ == spec_register_all(old(trade_table)@, default_trade_registrations().take(37)));
    }
    let offers = vec![
            TradeOffer::new(sand, emerald).with_max_uses(8),
            TradeOffer::new(emerald, polished_andesite).with_max_uses(4),
        ];
    proof {
        assert(offers@ =~= default_registration(37).2);
    }
    trade_table.register_trades(VillagerProfession::Mason, 3, offers);
    proof {
        lemma_register_all_step(old(trade_table)@, default_trade_registrations(), 37);
        assert(trade_table@ == spec_register_all(old(trade_table)@, default_trade_registrations().take(38)));
    }
    let offers = vec![TradeOffer::new(emerald, chiseled_stone_bricks).with_max_uses(4)];
    proof {
        assert(offers@ =~= default_registration(38).2);
    }
    trade_table.register_trades(VillagerProfession::Mason, 4, offers);
    proof {
        lemma_register_all_step(old(trade_table)@, default_trade_registrations(), 38);
        assert(trade_table@ == spec_register_all(old(trade_table)@, default_trade_registrations().take(39)));
    }
    let offers = vec![
            TradeOffer::new(quartz, emerald).with_max_uses(8),
            TradeOffer::new(emerald, quartz_block).with_max_uses(4),
        ];
    proof {
        assert(offers@ =~= default_registration(39).2);
    }
    trade_table.register_trades(VillagerProfession::Mason, 5, offers);
    proof {
        lemma_register_all_step(old(trade_table)@, default_trade_registrations(), 39);
        assert(trade_table@ == spec_register_all(old(trade_table)@, default_trade_registrations().take(40)));
    }

    let offers = vec![TradeOffer::new(string, emerald).with_max_uses(16)];
    proof {
        assert(offers@ =~= default_registration(40).2);
    }
    trade_table.register_trades(VillagerProfession::Fisherman, 1, offers);
    proof {
        lemma_register_all_step(old(trade_table)@, default_trade_registrations(), 40);
        assert(trade_table@ == spec_register_all(old(trade_table)@, default_trade_registrations().take(41)));
    }
    let offers = vec![TradeOffer::new(emerald, bucket).with_max_uses(1)];
    proof {
        assert(offers@ =~= default_registration(41).2);
    }
    trade_table.register_trades(VillagerProfession::Fisherman, 2, offers);
    proof {
        lemma_register_all_step(old(trade_table)@, default_trade_registrations(), 41);
        assert(trade_table@ == spec_register_all(old(trade_table)@, default_trade_registrations().take(42)));
    }

    let offers = vec![
            TradeOffer::new(flint, emerald).with_max_uses(16),
            TradeOffer::new(emerald, arrow).with_max_uses(16),
        ];
    proof {
        assert(offers@ =~= default_registration(42).2);
    }
    trade_table.register_trades(VillagerProfession::Fletcher, 1, offers);
    proof {
        lemma_register_all_step(old(trade_table)@, default_trade_registrations(), 42);
        assert(trade_table@ == spec_register_all(old(trade_table)@, default_trade_registrations().take(43)));
    }
    let offers = vec![
            TradeOffer::new(feather, emerald).with_max_uses(16),
            TradeOffer::new(emerald, bow).with_max_uses(4),
        ];
    proof {
        assert(offers@ =~= default_registration(43).2);
    }
    trade_table.register_trades(VillagerProfession::Fletcher, 2, offers);
    proof {
        lemma_register_all_step(old(trade_table)@, default_trade_registrations(), 43);
        assert(trade_table@ == spec_register_all(old(trade_table)@, default_trade_registrations().take(44)));
    }
    let offers = vec![TradeOffer::new(emerald, crossbow).with_max_uses(4)];
    proof {
        assert(offers@ =~= default_registration(44).2);
    }
    trade_table.register_trades(VillagerProfession::Fletcher, 3, offers);
    proof {
        lemma_register_all_step(old(trade_table)@, default_trade_registrations(), 44);
        assert(trade_table@ == spec_register_all(old(trade_table)@, default_trade_registrations().take(45)));
    }

    let offers = vec![
            TradeOffer::new(wool(ItemKind::WhiteWool), emerald).with_max_uses(16),
            TradeOffer::new(emerald, wool(ItemKind::WhiteWool)).with_max_uses(16),
        ];
    proof {
        assert(offers@ =~= default_registration(45).2);
    }
    trade_table.register_trades(VillagerProfession::Shepherd, 1, offers);
    proof {
        lemma_register_all_step(old(trade_table)@, default_trade_registrations(), 45);
        assert(trade_table@ == spec_register_all(old(trade_table)@, default_trade_registrations().take(46)));
    }
    proof {
        assert(default_trade_registrations().take(46) =~= default_trade_registrations());
    }
}

/// How many trades a villager must make at `level` to go up a level.
pub open spec fn spec_xp_threshold(level: u8) -> u32 {
    if level == 1 {
        10
    } else if level == 2 {
        30
    } else if level == 3 {
        70
    } else if level == 4 {
        150
    } else {
        250
    }
}

/// The total uses of a list of offers.
pub open spec fn total_uses(offers: Seq<TradeOffer>) -> int
    decreases offers.len(),
{
    if offers.len() == 0 {
        0
    } else {
        total_uses(offers.drop_last()) + offers.last().uses
    }
}

/// The offers of the villager's current level, when the table has them.
pub open spec fn current_offers(ai: VillagerAi, t: Seq<Seq<Seq<TradeOffer>>>) -> Option<Seq<TradeOffer>> {
    let levels = t[profession_index(ai.profession)];
    if 1 <= ai.level && ai.level - 1 < levels.len() {
        Some(levels[ai.level - 1])
    } else {
        None
    }
}

/// Whether a villager goes up a level: it trades, is below its
/// profession's highest level, and its offers at its level have been used
/// at least the level's threshold in total.
pub open spec fn spec_levels_up(ai: VillagerAi, t: Seq<Seq<Seq<TradeOffer>>>) -> bool {
    &&& spec_can_trade(ai.profession)
    &&& ai.level < spec_max_level(ai.profession)
    &&& current_offers(ai, t) matches Some(offers) && total_uses(offers) >= spec_xp_threshold(ai.level)
}

/// Levels a villager up when its trades at its level have been used
/// enough (see [`spec_levels_up`]), reporting the change.
pub fn villager_trade_levelup(ai: &mut VillagerAi, villager: u64, trade_table: &TradeTable) -> (ev: Option<VillagerLeveledUp>)
    requires
        current_offers(*old(ai), trade_table@) matches Some(offers) ==> total_uses(offers) <= u32::MAX,
    ensures
        spec_levels_up(*old(ai), trade_table@) ==> *final(ai) == (VillagerAi { level: (old(ai).level + 1) as u8, ..*old(ai) })
            && ev == Some(VillagerLeveledUp { villager, old_level: old(ai).level, new_level: (old(ai).level + 1) as u8 }),
        !spec_levels_up(*old(ai), trade_table@) ==> *final(ai) == *old(ai) && ev is None,
{
    if !ai.can_trade() {
        return None;
    }
    let max = ai.max_level() as u8;
    if ai.level >= max {
        return None;
    }
    let xp_threshold: u32 = match ai.level {
        1 => 10,
        2 => 30,
        3 => 70,
        4 => 150,
        _ => 250,
    };
    let trades = trade_table.get_trades(&ai.profession, ai.level as i32);
    match trades {
        Some(trades) => {
            let mut total: u32 = 0;
            let mut i: usize = 0;
            while i < trades.len()
                invariant
                    i <= trades@.len(),
                    total == total_uses(trades@.take(i as int)),
                    total_uses(trades@) <= u32::MAX,
                decreases trades@.len() - i,
            {
                proof {
                    assert(trades@.take(i + 1).drop_last() =~= trades@.take(i as int));
                    lemma_total_uses_prefix(trades@, i + 1);
                }
                total = total + trades[i].uses;
                i = i + 1;
            }
            proof {
                assert(trades@.take(i as int) =~= trades@);
            }
            if total >= xp_threshold {
                let old_level = ai.level;
                ai.level = ai.level + 1;
                return Some(VillagerLeveledUp { villager, old_level, new_level: ai.level });
            }
            None
        },
        None => None,
    }
}

/// The total uses of two lists of offers put together are the totals of
/// each added up, and a single offer's total is its own uses: the total
/// counts every use of every offer.
pub proof fn lemma_total_uses_adds_up(a: Seq<TradeOffer>, b: Seq<TradeOffer>, o: TradeOffer)
    ensures
        total_uses(a + b) == total_uses(a) + total_uses(b),
        total_uses(seq![o]) == o.uses,
        total_uses(a) >= 0,
    decreases b.len(),
{
    lemma_total_uses_nonnegative(a);
    assert(seq![o].drop_last() =~= Seq::<TradeOffer>::empty());
    assert(total_uses(Seq::<TradeOffer>::empty()) == 0);
    assert(seq![o].last() == o);
    assert(total_uses(seq![o]) == total_uses(seq![o].drop_last()) + o.uses);
    if b.len() == 0 {
        assert(a + b =~= a);
    } else {
        lemma_total_uses_adds_up(a, b.drop_last(), o);
        assert((a + b).drop_last() =~= a + b.drop_last());
        assert((a + b).last() == b.last());
    }
}

proof fn lemma_total_uses_nonnegative(a: Seq<TradeOffer>)
    ensures
        total_uses(a) >= 0,
    decreases a.len(),
{
    if a.len() > 0 {
        lemma_total_uses_nonnegative(a.drop_last());
    }
}

/// A villager that trades, is below its profession's highest level, and
/// whose offers at its level hold `a` and `b` one after the other, goes up
/// a level once the uses of `a` and of `b` together reach the threshold.
pub proof fn lemma_levels_up_on_summed_uses(ai: VillagerAi, t: Seq<Seq<Seq<TradeOffer>>>, a: Seq<TradeOffer>, b: Seq<TradeOffer>)
    requires
        spec_can_trade(ai.profession),
        ai.level < spec_max_level(ai.profession),
        current_offers(ai, t) == Some(a + b),
        total_uses(a) + total_uses(b) >= spec_xp_threshold(ai.level),
    ensures
        spec_levels_up(ai, t),
{
    lemma_total_uses_adds_up(a, b, a.first());
}

/// The uses of a prefix of the offers are at most those of all of them.
proof fn lemma_total_uses_prefix(offers: Seq<TradeOffer>, n: int)
    requires
        0 <= n <= offers.len(),
    ensures
        total_uses(offers.take(n)) <= total_uses(offers),
    decreases offers.len(),
{
    if n < offers.len() {
        assert(offers.drop_last().take(n) =~= offers.take(n));
        lemma_total_uses_prefix(offers.drop_last(), n);
    } else {
        assert(offers.take(n) =~= offers);
    }
}

/// Reading a level back after registering it gives the registered offers;
/// the other levels of the profession keep their offers, and the other
/// professions are untouched.
pub proof fn lemma_register_then_get(
    t: Seq<Seq<Seq<TradeOffer>>>,
    p: VillagerProfession,
    level: int,
    offers: Seq<TradeOffer>,
)
    requires
        t.len() == PROFESSION_COUNT,
        level >= 1,
    ensures
        ({
            let t2 = spec_register_trades(t, p, level, offers);
            let pi = profession_index(p);
            &&& t2.len() == t.len()
            &&& level - 1 < t2[pi].len()
            &&& t2[pi][level - 1] == offers
            &&& forall|l: int| 0 <= l < t[pi].len() && l != level - 1 ==> t2[pi][l] == t[pi][l]
            &&& forall|q: int| 0 <= q < t.len() && q != pi ==> t2[q] == t[q]
        }),
{
}

/// Trading never takes a villager past its profession's highest level.
pub proof fn lemma_levelup_bounded(ai: VillagerAi, t: Seq<Seq<Seq<TradeOffer>>>)
    requires
        ai.level <= spec_max_level(ai.profession),
    ensures
        spec_levels_up(ai, t) ==> ai.level + 1 <= spec_max_level(ai.profession),
{
}

/// The remainder of `a` divided by `b` with the sign of `a`, as the `%`
/// operator computes it.
pub open spec fn trunc_rem(a: int, b: int) -> int {
    if a >= 0 {
        a % b
    } else {
        -((-a) % b)
    }
}

/// The quotient of `a` divided by `b`, rounded toward zero.
pub open spec fn trunc_div(a: int, b: int) -> int {
    if a >= 0 {
        a / b
    } else {
        -((-a) / b)
    }
}

/// The game time of day, in ticks (a day is 24000).
#[derive(Clone, Copy, Debug)]
pub struct TimeOfDay {
    pub time: i64,
}

/// The time within the day: the time's remainder modulo 24000, negative
/// for a negative time.
pub open spec fn day_ticks(t: TimeOfDay) -> int {
    trunc_rem(t.time as int, 24000)
}

/// Night: from tick 13000 of the day, and before tick 1000.
pub open spec fn spec_is_night(t: TimeOfDay) -> bool {
    day_ticks(t) >= 13000 || day_ticks(t) < 1000
}

/// Work time: ticks 2000 to 11999 of the day.
pub open spec fn spec_is_work_time(t: TimeOfDay) -> bool {
    2000 <= day_ticks(t) < 12000
}

/// Bed time: ticks 12000 to 12999 of the day.
pub open spec fn spec_is_bed_time(t: TimeOfDay) -> bool {
    12000 <= day_ticks(t) < 13000
}

/// Gathering time: ticks 12000 to 12999 of the day.
pub open spec fn spec_is_gathering_time(t: TimeOfDay) -> bool {
    12000 <= day_ticks(t) < 13000
}

impl Default for TimeOfDay {
    fn default() -> (t: TimeOfDay)
        ensures
            t.time == 6000,
    {
        TimeOfDay { time: 6000 }
    }
}

fn rem_day(time: i64) -> (t: i64)
    ensures
        t == trunc_rem(time as int, 24000),
        -24000 < t < 24000,
{
    let r = time % 24000;
    if time >= 0 {
        assert(r == time % 24000);
    }
    r
}

impl TimeOfDay {
    /// The hour of the day: the time within the day divided by 1000.
    pub fn hour(&self) -> (h: i64)
        ensures
            h == trunc_div(day_ticks(*self), 1000),
    {
        rem_day(self.time) / 1000
    }

    /// Whether it is night.
    pub fn is_night(&self) -> (b: bool)
        ensures
            b == spec_is_night(*self),
    {
        let t = rem_day(self.time);
        t >= 13000 || t < 1000
    }

    /// Whether it is day: exactly when it is not night.
    pub fn is_day(&self) -> (b: bool)
        ensures
            b == !spec_is_night(*self),
    {
        !self.is_night()
    }

    /// Whether villagers work now.
    pub fn is_work_time(&self) -> (b: bool)
        ensures
            b == spec_is_work_time(*self),
    {
        let t = rem_day(self.time);
        t >= 2000 && t < 12000
    }

    /// Whether villagers go to bed now.
    pub fn is_bed_time(&self) -> (b: bool)
        ensures
            b == spec_is_bed_time(*self),
    {
        let t = rem_day(self.time);
        t >= 12000 && t < 13000
    }

    /// Whether villagers gather now.
    pub fn is_gathering_time(&self) -> (b: bool)
        ensures
            b == spec_is_gathering_time(*self),
    {
        let t = rem_day(self.time);
        t >= 12000 && t < 13000
    }
}

/// Advances the time of day by `elapsed` ticks and wraps it into the day.
pub fn advance_time_system(time: &mut TimeOfDay, elapsed: i64)
    requires
        i64::MIN <= old(time).time + elapsed <= i64::MAX,
    ensures
        final(time).time == trunc_rem(old(time).time + elapsed, 24000),
{
    time.time = rem_day(time.time + elapsed);
}

/// The activity a villager wants now: fleeing while it panics; at bed time
/// resting if it has a bed, else idle; working in work time if it trades
/// and has a workstation; gathering at gathering time; idle otherwise.
pub open spec fn spec_determine_activity(ai: VillagerAi, time: TimeOfDay) -> VillagerActivity {
    if ai.panic_timer is Some {
        VillagerActivity::Fleeing
    } else if spec_is_bed_time(time) {
        if ai.has_bed {
            VillagerActivity::Resting
        } else {
            VillagerActivity::Idle
        }
    } else if spec_is_work_time(time) && spec_can_trade(ai.profession) && ai.has_workstation {
        VillagerActivity::Working
    } else if spec_is_gathering_time(time) {
        VillagerActivity::Gathering
    } else {
        VillagerActivity::Idle
    }
}

/// The activity a villager wants now (see [`spec_determine_activity`]).
pub fn determine_activity(ai: &VillagerAi, time: &TimeOfDay) -> (a: VillagerActivity)
    ensures
        a == spec_determine_activity(*ai, *time),
{
    if ai.panic_timer.is_some() {
        return VillagerActivity::Fleeing;
    }
    if time.is_bed_time() {
        if ai.has_bed {
            return VillagerActivity::Resting;
        }
        return VillagerActivity::Idle;
    }
    if time.is_work_time() && ai.can_trade() && ai.has_workstation {
        return VillagerActivity::Working;
    }
    if time.is_gathering_time() {
        return VillagerActivity::Gathering;
    }
    if time.is_night() {
        return VillagerActivity::Idle;
    }
    VillagerActivity::Idle
}

/// One tick of a villager's mind: both timers advance by a tick; when the
/// wanted activity differs from the current one the villager switches, its
/// activity timer restarts and the change is reported; a gossiping villager
/// with company whose gossip timer passed 30 seconds restarts it; a
/// fleeing villager that has panicked for more than 30 seconds calms down.
pub fn villager_ai_step(ai: &mut VillagerAi, villager: u64, time: &TimeOfDay) -> (ev: Option<VillagerActivityChanged>)
    requires
        old(ai).activity_timer < u64::MAX,
        old(ai).gossip_timer < u64::MAX,
    ensures
        ({
            let wanted = spec_determine_activity(*old(ai), *time);
            let changed = wanted != old(ai).current_activity;
            let gossip = old(ai).gossip_timer + 1;
            &&& final(ai).current_activity == wanted
            &&& final(ai).activity_timer == if changed { 0 } else { old(ai).activity_timer + 1 }
            &&& ev == if changed {
                Some(VillagerActivityChanged { villager, old_activity: old(ai).current_activity, new_activity: wanted })
            } else {
                None
            }
            &&& final(ai).gossip_timer == if wanted == VillagerActivity::Gossiping && gossip > 600 && old(ai).nearby_villagers@.len() > 0 { 0 } else { gossip }
            &&& final(ai).panic_timer == match old(ai).panic_timer {
                Some(p) => if wanted == VillagerActivity::Fleeing && p > 600 { None } else { Some(p) },
                None => None,
            }
            &&& final(ai).profession == old(ai).profession
            &&& final(ai).level == old(ai).level
            &&& final(ai).home_pos == old(ai).home_pos
            &&& final(ai).work_pos == old(ai).work_pos
            &&& final(ai).bed_pos == old(ai).bed_pos
            &&& final(ai).has_bed == old(ai).has_bed
            &&& final(ai).has_workstation == old(ai).has_workstation
            &&& final(ai).nearby_villagers@ == old(ai).nearby_villagers@
        }),
{
    ai.activity_timer = ai.activity_timer + 1;
    ai.gossip_timer = ai.gossip_timer + 1;
    let desired = determine_activity(ai, time);
    let mut ev: Option<VillagerActivityChanged> = None;
    if ai.current_activity != desired {
        let old_activity = ai.current_activity;
        ai.current_activity = desired;
        ai.activity_timer = 0;
        ev = Some(VillagerActivityChanged { villager, old_activity, new_activity: desired });
    }
    match ai.current_activity {
        VillagerActivity::Gossiping => {
            if ai.gossip_timer > 600 && ai.nearby_villagers.len() > 0 {
                ai.gossip_timer = 0;
            }
        },
        VillagerActivity::Fleeing => {
            match ai.panic_timer {
                Some(p) => {
                    if p > 600 {
                        ai.panic_timer = None;
                    }
                },
                None => {},
            }
        },
        _ => {},
    }
    ev
}

} // verus!
