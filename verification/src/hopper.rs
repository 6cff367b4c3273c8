//! Hoppers: a cooldown between transfers, and moving items one stack
//! at a time between two inventories.
//!
//! A transfer takes the first non-empty slot of the source that can go
//! somewhere, moves as much of it as the first usable slot of the
//! destination allows (at most 64), and puts it into the first slot of the
//! destination that holds the same item with room left, else into the
//! first empty slot.
use vstd::prelude::*;
use crate::items::{ItemKind, ItemStack, Inventory, stack_empty};
use crate::world::{BlockPos, Direction};

verus! {

/// Ticks a hopper waits after a transfer.
pub const HOPPER_COOLDOWN: i32 = 8;

/// A hopper block.
#[derive(Clone, Copy, Debug)]
pub struct Hopper {
    /// Remaining cooldown ticks before the next transfer.
    pub transfer_cooldown: i32,
    /// Whether the hopper may transfer items.
    pub enabled: bool,
    /// The direction items are pushed out.
    pub output_direction: Direction,
    /// Where the hopper stands.
    pub pos: BlockPos,
}

impl Default for Hopper {
    fn default() -> (h: Hopper)
        ensures
            h == (Hopper {
                transfer_cooldown: 0,
                enabled: true,
                output_direction: Direction::Down,
                pos: BlockPos { x: 0, y: 0, z: 0 },
            }),
    {
        Hopper {
            transfer_cooldown: 0,
            enabled: true,
            output_direction: Direction::Down,
            pos: BlockPos::new(0, 0, 0),
        }
    }
}

impl Hopper {
    /// An enabled hopper without cooldown, pushing towards `output_direction`.
    pub fn new(output_direction: Direction, pos: BlockPos) -> (h: Hopper)
        ensures
            h == (Hopper { transfer_cooldown: 0, enabled: true, output_direction, pos }),
    {
        Hopper { transfer_cooldown: 0, enabled: true, output_direction, pos }
    }

    /// An enabled hopper without cooldown, pushing down.
    pub fn downward(pos: BlockPos) -> (h: Hopper)
        ensures
            h == (Hopper { transfer_cooldown: 0, enabled: true, output_direction: Direction::Down, pos }),
    {
        Hopper::new(Direction::Down, pos)
    }

    /// Whether the hopper may transfer now: it is enabled and its cooldown
    /// has run out.
    pub fn can_transfer(&self) -> (b: bool)
        ensures
            b == (self.enabled && self.transfer_cooldown <= 0),
    {
        self.enabled && self.transfer_cooldown <= 0
    }

    /// Restarts the cooldown.
    pub fn start_cooldown(&mut self)
        ensures
            *final(self) == (Hopper { transfer_cooldown: HOPPER_COOLDOWN, ..*old(self) }),
    {
        self.transfer_cooldown = HOPPER_COOLDOWN;
    }

    /// Counts the cooldown down by one tick, not below zero.
    pub fn tick_cooldown(&mut self)
        ensures
            *final(self) == (Hopper {
                transfer_cooldown: if old(self).transfer_cooldown > 0 {
                    (old(self).transfer_cooldown - 1) as i32
                } else {
                    old(self).transfer_cooldown
                },
                ..*old(self)
            }),
    {
        if self.transfer_cooldown > 0 {
            self.transfer_cooldown = self.transfer_cooldown - 1;
        }
    }
}

/// Marks a block that accepts items from hoppers.
#[derive(Clone, Copy, Debug, Default)]
pub struct HopperReceiver;

/// Marks a block that gives items to hoppers.
#[derive(Clone, Copy, Debug, Default)]
pub struct HopperProvider;

/// The smaller of two counts.
pub open spec fn min_count(a: i8, b: i8) -> i8 {
    if a <= b {
        a
    } else {
        b
    }
}

/// The first slot from `i` on holding the same item as `item` with fewer
/// than 64.
pub open spec fn matching_slot_from(inv: Seq<ItemStack>, item: ItemStack, i: int) -> Option<int>
    decreases inv.len() - i,
{
    if i < 0 || i >= inv.len() {
        None
    } else if inv[i].item == item.item && inv[i].count < 64 {
        Some(i)
    } else {
        matching_slot_from(inv, item, i + 1)
    }
}

/// The first empty slot from `i` on.
pub open spec fn empty_slot_from(inv: Seq<ItemStack>, i: int) -> Option<int>
    decreases inv.len() - i,
{
    if i < 0 || i >= inv.len() {
        None
    } else if stack_empty(inv[i]) {
        Some(i)
    } else {
        empty_slot_from(inv, i + 1)
    }
}

/// Where `item` goes in the inventory: the first slot of the same item
/// with room, else the first empty slot; nowhere for an empty stack.
pub open spec fn spec_find_slot(inv: Seq<ItemStack>, item: ItemStack) -> Option<int> {
    if stack_empty(item) {
        None
    } else if matching_slot_from(inv, item, 0) is Some {
        matching_slot_from(inv, item, 0)
    } else {
        empty_slot_from(inv, 0)
    }
}

/// How many of `src` the destination takes: as many as the slot the item
/// goes to (see [`spec_find_slot`]) has room for, up to the stack's count;
/// none where it goes nowhere.
pub open spec fn spec_transfer_count(dest: Seq<ItemStack>, src: ItemStack) -> i8 {
    match spec_find_slot(dest, src) {
        Some(i) => if stack_empty(dest[i]) {
            min_count(src.count, 64)
        } else {
            min_count(src.count, (64 - dest[i].count) as i8)
        },
        None => 0,
    }
}

/// How many of `source_item` the destination inventory takes (see
/// [`spec_transfer_count`]).
pub fn calculate_transfer_count(dest_inv: &Inventory, source_item: &ItemStack) -> (n: i8)
    ensures
        n == spec_transfer_count(dest_inv@, *source_item),
{
    proof {
        lemma_find_slot(dest_inv@, *source_item);
    }
    match find_matching_or_empty_slot(dest_inv, source_item) {
        None => 0,
        Some(i) => {
            let d = *dest_inv.slot(i);
            if d.is_empty() {
                if source_item.count <= 64 { source_item.count } else { 64 }
            } else {
                let space = 64 - d.count;
                if source_item.count <= space { source_item.count } else { space }
            }
        },
    }
}

/// Where `item` goes in the inventory (see [`spec_find_slot`]).
pub fn find_matching_or_empty_slot(inv: &Inventory, item: &ItemStack) -> (r: Option<u16>)
    ensures
        r matches Some(i) ==> spec_find_slot(inv@, *item) == Some(i as int),
        r is None ==> spec_find_slot(inv@, *item) is None,
{
    if item.is_empty() {
        return None;
    }
    let count = inv.slot_count();
    let mut slot_idx: u16 = 0;
    while slot_idx < count
        invariant
            count == inv@.len(),
            slot_idx <= count,
            !stack_empty(*item),
            matching_slot_from(inv@, *item, 0) == matching_slot_from(inv@, *item, slot_idx as int),
        decreases count - slot_idx,
    {
        let slot_item = inv.slot(slot_idx);
        if slot_item.item == item.item && slot_item.count < 64 {
            return Some(slot_idx);
        }
        slot_idx = slot_idx + 1;
    }
    let mut slot_idx: u16 = 0;
    while slot_idx < count
        invariant
            count == inv@.len(),
            slot_idx <= count,
            !stack_empty(*item),
            matching_slot_from(inv@, *item, 0) is None,
            empty_slot_from(inv@, 0) == empty_slot_from(inv@, slot_idx as int),
        decreases count - slot_idx,
    {
        if inv.slot(slot_idx).is_empty() {
            return Some(slot_idx);
        }
        slot_idx = slot_idx + 1;
    }
    None
}

/// The first slot found from `i` on holds the same item with room.
pub proof fn lemma_matching_slot(inv: Seq<ItemStack>, item: ItemStack, i: int)
    ensures
        matching_slot_from(inv, item, i) matches Some(d) ==> 0 <= i <= d < inv.len() && inv[d].item == item.item
            && inv[d].count < 64,
    decreases inv.len() - i,
{
    if 0 <= i < inv.len() {
        lemma_matching_slot(inv, item, i + 1);
    }
}

/// The first empty slot found from `i` on is empty.
pub proof fn lemma_empty_slot(inv: Seq<ItemStack>, i: int)
    ensures
        empty_slot_from(inv, i) matches Some(d) ==> 0 <= i <= d < inv.len() && stack_empty(inv[d]),
    decreases inv.len() - i,
{
    if 0 <= i < inv.len() {
        lemma_empty_slot(inv, i + 1);
    }
}

/// The slot an item goes to is in range, and holds either nothing or the
/// same item with room.
pub proof fn lemma_find_slot(inv: Seq<ItemStack>, item: ItemStack)
    ensures
        spec_find_slot(inv, item) matches Some(d) ==> 0 <= d < inv.len() && (stack_empty(inv[d]) || (inv[d].item
            == item.item && inv[d].count < 64)),
{
    lemma_matching_slot(inv, item, 0);
    lemma_empty_slot(inv, 0);
}

/// The count a destination takes is at most the stack's count and 64, and
/// the slot it goes to holds at most 64 afterwards.
pub proof fn lemma_transfer_count_bounds(dest: Seq<ItemStack>, src: ItemStack)
    requires
        src.count > 0,
    ensures
        spec_transfer_count(dest, src) <= src.count,
        spec_transfer_count(dest, src) <= 64,
        spec_find_slot(dest, src) matches Some(d) ==> !stack_empty(dest[d]) ==> dest[d].count
            + spec_transfer_count(dest, src) <= 64,
{
    lemma_find_slot(dest, src);
}

/// The destination slot after `n` of `src` are put into it.
pub open spec fn merged_stack(old_dest: ItemStack, src: ItemStack, n: i8) -> ItemStack {
    if stack_empty(old_dest) {
        ItemStack { item: src.item, count: n }
    } else {
        ItemStack { item: old_dest.item, count: (old_dest.count + n) as i8 }
    }
}

/// The source slot after `n` are taken out of it.
pub open spec fn remaining_stack(src: ItemStack, n: i8) -> ItemStack {
    if src.count - n <= 0 {
        ItemStack { item: ItemKind::Air, count: 0 }
    } else {
        ItemStack { item: src.item, count: (src.count - n) as i8 }
    }
}

/// The first move possible from source slot `i` on: the source slot, the
/// destination slot and how many go; `None` when nothing can move.
pub open spec fn transfer_from(from: Seq<ItemStack>, to: Seq<ItemStack>, i: int) -> Option<(int, int, i8)>
    decreases from.len() - i,
{
    if i < 0 || i >= from.len() {
        None
    } else if !stack_empty(from[i]) && spec_transfer_count(to, from[i]) > 0 && spec_find_slot(to, from[i]) is Some {
        Some((i, spec_find_slot(to, from[i])->0, spec_transfer_count(to, from[i])))
    } else {
        transfer_from(from, to, i + 1)
    }
}

/// Where a first move found from slot `i` on starts, and what it moves.
pub proof fn lemma_transfer_from(from: Seq<ItemStack>, to: Seq<ItemStack>, i: int)
    ensures
        transfer_from(from, to, i) matches Some((s, d, n)) ==> {
            &&& 0 <= i <= s < from.len()
            &&& !stack_empty(from[s])
            &&& n == spec_transfer_count(to, from[s])
            &&& n > 0
            &&& spec_find_slot(to, from[s]) == Some(d)
        },
    decreases from.len() - i,
{
    if 0 <= i < from.len() {
        lemma_transfer_from(from, to, i + 1);
    }
}

/// Moves items from the first source slot that can go somewhere into the
/// destination (see [`transfer_from`]); whether anything moved.
fn move_first_stack(from: &mut Inventory, to: &mut Inventory) -> (moved: bool)
    ensures
        match transfer_from(old(from)@, old(to)@, 0) {
            None => !moved && final(from)@ == old(from)@ && final(to)@ == old(to)@,
            Some((s, d, n)) => moved && final(from)@ == old(from)@.update(s, remaining_stack(old(from)@[s], n))
                && final(to)@ == old(to)@.update(d, merged_stack(old(to)@[d], old(from)@[s], n)),
        },
{
    let count = from.slot_count();
    let mut slot_idx: u16 = 0;
    while slot_idx < count
        invariant
            count == from@.len(),
            slot_idx <= count,
            from@ == old(from)@,
            to@ == old(to)@,
            transfer_from(from@, to@, 0) == transfer_from(from@, to@, slot_idx as int),
        decreases count - slot_idx,
    {
        let source_item = *from.slot(slot_idx);
        if source_item.is_empty() {
            slot_idx = slot_idx + 1;
            continue;
        }
        let transfer_count = calculate_transfer_count(to, &source_item);
        if transfer_count <= 0 {
            slot_idx = slot_idx + 1;
            continue;
        }
        let dest_slot = find_matching_or_empty_slot(to, &source_item);
        match dest_slot {
            Some(dest_slot_idx) => {
                proof {
                    lemma_find_slot(to@, source_item);
                    lemma_transfer_count_bounds(to@, source_item);
                }
                let old_dest = *to.slot(dest_slot_idx);
                if old_dest.is_empty() {
                    to.set_slot(dest_slot_idx, ItemStack { item: source_item.item, count: transfer_count });
                } else {
                    to.set_slot(dest_slot_idx, ItemStack { item: old_dest.item, count: old_dest.count + transfer_count });
                }
                let remaining = source_item.count - transfer_count;
                if remaining <= 0 {
                    from.set_slot(slot_idx, ItemStack::empty());
                } else {
                    from.set_slot(slot_idx, ItemStack { item: source_item.item, count: remaining });
                }
                return true;
            },
            None => {},
        }
        slot_idx = slot_idx + 1;
    }
    false
}

/// Pulls items from a source inventory into the hopper (see
/// [`transfer_from`]); whether anything moved.
pub fn transfer_from_source_to_hopper(source_inv: &mut Inventory, hopper_inv: &mut Inventory) -> (moved: bool)
    ensures
        match transfer_from(old(source_inv)@, old(hopper_inv)@, 0) {
            None => !moved && final(source_inv)@ == old(source_inv)@ && final(hopper_inv)@ == old(hopper_inv)@,
            Some((s, d, n)) => moved && final(source_inv)@ == old(source_inv)@.update(s, remaining_stack(old(source_inv)@[s], n))
                && final(hopper_inv)@ == old(hopper_inv)@.update(d, merged_stack(old(hopper_inv)@[d], old(source_inv)@[s], n)),
        },
{
    move_first_stack(source_inv, hopper_inv)
}

/// Pushes items from the hopper into a target inventory (see
/// [`transfer_from`]); whether anything moved.
pub fn transfer_from_hopper_to_target(hopper_inv: &mut Inventory, target_inv: &mut Inventory) -> (moved: bool)
    ensures
        match transfer_from(old(hopper_inv)@, old(target_inv)@, 0) {
            None => !moved && final(hopper_inv)@ == old(hopper_inv)@ && final(target_inv)@ == old(target_inv)@,
            Some((s, d, n)) => moved && final(hopper_inv)@ == old(hopper_inv)@.update(s, remaining_stack(old(hopper_inv)@[s], n))
                && final(target_inv)@ == old(target_inv)@.update(d, merged_stack(old(target_inv)@[d], old(hopper_inv)@[s], n)),
        },
{
    move_first_stack(hopper_inv, target_inv)
}

/// Pulls items into the hopper from the inventory found above it, if one
/// was found; whether anything moved.
pub fn try_pull_items(hopper_inv: &mut Inventory, above: Option<Inventory>) -> (moved: bool)
    ensures
        match above {
            None => !moved && final(hopper_inv)@ == old(hopper_inv)@,
            Some(src) => match transfer_from(src@, old(hopper_inv)@, 0) {
                None => !moved && final(hopper_inv)@ == old(hopper_inv)@,
                Some((s, d, n)) => moved && final(hopper_inv)@ == old(hopper_inv)@.update(d, merged_stack(old(hopper_inv)@[d], src@[s], n)),
            },
        },
{
    match above {
        Some(mut source_inv) => transfer_from_source_to_hopper(&mut source_inv, hopper_inv),
        None => false,
    }
}

/// Pushes items from the hopper into the inventory found where it points,
/// if one was found; whether anything moved.
pub fn try_push_items(hopper_inv: &mut Inventory, target: Option<Inventory>) -> (moved: bool)
    ensures
        match target {
            None => !moved && final(hopper_inv)@ == old(hopper_inv)@,
            Some(dst) => match transfer_from(old(hopper_inv)@, dst@, 0) {
                None => !moved && final(hopper_inv)@ == old(hopper_inv)@,
                Some((s, d, n)) => moved && final(hopper_inv)@ == old(hopper_inv)@.update(s, remaining_stack(old(hopper_inv)@[s], n)),
            },
        },
{
    match target {
        Some(mut target_inv) => transfer_from_hopper_to_target(hopper_inv, &mut target_inv),
        None => false,
    }
}

/// Whether a pull from `above` into the hopper moves anything.
pub open spec fn pull_moves(hopper_inv: Seq<ItemStack>, above: Option<Inventory>) -> bool {
    above matches Some(src) && transfer_from(src@, hopper_inv, 0) is Some
}

/// Whether a push from the hopper into `target` moves anything.
pub open spec fn push_moves(hopper_inv: Seq<ItemStack>, target: Option<Inventory>) -> bool {
    target matches Some(dst) && transfer_from(hopper_inv, dst@, 0) is Some
}

/// One tick of a hopper: its cooldown counts down; when it can then
/// transfer, it first pulls from the inventory above and, when nothing
/// came, pushes into the target; a transfer restarts the cooldown.
pub fn hopper_tick(hopper: &mut Hopper, hopper_inv: &mut Inventory, above: Option<Inventory>, target: Option<Inventory>)
    ensures
        ({
            let cd = if old(hopper).transfer_cooldown > 0 {
                old(hopper).transfer_cooldown - 1
            } else {
                old(hopper).transfer_cooldown as int
            };
            let can = old(hopper).enabled && cd <= 0;
            let pulled = can && pull_moves(old(hopper_inv)@, above);
            let pushed = can && !pulled && push_moves(old(hopper_inv)@, target);
            &&& final(hopper).enabled == old(hopper).enabled
            &&& final(hopper).output_direction == old(hopper).output_direction
            &&& final(hopper).pos == old(hopper).pos
            &&& final(hopper).transfer_cooldown == if pulled || pushed { HOPPER_COOLDOWN as int } else { cd }
            &&& !can ==> final(hopper_inv)@ == old(hopper_inv)@
            &&& pulled ==> ({
                let (src_slot, dst_slot, n) = transfer_from(above->0@, old(hopper_inv)@, 0)->0;
                final(hopper_inv)@ == old(hopper_inv)@.update(
                    dst_slot,
                    merged_stack(old(hopper_inv)@[dst_slot], above->0@[src_slot], n),
                )
            })
            &&& pushed ==> ({
                let (src_slot, dst_slot, n) = transfer_from(old(hopper_inv)@, target->0@, 0)->0;
                final(hopper_inv)@ == old(hopper_inv)@.update(src_slot, remaining_stack(old(hopper_inv)@[src_slot], n))
            })
            &&& can && !pulled && !pushed ==> final(hopper_inv)@ == old(hopper_inv)@
        }),
{
    hopper.tick_cooldown();
    if !hopper.can_transfer() {
        return;
    }
    if try_pull_items(hopper_inv, above) {
        hopper.start_cooldown();
        return;
    }
    if try_push_items(hopper_inv, target) {
        hopper.start_cooldown();
    }
}

/// How many items of kind `k` a stack holds: its count when it is a
/// non-empty stack of `k`, else none.
pub open spec fn stack_amount(st: ItemStack, k: ItemKind) -> int {
    if !stack_empty(st) && st.item == k {
        st.count as int
    } else {
        0
    }
}

/// How many items of kind `k` the slots hold in all.
pub open spec fn kind_total(s: Seq<ItemStack>, k: ItemKind) -> int
    decreases s.len(),
{
    if s.len() == 0 {
        0
    } else {
        kind_total(s.drop_last(), k) + stack_amount(s.last(), k)
    }
}

/// Replacing one slot changes the total by the difference of the two
/// stacks.
pub proof fn lemma_kind_total_update(s: Seq<ItemStack>, i: int, x: ItemStack, k: ItemKind)
    requires
        0 <= i < s.len(),
    ensures
        kind_total(s.update(i, x), k) == kind_total(s, k) - stack_amount(s[i], k) + stack_amount(x, k),
    decreases s.len(),
{
    let u = s.update(i, x);
    if i == s.len() - 1 {
        assert(u.drop_last() =~= s.drop_last());
    } else {
        assert(u.drop_last() =~= s.drop_last().update(i, x));
        lemma_kind_total_update(s.drop_last(), i, x, k);
    }
}

/// A hopper transfer neither makes nor destroys items: for every kind, the
/// two inventories together hold as many as before.
pub proof fn lemma_transfer_conserves_items(from: Seq<ItemStack>, to: Seq<ItemStack>, k: ItemKind)
    ensures
        transfer_from(from, to, 0) matches Some((s, d, n)) ==> kind_total(
            from.update(s, remaining_stack(from[s], n)),
            k,
        ) + kind_total(to.update(d, merged_stack(to[d], from[s], n)), k) == kind_total(from, k) + kind_total(to, k),
{
    lemma_transfer_from(from, to, 0);
    if let Some((s, d, n)) = transfer_from(from, to, 0) {
        lemma_find_slot(to, from[s]);
        lemma_transfer_count_bounds(to, from[s]);
        lemma_kind_total_update(from, s, remaining_stack(from[s], n), k);
        lemma_kind_total_update(to, d, merged_stack(to[d], from[s], n), k);
    }
}

} // verus!
