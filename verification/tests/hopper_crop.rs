use mili_rust::crop::{
    bone_meal_growth, check_growth_conditions, check_nearby_water, crop_growth_for_roll, drops_for_roll,
    get_additional_drops, get_harvest_item, get_light_level, Crop, CropType,
};
use mili_rust::hopper::{
    calculate_transfer_count, find_matching_or_empty_slot, hopper_tick, transfer_from_hopper_to_target,
    transfer_from_source_to_hopper, Hopper,
};
use mili_rust::items::{Inventory, ItemKind, ItemStack};
use mili_rust::world::{BlockKind, BlockPos, BlockState, BlockWorld, Direction};

fn inv(stacks: &[(ItemKind, i8)], size: usize) -> Inventory {
    let mut v: Vec<ItemStack> = stacks.iter().map(|(k, c)| ItemStack::new(*k, *c)).collect();
    while v.len() < size {
        v.push(ItemStack::empty());
    }
    Inventory::from_stacks(v)
}

#[test]
fn hopper_cooldown() {
    let mut h = Hopper::downward(BlockPos::new(1, 2, 3));
    assert_eq!(h.output_direction, Direction::Down);
    assert!(h.can_transfer());
    h.start_cooldown();
    assert_eq!(h.transfer_cooldown, 8);
    assert!(!h.can_transfer());
    for _ in 0..8 {
        h.tick_cooldown();
    }
    assert_eq!(h.transfer_cooldown, 0);
    assert!(h.can_transfer());
    h.tick_cooldown();
    assert_eq!(h.transfer_cooldown, 0);
    let d = Hopper::default();
    assert_eq!(d.output_direction, Direction::Down);
    assert!(d.enabled);
}

#[test]
fn transfer_count_and_slot() {
    let dest = inv(&[(ItemKind::Cobblestone, 60)], 5);
    let item = ItemStack::new(ItemKind::Cobblestone, 10);
    assert_eq!(calculate_transfer_count(&dest, &item), 4);
    assert_eq!(find_matching_or_empty_slot(&dest, &item), Some(0));
    let other = ItemStack::new(ItemKind::Diamond, 3);
    assert_eq!(calculate_transfer_count(&dest, &other), 3);
    assert_eq!(find_matching_or_empty_slot(&dest, &other), Some(1));
    assert_eq!(calculate_transfer_count(&dest, &ItemStack::empty()), 0);
    assert_eq!(find_matching_or_empty_slot(&dest, &ItemStack::empty()), None);
    let full = inv(&[(ItemKind::Diamond, 64)], 1);
    assert_eq!(find_matching_or_empty_slot(&full, &other), None);
}

#[test]
fn pull_moves_whole_stack() {
    let mut source = inv(&[(ItemKind::Cobblestone, 10)], 3);
    let mut hopper = inv(&[], 5);
    assert!(transfer_from_source_to_hopper(&mut source, &mut hopper));
    assert!(source.slot(0).is_empty());
    assert_eq!(*hopper.slot(0), ItemStack::new(ItemKind::Cobblestone, 10));
    assert!(!transfer_from_source_to_hopper(&mut source, &mut hopper));
}

#[test]
fn push_merges_into_partial_stack() {
    let mut hopper = inv(&[(ItemKind::Cobblestone, 10)], 5);
    let mut target = inv(&[(ItemKind::Cobblestone, 60)], 2);
    assert!(transfer_from_hopper_to_target(&mut hopper, &mut target));
    assert_eq!(*target.slot(0), ItemStack::new(ItemKind::Cobblestone, 64));
    assert_eq!(*hopper.slot(0), ItemStack::new(ItemKind::Cobblestone, 6));
}

#[test]
fn merge_after_an_empty_slot_keeps_the_stack_at_64() {
    let mut hopper = inv(&[(ItemKind::Stone, 10)], 5);
    let mut target = Inventory::from_stacks(vec![ItemStack::empty(), ItemStack::new(ItemKind::Stone, 60)]);
    assert_eq!(calculate_transfer_count(&target, hopper.slot(0)), 4);
    assert!(transfer_from_hopper_to_target(&mut hopper, &mut target));
    assert!(target.slot(0).is_empty());
    assert_eq!(*target.slot(1), ItemStack::new(ItemKind::Stone, 64));
    assert_eq!(*hopper.slot(0), ItemStack::new(ItemKind::Stone, 6));
}

#[test]
fn tick_with_cooldown_does_nothing() {
    let mut h = Hopper::downward(BlockPos::new(0, 0, 0));
    h.start_cooldown();
    let mut hopper_inv = inv(&[(ItemKind::Cobblestone, 1)], 5);
    let above = Some(inv(&[(ItemKind::Diamond, 1)], 1));
    hopper_tick(&mut h, &mut hopper_inv, above, None);
    assert_eq!(h.transfer_cooldown, 7);
    assert_eq!(*hopper_inv.slot(1), ItemStack::empty());
}

#[test]
fn tick_pulls_and_starts_cooldown() {
    let mut h = Hopper::downward(BlockPos::new(0, 0, 0));
    let mut hopper_inv = inv(&[], 5);
    let above = Some(inv(&[(ItemKind::Diamond, 2)], 1));
    hopper_tick(&mut h, &mut hopper_inv, above, None);
    assert_eq!(*hopper_inv.slot(0), ItemStack::new(ItemKind::Diamond, 2));
    assert_eq!(h.transfer_cooldown, 8);
}

#[test]
fn crop_basics() {
    assert_eq!(CropType::Wheat.max_age(), 7);
    assert_eq!(CropType::Beetroot.max_age(), 3);
    assert_eq!(CropType::Wheat.growth_chance(), 8);
    assert!(CropType::Wheat.requires_water());
    assert!(!CropType::NetherWart.requires_water());
    assert!(CropType::Carrot.can_place_on(BlockKind::Farmland));
    assert!(!CropType::Carrot.can_place_on(BlockKind::Dirt));
    assert!(CropType::NetherWart.can_place_on(BlockKind::SoulSand));
    let mut c = Crop::new(CropType::Wheat, BlockPos::new(0, 64, 0));
    assert_eq!(c.age, 0);
    c.grow();
    assert_eq!(c.age, 1);
    assert!(c.apply_bone_meal());
    assert_eq!(c.age, 3);
    for _ in 0..10 {
        c.grow();
    }
    assert_eq!(c.age, 7);
    assert!(c.is_fully_grown());
    assert!(!c.apply_bone_meal());
    assert_eq!(c.to_block_state().age, Some(7));
}

#[test]
fn growth_conditions() {
    assert!(check_growth_conditions(CropType::Wheat, 9, true));
    assert!(!check_growth_conditions(CropType::Wheat, 8, true));
    assert!(!check_growth_conditions(CropType::Wheat, 15, false));
    assert!(check_growth_conditions(CropType::NetherWart, 0, false));
    assert_eq!(get_light_level(None, BlockPos::new(0, 0, 0)), 12);
    let mut w = BlockWorld::new();
    let p = BlockPos::new(0, 64, 0);
    assert_eq!(get_light_level(Some(&w), p), 10);
    w.set_block(BlockPos::new(0, 65, 0), BlockState::default_of(BlockKind::Air));
    assert_eq!(get_light_level(Some(&w), p), 15);
    assert!(check_nearby_water(None, p));
    assert!(!check_nearby_water(Some(&w), p));
    w.set_block(BlockPos::new(4, 64, -4), BlockState::default_of(BlockKind::Water));
    assert!(check_nearby_water(Some(&w), p));
    let mut w2 = BlockWorld::new();
    w2.set_block(BlockPos::new(5, 64, 0), BlockState::default_of(BlockKind::Water));
    assert!(!check_nearby_water(Some(&w2), p));
}

#[test]
fn random_tick_growth() {
    let p = BlockPos::new(0, 64, 0);
    let mut w = BlockWorld::new();
    w.set_block(BlockPos::new(0, 65, 0), BlockState::default_of(BlockKind::Air));
    w.set_block(BlockPos::new(1, 64, 0), BlockState::default_of(BlockKind::Water));
    let mut c = Crop::new(CropType::Carrot, p);
    assert!(!crop_growth_for_roll(&mut c, &mut w, 3));
    assert_eq!(c.age, 0);
    assert!(crop_growth_for_roll(&mut c, &mut w, 0));
    assert_eq!(c.age, 1);
    assert_eq!(w.block(p).unwrap().age, Some(1));
    bone_meal_growth(&mut c, &mut w);
    assert_eq!(c.age, 3);
    assert_eq!(w.block(p).unwrap().age, Some(3));
}

#[test]
fn harvest_drops() {
    assert_eq!(get_harvest_item(CropType::Wheat), ItemStack::new(ItemKind::Wheat, 1));
    assert_eq!(get_harvest_item(CropType::Beetroot), ItemStack::new(ItemKind::BeetrootSeeds, 1));
    assert_eq!(drops_for_roll(CropType::Wheat, 0), vec![]);
    assert_eq!(drops_for_roll(CropType::Wheat, 3), vec![ItemStack::new(ItemKind::WheatSeeds, 3)]);
    assert_eq!(drops_for_roll(CropType::Carrot, 1), vec![]);
    assert_eq!(drops_for_roll(CropType::Potato, 4), vec![ItemStack::new(ItemKind::Potato, 3)]);
    assert_eq!(drops_for_roll(CropType::NetherWart, 2), vec![ItemStack::new(ItemKind::NetherWart, 1)]);
    for _ in 0..50 {
        let d = get_additional_drops(CropType::Wheat);
        assert!(d.len() <= 1);
        if let Some(s) = d.first() {
            assert_eq!(s.item, ItemKind::WheatSeeds);
            assert!((1..=3).contains(&s.count));
        }
        let d = get_additional_drops(CropType::NetherWart);
        assert_eq!(d.len(), 1);
        assert!((1..=3).contains(&d[0].count));
    }
}
