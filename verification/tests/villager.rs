use mili_rust::items::{ItemKind, ItemStack};
use mili_rust::villager::{
    advance_time_system, determine_activity, register_default_trades, villager_ai_step, villager_trade_levelup,
    TimeOfDay, TradeOffer, TradeTable, VillagerActivity, VillagerAi, VillagerProfession,
};
use mili_rust::world::BlockPos;

fn emerald() -> ItemStack {
    ItemStack::new(ItemKind::Emerald, 1)
}

#[test]
fn professions_and_workstations() {
    assert_eq!(VillagerProfession::Librarian.workstation(), "lectern");
    assert_eq!(VillagerProfession::Nitwit.workstation(), "");
    assert_eq!(VillagerProfession::Unemployed.max_level(), 1);
    assert_eq!(VillagerProfession::Farmer.max_level(), 5);
    assert!(!VillagerProfession::Nitwit.can_trade());
    assert!(VillagerProfession::Mason.can_trade());
    assert_eq!(VillagerProfession::default(), VillagerProfession::Nitwit);
    assert_eq!(VillagerActivity::Working.duration(), 1200);
    assert_eq!(VillagerActivity::Fleeing.duration(), 30);
}

#[test]
fn time_of_day_windows() {
    let t = TimeOfDay::default();
    assert_eq!(t.time, 6000);
    assert_eq!(t.hour(), 6);
    assert!(t.is_day() && !t.is_night() && t.is_work_time());
    let night = TimeOfDay { time: 13000 };
    assert!(night.is_night() && !night.is_day());
    let bed = TimeOfDay { time: 24000 * 3 + 12500 };
    assert!(bed.is_bed_time() && bed.is_gathering_time());
    let neg = TimeOfDay { time: -500 };
    assert!(neg.is_night());
    assert_eq!(neg.hour(), 0);
    let mut t2 = TimeOfDay { time: 23990 };
    advance_time_system(&mut t2, 20);
    assert_eq!(t2.time, 10);
}

#[test]
fn activity_follows_time_and_state() {
    let ai = VillagerAi::new(VillagerProfession::Farmer).with_workstation(BlockPos::new(1, 2, 3));
    assert_eq!(determine_activity(&ai, &TimeOfDay { time: 5000 }), VillagerActivity::Working);
    assert_eq!(determine_activity(&ai, &TimeOfDay { time: 12500 }), VillagerActivity::Idle);
    let ai2 = ai.clone().with_bed(BlockPos::new(0, 0, 0));
    assert_eq!(determine_activity(&ai2, &TimeOfDay { time: 12500 }), VillagerActivity::Resting);
    let mut scared = VillagerAi::new(VillagerProfession::Nitwit);
    scared.panic_timer = Some(0);
    assert_eq!(determine_activity(&scared, &TimeOfDay { time: 5000 }), VillagerActivity::Fleeing);
    let nitwit = VillagerAi::new(VillagerProfession::Nitwit);
    assert_eq!(determine_activity(&nitwit, &TimeOfDay { time: 5000 }), VillagerActivity::Idle);
}

#[test]
fn ai_step_reports_activity_change() {
    let mut ai = VillagerAi::new(VillagerProfession::Farmer).with_workstation(BlockPos::new(1, 2, 3));
    let ev = villager_ai_step(&mut ai, 7, &TimeOfDay { time: 5000 }).expect("activity changes");
    assert_eq!(ev.villager, 7);
    assert_eq!(ev.old_activity, VillagerActivity::Idle);
    assert_eq!(ev.new_activity, VillagerActivity::Working);
    assert_eq!(ai.activity_timer, 0);
    assert!(villager_ai_step(&mut ai, 7, &TimeOfDay { time: 5000 }).is_none());
    assert_eq!(ai.activity_timer, 1);
    assert_eq!(ai.gossip_timer, 2);
}

#[test]
fn trade_table_register_and_get() {
    let mut table = TradeTable::new();
    let offer = TradeOffer::new(emerald(), ItemStack::new(ItemKind::Bread, 1)).with_max_uses(3);
    table.register_trades(VillagerProfession::Farmer, 3, vec![offer]);
    assert_eq!(table.get_trades(&VillagerProfession::Farmer, 3).unwrap().len(), 1);
    assert_eq!(table.get_trades(&VillagerProfession::Farmer, 1).unwrap().len(), 0);
    assert!(table.get_trades(&VillagerProfession::Farmer, 4).is_none());
    assert!(table.get_trades(&VillagerProfession::Farmer, 0).is_none());
    assert!(table.get_trades(&VillagerProfession::Mason, 1).is_none());
    table.register_trades(VillagerProfession::Farmer, 3, vec![]);
    assert_eq!(table.get_trades(&VillagerProfession::Farmer, 3).unwrap().len(), 0);
}

#[test]
fn offers_count_uses() {
    let mut offer = TradeOffer::new(emerald(), emerald()).with_max_uses(2).with_xp(5);
    assert_eq!(offer.max_uses, 2);
    assert_eq!(offer.xp, 5);
    assert_eq!(offer.price_multiplier, 20);
    assert!(offer.is_available());
    offer.use_offer();
    offer.use_offer();
    assert!(!offer.is_available());
    let with2 = offer.with_item2(emerald());
    assert_eq!(with2.item2, Some(emerald()));
}

#[test]
fn default_trades_contents() {
    let mut table = TradeTable::new();
    register_default_trades(&mut table);
    let farmer1 = table.get_trades(&VillagerProfession::Farmer, 1).unwrap();
    assert_eq!(farmer1.len(), 4);
    assert_eq!(farmer1[0].item1, ItemStack::new(ItemKind::Wheat, 20));
    assert_eq!(farmer1[0].max_uses, 16);
    // The second cleric registration at level 1 replaces the first.
    let cleric1 = table.get_trades(&VillagerProfession::Cleric, 1).unwrap();
    assert_eq!(cleric1[0].item1, ItemStack::new(ItemKind::RottenFlesh, 32));
    // The second weaponsmith registration at level 5 replaces the first.
    let weapon5 = table.get_trades(&VillagerProfession::Weaponsmith, 5).unwrap();
    assert_eq!(weapon5.len(), 1);
    assert_eq!(weapon5[0].result, ItemStack::new(ItemKind::Bell, 1));
    assert_eq!(table.get_trades(&VillagerProfession::Weaponsmith, 4).unwrap().len(), 0);
    assert_eq!(table.get_trades(&VillagerProfession::Armorer, 1).unwrap().len(), 0);
    assert!(table.get_trades(&VillagerProfession::Cartographer, 1).is_none());
    let butcher2 = table.get_trades(&VillagerProfession::Butcher, 2).unwrap();
    assert_eq!(butcher2[1].result, ItemStack::new(ItemKind::CookedPorkchop, 5));
}

#[test]
fn levelling_up_needs_enough_uses() {
    let mut table = TradeTable::new();
    let mut offer = TradeOffer::new(emerald(), emerald());
    offer.uses = 9;
    table.register_trades(VillagerProfession::Farmer, 1, vec![offer]);
    let mut ai = VillagerAi::new(VillagerProfession::Farmer);
    assert!(villager_trade_levelup(&mut ai, 1, &table).is_none());
    offer.uses = 10;
    table.register_trades(VillagerProfession::Farmer, 1, vec![offer]);
    let ev = villager_trade_levelup(&mut ai, 1, &table).unwrap();
    assert_eq!((ev.old_level, ev.new_level), (1, 2));
    assert_eq!(ai.level, 2);
    let mut nitwit = VillagerAi::new(VillagerProfession::Nitwit);
    assert!(villager_trade_levelup(&mut nitwit, 2, &table).is_none());
    let mut top = VillagerAi::new(VillagerProfession::Farmer).with_level(5);
    assert!(villager_trade_levelup(&mut top, 3, &table).is_none());
}
