use mili_rust::combat::AttackCooldown;
use mili_rust::dimension::{sea_level_for_dimension, Dimension};
use mili_rust::entity_ai::memory::{EntityMemory, MemoryValue};
use mili_rust::entity_ai::pathfinding::PathfindingResult;
use mili_rust::mob_spawning::{random_mob, random_villager_profession, spawn_cap_reached, spawn_profession, MobType};
use mili_rust::server_config::{pick_motd, ConnectionMode, MiliCallbacks, ServerConfig, SpawnConfig};
use mili_rust::villager::VillagerProfession;
use mili_rust::world::BlockPos;

#[test]
fn mob_kinds() {
    assert!(MobType::Zombie.is_hostile());
    assert!(!MobType::Cow.is_hostile());
    assert!(!MobType::Villager.is_hostile());
    assert!(MobType::overworld_hostile_mobs().iter().all(|m| m.is_hostile()));
    assert!(MobType::overworld_passive_mobs().iter().all(|m| !m.is_hostile()));
    assert!(MobType::nether_hostile_mobs().contains(&MobType::Blaze));
    assert!(MobType::end_hostile_mobs().contains(&MobType::Enderman));
    let list = MobType::overworld_passive_mobs();
    for _ in 0..20 {
        assert!(list.contains(&random_mob(&list)));
    }
}

#[test]
fn spawn_cap() {
    assert!(!spawn_cap_reached(69, 1, 70));
    assert!(spawn_cap_reached(70, 1, 70));
    // No players counts as one.
    assert!(spawn_cap_reached(70, 0, 70));
    assert!(!spawn_cap_reached(139, 2, 70));
}

#[test]
fn villager_spawn_professions() {
    assert_eq!(spawn_profession(0), VillagerProfession::Farmer);
    assert_eq!(spawn_profession(1), VillagerProfession::Librarian);
    assert_eq!(spawn_profession(12), VillagerProfession::Cartographer);
    for _ in 0..50 {
        let p = random_villager_profession();
        assert!(p != VillagerProfession::Nitwit && p != VillagerProfession::Unemployed);
    }
}

#[test]
fn dimensions() {
    assert_eq!(Dimension::Overworld.dimension_type_name(), "minecraft:overworld");
    assert_eq!(Dimension::Nether.dimension_type_name(), "minecraft:the_nether");
    assert_eq!(Dimension::End.dimension_type_name(), "minecraft:the_end");
    assert_eq!(Dimension::Overworld.sea_level(), 63);
    assert_eq!(Dimension::Nether.sea_level(), 32);
    assert_eq!(Dimension::End.sea_level(), 0);
    assert_eq!(sea_level_for_dimension("minecraft:overworld"), 63);
    assert_eq!(sea_level_for_dimension("minecraft:the_nether"), 32);
    assert_eq!(sea_level_for_dimension("minecraft:the_end"), 0);
    assert_eq!(sea_level_for_dimension("custom"), 63);
    // "overworld" is looked for first.
    assert_eq!(sea_level_for_dimension("nether_overworld"), 63);
}

#[test]
fn server_settings() {
    let c = ServerConfig::default();
    assert_eq!(c.port, 25565);
    assert_eq!(c.max_players, 20);
    assert!(!c.online_mode);
    assert_eq!(c.spawn, SpawnConfig { x: 0, y: 64, z: 0, terrain_radius: 50 });
    assert_eq!(c.connection_mode(), ConnectionMode::Offline);
    let online = ServerConfig { online_mode: true, ..ServerConfig::default() };
    assert_eq!(online.connection_mode(), ConnectionMode::Online { prevent_proxy_connections: false });
    let cb = MiliCallbacks::from_config(&c);
    assert_eq!(cb.motd, c.motd);
    assert_eq!(cb.max_players, 20);
    assert_eq!(pick_motd(&[]), "Mili-rust Server");
    assert_eq!(pick_motd(&["only".to_owned()]), "only");
    let two = ["a".to_owned(), "b".to_owned()];
    for _ in 0..10 {
        let m = pick_motd(&two);
        assert!(m == "a" || m == "b");
    }
}

#[test]
fn memory_entries() {
    let mut m = EntityMemory::new();
    assert!(m.recall("target").is_none());
    m.remember("target", MemoryValue::Entity(7), 10);
    assert_eq!(m.recall("target").unwrap().value, MemoryValue::Entity(7));
    m.remember("target", MemoryValue::Bool(true), 12);
    let e = m.recall("target").unwrap();
    assert_eq!((e.value, e.timestamp), (MemoryValue::Bool(true), 12));
    assert!(!m.is_expired("target", 20, 10));
    assert!(m.is_expired("target", 23, 10));
    assert!(m.is_expired("missing", 0, 10));
    m.remember("home", MemoryValue::Position(BlockPos::new(1, 2, 3)), 0);
    m.forget("target");
    assert!(m.recall("target").is_none());
    assert!(m.recall("home").is_some());
    m.clear();
    assert!(m.recall("home").is_none());
}

#[test]
fn path_results() {
    let goal = BlockPos::new(3, 0, 0);
    let steps = vec![BlockPos::new(1, 0, 0), BlockPos::new(2, 0, 0), goal];
    assert!(matches!(PathfindingResult::from_steps(steps.clone(), goal), PathfindingResult::Path(p) if p == steps));
    let short = vec![BlockPos::new(1, 0, 0)];
    assert!(matches!(PathfindingResult::from_steps(short, goal), PathfindingResult::Partial(p) if p.len() == 1));
    assert!(matches!(PathfindingResult::from_steps(vec![], goal), PathfindingResult::Partial(p) if p.is_empty()));
}

#[test]
fn attack_cooldown() {
    let mut c = AttackCooldown::default();
    assert!(c.is_ready());
    c.reset();
    assert_eq!(c.remaining_ticks, 10);
    assert!(!c.is_ready());
    for _ in 0..12 {
        c.tick();
    }
    assert_eq!(c.remaining_ticks, 0);
    assert!(c.is_ready());
}
