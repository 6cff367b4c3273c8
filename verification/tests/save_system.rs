use mili_rust::save_system::{create_save_manager, default_save_manager, WorldSaveManager};

#[test]
fn test_dirty_tracking() {
    let mut manager = WorldSaveManager::new("test_world");
    assert_eq!(manager.dirty_count(), 0);

    manager.mark_dirty(0, 0);
    assert_eq!(manager.dirty_count(), 1);

    manager.mark_dirty(1, 1);
    assert_eq!(manager.dirty_count(), 2);

    manager.mark_clean(0, 0);
    assert_eq!(manager.dirty_count(), 1);

    manager.clear_dirty();
    assert_eq!(manager.dirty_count(), 0);
}

#[test]
fn test_auto_save_config() {
    let mut manager = WorldSaveManager::new("test_world");
    assert!(manager.auto_save_enabled);
    assert_eq!(manager.auto_save_interval_secs, 300);

    manager.set_auto_save_enabled(false);
    assert!(!manager.auto_save_enabled);

    manager.set_auto_save_interval(60);
    assert_eq!(manager.auto_save_interval_secs, 60);
}

#[test]
fn marking_a_chunk_twice_counts_it_once() {
    let mut manager = create_save_manager("w");
    manager.mark_dirty(3, -4);
    manager.mark_dirty(3, -4);
    assert_eq!(manager.dirty_count(), 1);
    assert_eq!(manager.dirty_chunks(), &[(3, -4)]);
    manager.mark_clean(7, 7);
    assert_eq!(manager.dirty_count(), 1);
}

#[test]
fn default_manager_uses_world_directory() {
    let manager = default_save_manager();
    assert_eq!(manager.world_path, "world");
    assert!(manager.auto_save_enabled);
    let custom = WorldSaveManager::with_auto_save_interval("x", 42);
    assert_eq!(custom.auto_save_interval_secs, 42);
    assert_eq!(custom.world_path, "x");
}

#[test]
fn auto_save_timer_expires_and_restarts() {
    let mut manager = WorldSaveManager::with_auto_save_interval("w", 1);
    manager.update_save_timer(600);
    assert!(!manager.should_auto_save());
    manager.update_save_timer(600);
    assert!(manager.should_auto_save());
    // No dirty chunk: the timer restarts but nothing is saved.
    assert!(!manager.auto_save_due());
    assert!(!manager.should_auto_save());
    manager.mark_dirty(0, 0);
    manager.update_save_timer(1000);
    assert!(manager.auto_save_due());
    manager.begin_save();
    assert!(manager.is_saving());
    manager.finish_save();
    assert!(!manager.is_saving());
    assert_eq!(manager.dirty_count(), 0);
}

#[test]
fn disabled_auto_save_never_fires() {
    let mut manager = WorldSaveManager::with_auto_save_interval("w", 1);
    manager.set_auto_save_enabled(false);
    manager.update_save_timer(5000);
    assert!(!manager.should_auto_save());
}

#[test]
fn shutdown_save_happens_once() {
    let mut manager = WorldSaveManager::new("w");
    assert!(manager.shutdown_save_due());
    assert!(!manager.shutdown_save_due());
}
