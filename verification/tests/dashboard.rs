use tic_tac_toe::dashboard::{Dashboard, DASHBOARD_CAPACITY};
use tic_tac_toe::game::Game;

fn game_with_activity(player: u64, last_activity: u64) -> Game {
    Game::create(player, last_activity)
}

#[test]
fn update_inserts_new_games_in_order() {
    let mut d = Dashboard::new();
    d.update(1, &game_with_activity(10, 5));
    d.update(2, &game_with_activity(20, 3));
    assert_eq!(d.entries.len(), 2);
    assert_eq!(d.entries[0].game_id, 1);
    assert_eq!(d.entries[1].game_id, 2);
    assert_eq!(d.entries[1].last_activity, 3);
}

#[test]
fn update_replaces_existing_entry_in_place() {
    let mut d = Dashboard::new();
    d.update(1, &game_with_activity(10, 5));
    d.update(2, &game_with_activity(20, 3));
    d.update(1, &game_with_activity(10, 9));
    assert_eq!(d.entries.len(), 2);
    assert_eq!(d.entries[0].game_id, 1);
    assert_eq!(d.entries[0].last_activity, 9);
}

#[test]
fn eviction_removes_least_recently_active_entry() {
    let mut d = Dashboard::new();
    let activities = [5u64, 3, 7, 1, 9, 2, 8, 6];
    for (i, la) in activities.iter().enumerate() {
        d.update(i as u64 + 1, &game_with_activity(10, *la));
    }
    assert_eq!(d.entries.len(), DASHBOARD_CAPACITY);

    // Inserting a ninth identifier evicts game 4, whose activity 1 is the
    // smallest, and only that one.
    d.update(9, &game_with_activity(10, 4));
    assert_eq!(d.entries.len(), DASHBOARD_CAPACITY);
    assert!(d.entries.iter().all(|e| e.game_id != 4));
    for id in [1u64, 2, 3, 5, 6, 7, 8, 9] {
        assert!(d.entries.iter().any(|e| e.game_id == id));
    }

    // The next insertion evicts game 6, whose activity 2 is now smallest.
    d.update(10, &game_with_activity(10, 100));
    assert_eq!(d.entries.len(), DASHBOARD_CAPACITY);
    assert!(d.entries.iter().all(|e| e.game_id != 6));
    for id in [1u64, 2, 3, 5, 7, 8, 9, 10] {
        assert!(d.entries.iter().any(|e| e.game_id == id));
    }
}

#[test]
fn capacity_is_never_exceeded() {
    let mut d = Dashboard::new();
    for i in 0..30u64 {
        d.update(i, &game_with_activity(10, i));
        assert!(d.entries.len() <= DASHBOARD_CAPACITY);
    }
}

#[test]
fn update_at_capacity_with_known_id_does_not_evict() {
    let mut d = Dashboard::new();
    for i in 0..DASHBOARD_CAPACITY as u64 {
        d.update(i, &game_with_activity(10, i));
    }
    d.update(3, &game_with_activity(10, 50));
    assert_eq!(d.entries.len(), DASHBOARD_CAPACITY);
    for i in 0..DASHBOARD_CAPACITY as u64 {
        assert!(d.entries.iter().any(|e| e.game_id == i));
    }
}
