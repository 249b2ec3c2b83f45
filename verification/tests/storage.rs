use osubot_core::storage::Storage;
use osubot_core::time::{utc_now, UtcTime};
use osubot_core::types::{GameMode, Real, UserStats};

fn to_real(x: f64) -> Real {
    Real { bits: x.to_bits() }
}

fn test_stats(pp: f64, hits: i64, playtime: i64) -> UserStats {
    UserStats {
        user_id: 0,
        username: String::new(),
        pp: to_real(pp),
        rank: 0,
        country_rank: 0,
        country_code: "XX".to_string(),
        ranked_score: 0,
        accuracy: to_real(0.0),
        playcount: 0,
        hits,
        playtime,
        rank_change: None,
        country_rank_change: None,
        cover_url: None,
    }
}

fn hours_before(now: UtcTime, hours: i64) -> UtcTime {
    now.back_hours(hours).expect("in range")
}

#[test]
fn batch_baseline_returns_closest_snapshot_for_each_user() {
    let mut storage = Storage::new();
    let now = utc_now();
    let mode = GameMode::Osu;

    storage.save_stats_at(101, mode, &test_stats(101.30, 1_030, 10_130), hours_before(now, 30));
    storage.save_stats_at(101, mode, &test_stats(101.23, 1_023, 10_123), hours_before(now, 23));
    storage.save_stats_at(202, mode, &test_stats(202.25, 2_025, 20_225), hours_before(now, 25));
    storage.save_stats_at(
        202,
        GameMode::Taiko,
        &test_stats(999.0, 9_999, 99_999),
        hours_before(now, 24),
    );
    storage.save_stats_at(303, mode, &test_stats(303.40, 3_040, 30_340), hours_before(now, 40));

    let baselines = storage
        .get_baseline_snapshots_for_users(&[101, 202, 303], mode, 24, 36)
        .expect("batch baseline query succeeds");

    assert_eq!(baselines.len(), 2);
    assert_eq!(baselines.get(&101).expect("user 101 baseline").pp, Some(to_real(101.23)));
    assert_eq!(baselines.get(&202).expect("user 202 baseline").pp, Some(to_real(202.25)));
    assert!(!baselines.contains_key(&303));
}

#[test]
fn batch_baseline_tolerates_duplicate_user_ids_and_handles_empty_input() {
    let mut storage = Storage::new();
    let now = utc_now();
    let mode = GameMode::Osu;

    let empty = storage
        .get_baseline_snapshots_for_users(&[], mode, 24, 36)
        .expect("empty batch query succeeds");
    assert!(empty.is_empty());

    storage.save_stats_at(404, mode, &test_stats(404.0, 4_040, 40_400), hours_before(now, 24));

    let baselines = storage
        .get_baseline_snapshots_for_users(&[404, 404, 404], mode, 24, 36)
        .expect("duplicate user IDs batch query succeeds");

    assert_eq!(baselines.len(), 1);
    assert_eq!(baselines.get(&404).expect("user 404 baseline").hits, Some(4_040));
}

#[test]
fn test_set_and_get_default_mode() {
    let mut storage = Storage::new();
    storage.bind(10001, 12345, "test_user").unwrap();

    assert_eq!(storage.get_default_mode(10001).unwrap(), Some(GameMode::Osu));

    assert!(storage.set_default_mode(10001, GameMode::Taiko));
    assert_eq!(storage.get_default_mode(10001).unwrap(), Some(GameMode::Taiko));

    assert!(storage.set_default_mode(10001, GameMode::Mania));
    assert_eq!(storage.get_default_mode(10001).unwrap(), Some(GameMode::Mania));
}

#[test]
fn test_find_qq_by_username_case_insensitive() {
    let mut storage = Storage::new();
    storage.bind(10001, 12345, "TestUser").unwrap();

    assert_eq!(storage.find_qq_by_username("testuser"), Some(10001));
    assert_eq!(storage.find_qq_by_username("TESTUSER"), Some(10001));
    assert_eq!(storage.find_qq_by_username("TestUser"), Some(10001));

    assert_eq!(storage.find_qq_by_username("nobody"), None);
}

#[test]
fn test_set_default_mode_catch() {
    let mut storage = Storage::new();
    storage.bind(10001, 12345, "test_user").unwrap();

    assert!(storage.set_default_mode(10001, GameMode::Catch));
    assert_eq!(storage.get_default_mode(10001).unwrap(), Some(GameMode::Catch));
}

#[test]
fn test_default_mode_unbound_qq() {
    let mut storage = Storage::new();
    assert_eq!(storage.get_default_mode(99999).unwrap(), None);
    assert!(!storage.set_default_mode(99999, GameMode::Mania));
}

#[test]
fn test_default_mode_after_unbind_rebind() {
    let mut storage = Storage::new();
    storage.bind(10001, 12345, "test_user").unwrap();
    storage.set_default_mode(10001, GameMode::Taiko);
    assert_eq!(storage.get_default_mode(10001).unwrap(), Some(GameMode::Taiko));

    storage.unbind(10001);
    assert_eq!(storage.get_default_mode(10001).unwrap(), None);

    storage.bind(10001, 12345, "test_user").unwrap();
    assert_eq!(storage.get_default_mode(10001).unwrap(), Some(GameMode::Osu));
}

#[test]
fn test_find_qq_after_username_update() {
    let mut storage = Storage::new();
    storage.bind(10001, 12345, "OldName").unwrap();

    assert_eq!(storage.find_qq_by_username("OldName"), Some(10001));

    storage.update_binding_username(10001, "NewName");

    assert_eq!(storage.find_qq_by_username("OldName"), None);
    assert_eq!(storage.find_qq_by_username("NewName"), Some(10001));
}
