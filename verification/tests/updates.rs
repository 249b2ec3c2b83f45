use osubot_core::rows::{LastUpdateRow, NextUpdateRow};
use osubot_core::storage::Storage;
use osubot_core::time::{utc_now, UtcTime, MAX_SECS, MIN_SECS};
use osubot_core::types::{GameMode, Real, UserStats};

const NOW: UtcTime = UtcTime { secs: 1_700_000_000, nanos: 250_000_000 };

fn plain_stats() -> UserStats {
    UserStats {
        user_id: 5,
        username: "five".to_string(),
        country_code: "XX".to_string(),
        pp: Real { bits: 0 },
        rank: 1,
        country_rank: 1,
        ranked_score: 1,
        accuracy: Real { bits: 0 },
        playcount: 1,
        hits: 1,
        playtime: 1,
        rank_change: None,
        country_rank_change: None,
        cover_url: None,
    }
}

#[test]
fn plays_are_saved_once() {
    let mut storage = Storage::new();
    assert_eq!(storage.save_play_records(5, GameMode::Osu, &[]), 0);
    assert_eq!(storage.save_play_records(5, GameMode::Osu, &[30, 10, 30, 20]), 3);
    assert_eq!(storage.save_play_records(5, GameMode::Osu, &[10, 40, 10]), 1);
    assert_eq!(storage.save_play_records(5, GameMode::Taiko, &[10]), 1);
    assert_eq!(storage.tables().plays.len(), 5);
    assert!(storage.has_play_since(5, GameMode::Osu, 40));
    assert!(storage.has_play_since(5, GameMode::Osu, i64::MIN));
    assert!(!storage.has_play_since(5, GameMode::Osu, 41));
    assert!(storage.has_play_since(5, GameMode::Taiko, 10));
    assert!(!storage.has_play_since(5, GameMode::Taiko, 11));
    assert!(!storage.has_play_since(6, GameMode::Osu, 0));
    assert!(!storage.has_play_since(4, GameMode::Osu, 0));
}

#[test]
fn the_last_update_reads_back() {
    let mut storage = Storage::new();
    assert_eq!(storage.get_last_update(5, GameMode::Osu), None);
    storage.set_last_update(5, GameMode::Osu, NOW);
    assert_eq!(storage.get_last_update(5, GameMode::Osu), Some(NOW));
    let later = NOW.checked_add(7).unwrap();
    storage.set_last_update(5, GameMode::Osu, later);
    assert_eq!(storage.get_last_update(5, GameMode::Osu), Some(later));
    assert_eq!(storage.get_last_update(5, GameMode::Catch), None);
    assert_eq!(storage.tables().last_updates.len(), 1);
}

#[test]
fn a_last_update_that_cannot_be_read_is_none() {
    let mut tables = Storage::new().into_tables();
    tables.last_updates.push(LastUpdateRow { user_id: 5, mode: 0, last_update: "?".to_string() });
    let storage = Storage::from_tables(tables).unwrap();
    assert_eq!(storage.get_last_update(5, GameMode::Osu), None);
}

#[test]
fn the_next_update_reads_back_to_the_second() {
    let mut storage = Storage::new();
    assert_eq!(storage.get_next_update(5, GameMode::Osu), None);
    storage.set_next_update(5, GameMode::Osu, NOW);
    let expected = UtcTime { secs: NOW.secs, nanos: 0 };
    assert_eq!(storage.get_next_update(5, GameMode::Osu), Some(expected));
}

#[test]
fn a_next_update_out_of_range_counts_as_now() {
    let mut tables = Storage::new().into_tables();
    tables.next_updates.push(NextUpdateRow { user_id: 5, mode: 0, next_update: MAX_SECS + 1 });
    let storage = Storage::from_tables(tables).unwrap();
    assert_eq!(storage.get_next_update_at(5, GameMode::Osu, NOW), Some(NOW));
    let before = utc_now();
    let shown = storage.get_next_update(5, GameMode::Osu).unwrap();
    assert!(!shown.is_before(before));
}

#[test]
fn due_players_are_those_whose_time_has_come_and_new_ones() {
    let mut storage = Storage::new();
    let at = |secs: i64| UtcTime { secs, nanos: 0 };
    storage.bind(1, 10, "ten").unwrap();
    storage.bind(2, 20, "twenty").unwrap();
    storage.set_next_update(20, GameMode::Mania, at(100));
    storage.set_next_update(30, GameMode::Taiko, at(50));
    storage.set_next_update(40, GameMode::Osu, at(101));
    assert_eq!(
        storage.get_due_users_at(100),
        vec![(20, GameMode::Mania), (30, GameMode::Taiko), (10, GameMode::Osu)]
    );
    assert_eq!(
        storage.get_due_users_at(99),
        vec![(30, GameMode::Taiko), (10, GameMode::Osu)]
    );
    assert_eq!(storage.get_due_users().len(), 4);
    assert_eq!(storage.reset_all_next_updates_at(500), 3);
    assert_eq!(storage.get_due_users_at(499), vec![(10, GameMode::Osu)]);
    assert_eq!(storage.get_due_users_at(500).len(), 4);
    assert_eq!(storage.reset_all_next_updates(), 3);
    assert_eq!(storage.get_due_users_at(500), vec![(10, GameMode::Osu)]);
}

#[test]
fn a_number_that_is_no_mode_counts_as_osu() {
    let mut tables = Storage::new().into_tables();
    tables.next_updates.push(NextUpdateRow { user_id: 5, mode: 9, next_update: 0 });
    let storage = Storage::from_tables(tables).unwrap();
    assert_eq!(storage.get_due_users_at(0), vec![(5, GameMode::Osu)]);
}

#[test]
fn old_records_are_pruned() {
    let mut storage = Storage::new();
    let day = 86_400;
    storage.bind(1, 5, "five").unwrap();
    for days in [1, 2, 3] {
        let when = NOW.checked_add(-days * day).unwrap();
        storage.save_stats_at(5, GameMode::Osu, &plain_stats(), when);
        storage.save_play_records(5, GameMode::Osu, &[when.secs]);
    }
    storage.set_next_update(5, GameMode::Osu, NOW);
    storage.set_next_update(6, GameMode::Osu, NOW);
    storage.set_next_update(6, GameMode::Taiko, NOW);
    assert_eq!(storage.prune_old_records_at(2, NOW), Ok((1, 1, 2)));
    assert_eq!(storage.prune_old_records_at(2, NOW), Ok((0, 0, 0)));
    assert_eq!(storage.tables().history.len(), 2);
    assert!(storage.get_next_update(5, GameMode::Osu).is_some());
    assert_eq!(storage.prune_old_records_at(u64::MAX / 2, NOW), Ok((0, 0, 0)));
    assert_eq!(storage.prune_old_records_at(u64::MAX, NOW), Ok((0, 0, 0)));
    assert_eq!(storage.tables().history.len(), 2);
    storage.save_play_records(5, GameMode::Osu, &[utc_now().secs, 0]);
    assert_eq!(storage.prune_old_records(1), Ok((2, 3, 0)));
}

#[test]
fn a_retention_beyond_the_calendar_keeps_every_record() {
    let mut storage = Storage::new();
    assert_eq!(storage.save_play_records(1, GameMode::Osu, &[100]), 1);
    storage.save_stats_at(1, GameMode::Osu, &plain_stats(), NOW);
    for days in [u64::MAX, u64::MAX / 2, i64::MAX as u64, i64::MAX as u64 + 1, 100_000_000] {
        assert_eq!(storage.prune_old_records(days), Ok((0, 0, 0)));
        assert!(storage.has_play_since(1, GameMode::Osu, 100));
        assert!(storage.get_latest_snapshot(1, GameMode::Osu).is_some());
    }
    storage.set_next_update(1, GameMode::Osu, NOW);
    assert_eq!(storage.prune_old_records(u64::MAX), Ok((0, 0, 1)));
    assert_eq!(storage.prune_old_records(0), Ok((1, 1, 0)));
}

#[test]
fn the_calendar_ends_between_two_retentions() {
    let first = UtcTime { secs: MIN_SECS, nanos: 0 };
    let now = first.checked_add(3 * 86_400).unwrap();
    let mut storage = Storage::new();
    storage.save_play_records(1, GameMode::Osu, &[MIN_SECS - 1, MIN_SECS]);
    assert_eq!(storage.prune_old_records_at(4, now), Ok((0, 0, 0)));
    assert_eq!(storage.prune_old_records_at(3, now), Ok((0, 1, 0)));
    assert_eq!(storage.prune_old_records_at(2, now), Ok((0, 1, 0)));
}
