use osubot_core::rows::HistoryRow;
use osubot_core::snapshots::{change_since, closest_snapshot};
use osubot_core::storage::Storage;
use osubot_core::time::{utc_now, UtcTime};
use osubot_core::types::{
    GameMode, Real, RealChange, StorageError, UserChange, UserStats, UserStatsSnapshot,
};

const NOW: UtcTime = UtcTime { secs: 1_700_000_000, nanos: 250_000_000 };

fn bits(x: f64) -> Real {
    Real { bits: x.to_bits() }
}

fn stats(rank: i64, playcount: i64) -> UserStats {
    UserStats {
        user_id: 5,
        username: "five".to_string(),
        country_code: "XX".to_string(),
        pp: bits(100.5),
        rank,
        country_rank: 7,
        ranked_score: 9,
        accuracy: bits(0.5),
        playcount,
        hits: 11,
        playtime: 13,
        rank_change: None,
        country_rank_change: None,
        cover_url: None,
    }
}

fn hours_ago(hours: i64) -> UtcTime {
    NOW.back_hours(hours).unwrap()
}

#[test]
fn the_latest_snapshot_is_the_last_in_time() {
    let mut storage = Storage::new();
    assert_eq!(storage.get_latest_snapshot(5, GameMode::Osu), None);
    storage.save_stats_at(5, GameMode::Osu, &stats(1, 1), hours_ago(1));
    storage.save_stats_at(5, GameMode::Osu, &stats(2, 2), hours_ago(3));
    storage.save_stats_at(5, GameMode::Taiko, &stats(3, 3), hours_ago(0));
    storage.save_stats_at(6, GameMode::Osu, &stats(4, 4), hours_ago(0));
    let latest = storage.get_latest_snapshot(5, GameMode::Osu).unwrap();
    assert_eq!(latest, UserStatsSnapshot::of(&stats(1, 1)));
    storage.save_stats(5, GameMode::Osu, &stats(9, 9));
    assert_eq!(storage.get_latest_snapshot(5, GameMode::Osu).unwrap().rank, Some(9));
}

#[test]
fn the_first_snapshot_of_an_instant_is_kept() {
    let mut storage = Storage::new();
    storage.save_stats_at(5, GameMode::Osu, &stats(1, 1), NOW);
    storage.save_stats_at(5, GameMode::Osu, &stats(2, 2), NOW);
    assert_eq!(storage.tables().history.len(), 1);
    assert_eq!(storage.get_latest_snapshot(5, GameMode::Osu).unwrap().rank, Some(1));
}

#[test]
fn what_is_not_a_number_is_not_kept() {
    let mut storage = Storage::new();
    let mut s = stats(1, 1);
    s.pp = bits(f64::NAN);
    s.accuracy = bits(f64::NEG_INFINITY);
    storage.save_stats_at(5, GameMode::Osu, &s, NOW);
    let kept = storage.get_latest_snapshot(5, GameMode::Osu).unwrap();
    assert_eq!(kept.pp, None);
    assert_eq!(kept.accuracy, Some(bits(f64::NEG_INFINITY)));
}

#[test]
fn snapshots_of_the_last_hours_are_in_order_and_dated() {
    let mut storage = Storage::new();
    for hours in [2, 5, 1, 9] {
        storage.save_stats_at(5, GameMode::Osu, &stats(hours, 1), hours_ago(hours));
    }
    let found = storage.get_snapshots_within_hours_at(5, GameMode::Osu, 5, NOW).unwrap();
    let ranks: Vec<Option<i64>> = found.iter().map(|(_, s)| s.rank).collect();
    assert_eq!(ranks, vec![Some(5), Some(2), Some(1)]);
    assert_eq!(found[0].0, hours_ago(5));
    assert_eq!(
        storage.get_snapshots_within_hours_at(5, GameMode::Osu, i64::MAX, NOW),
        Err(StorageError::TimeOutOfRange)
    );
    assert_eq!(StorageError::TimeOutOfRange.message(), "instant out of range");
    assert!(storage.get_snapshots_within_hours(5, GameMode::Osu, 1).unwrap().is_empty());
    storage.save_stats(5, GameMode::Osu, &stats(1, 1));
    assert_eq!(storage.get_snapshots_within_hours(5, GameMode::Osu, 1).unwrap().len(), 1);
}

#[test]
fn a_snapshot_whose_instant_cannot_be_read_is_passed_over() {
    let mut tables = Storage::new().into_tables();
    tables.history.push(HistoryRow {
        user_id: 5,
        mode: 0,
        recorded_at: "yesterday".to_string(),
        stats: UserStatsSnapshot::of(&stats(1, 1)),
    });
    let storage = Storage::from_tables(tables).unwrap();
    assert!(storage.get_snapshots_within_hours_at(5, GameMode::Osu, 1, NOW).unwrap().is_empty());
    assert_eq!(storage.get_baseline_snapshot_at(5, GameMode::Osu, NOW), None);
    assert!(storage.get_latest_snapshot(5, GameMode::Osu).is_some());
}

#[test]
fn the_baseline_is_closest_to_a_day_ago() {
    let mut storage = Storage::new();
    assert_eq!(storage.get_baseline_snapshot_at(5, GameMode::Osu, NOW), None);
    for hours in [37, 30, 20, 1] {
        storage.save_stats_at(5, GameMode::Osu, &stats(hours, 1), hours_ago(hours));
    }
    let baseline = storage.get_baseline_snapshot_at(5, GameMode::Osu, NOW).unwrap();
    assert_eq!(baseline.rank, Some(20));
    let batch =
        storage.get_baseline_snapshots_for_users_at(&[5, 6], GameMode::Osu, 24, 36, NOW).unwrap();
    assert_eq!(batch.len(), 1);
    assert_eq!(batch.get(&5), Some(&baseline));
    assert!(storage
        .get_baseline_snapshots_for_users_at(&[5], GameMode::Osu, i64::MAX, 36, NOW)
        .is_err());
    assert!(storage
        .get_baseline_snapshots_for_users_at(&[], GameMode::Osu, i64::MAX, 36, NOW)
        .unwrap()
        .is_empty());
    assert_eq!(storage.get_baseline_snapshot(5, GameMode::Osu), None);
    storage.save_stats(5, GameMode::Osu, &stats(77, 1));
    assert_eq!(storage.get_baseline_snapshot(5, GameMode::Osu).unwrap().rank, Some(77));
}

#[test]
fn of_two_equally_close_snapshots_the_first_is_taken() {
    let s = |n: i64| UserStatsSnapshot::of(&stats(n, 1));
    let at = |secs: i64| UtcTime { secs, nanos: 0 };
    let all = vec![(at(90), s(1)), (at(110), s(2)), (at(90), s(3))];
    assert_eq!(closest_snapshot(&all, at(100)), Some((at(90), s(1))));
    assert_eq!(closest_snapshot(&all, at(101)), Some((at(110), s(2))));
    assert_eq!(closest_snapshot(&Vec::new(), at(101)), None);
}

#[test]
fn the_closest_snapshot_is_looked_for_in_the_lookback_only() {
    let mut storage = Storage::new();
    storage.save_stats_at(5, GameMode::Osu, &stats(10, 1), hours_ago(10));
    storage.save_stats_at(5, GameMode::Osu, &stats(2, 1), hours_ago(2));
    let (when, s) =
        storage.get_closest_snapshot_to_hours_ago_at(5, GameMode::Osu, 9, 8, NOW).unwrap().unwrap();
    assert_eq!((when, s.rank), (hours_ago(2), Some(2)));
    let (when, _) = storage
        .get_closest_snapshot_to_hours_ago_at(5, GameMode::Osu, 9, 10, NOW)
        .unwrap()
        .unwrap();
    assert_eq!(when, hours_ago(10));
    assert_eq!(storage.get_closest_snapshot_to_hours_ago_at(5, GameMode::Osu, 9, 1, NOW), Ok(None));
    assert_eq!(
        storage.get_closest_snapshot_to_hours_ago(5, GameMode::Osu, 9, i64::MIN),
        Err(StorageError::TimeOutOfRange)
    );
    let text_before_instant = HistoryRow {
        user_id: 6,
        mode: 0,
        recorded_at: "2023-11-14T22:13:20+12:00".to_string(),
        stats: UserStatsSnapshot::of(&stats(1, 1)),
    };
    let mut tables = storage.into_tables();
    tables.history.push(text_before_instant);
    let storage = Storage::from_tables(tables).unwrap();
    assert_eq!(storage.get_snapshots_within_hours_at(6, GameMode::Osu, 1, NOW).unwrap().len(), 1);
    assert_eq!(storage.get_closest_snapshot_to_hours_ago_at(6, GameMode::Osu, 1, 1, NOW), Ok(None));
}

#[test]
fn the_change_of_a_day_is_calculated() {
    let mut storage = Storage::new();
    let current = stats(90, 130);
    assert_eq!(storage.calculate_change_at(5, GameMode::Osu, &current, NOW), Ok(None));
    let mut past = stats(100, 100);
    past.country_rank = 0;
    past.hits = 20;
    past.pp = bits(99.5);
    storage.save_stats_at(5, GameMode::Osu, &past, hours_ago(25));
    let expected = UserChange {
        rank_change: Some(10),
        country_rank_change: None,
        pp_change: Some(RealChange { current: bits(100.5), past: bits(99.5) }),
        accuracy_change: Some(RealChange { current: bits(0.5), past: bits(0.5) }),
        playcount_change: Some(30),
        hits_change: Some(-9),
        playtime_change: Some(0),
    };
    assert_eq!(storage.calculate_change_at(5, GameMode::Osu, &current, NOW), Ok(Some(expected)));
    assert_eq!(storage.calculate_change(5, GameMode::Osu, &current), Ok(None));
    storage.save_stats(5, GameMode::Osu, &past);
    assert_eq!(storage.calculate_change(5, GameMode::Osu, &current), Ok(Some(expected)));
}

#[test]
fn a_change_that_does_not_fit_is_refused() {
    let current = stats(i64::MIN, 1);
    let past = UserStatsSnapshot::of(&stats(1, 1));
    let error = change_since(&current, past).unwrap_err();
    assert_eq!(error, StorageError::ChangeOutOfRange);
    assert_eq!(error.message(), "change out of range");
    let mut storage = Storage::new();
    let now = utc_now();
    storage.save_stats_at(5, GameMode::Osu, &stats(1, 1), now);
    assert_eq!(
        storage.calculate_change_at(5, GameMode::Osu, &current, now),
        Err(StorageError::ChangeOutOfRange)
    );
}

#[test]
fn a_snapshot_is_completed_with_zeros() {
    let empty = UserStatsSnapshot {
        pp: None,
        rank: None,
        country_rank: None,
        ranked_score: None,
        accuracy: None,
        playcount: None,
        hits: Some(4),
        playtime: None,
    };
    let full = empty.into_user_stats(3, "three", "NZ");
    assert_eq!((full.user_id, full.username.as_str(), full.country_code.as_str()), (3, "three", "NZ"));
    assert_eq!(full.pp, bits(0.0));
    assert_eq!((full.rank, full.country_rank, full.ranked_score), (0, 0, 0));
    assert_eq!((full.accuracy, full.playcount, full.hits, full.playtime), (bits(0.0), 0, 4, 0));
    assert!(full.rank_change.is_none() && full.country_rank_change.is_none());
    assert!(full.cover_url.is_none());
}

#[test]
fn a_batch_is_each_player_alone() {
    let mut storage = Storage::new();
    for user_id in [5, 6, 7] {
        for hours in [3, 10, 11, 26] {
            let taken = hours_ago(hours + user_id);
            storage.save_stats_at(user_id, GameMode::Osu, &stats(hours, user_id), taken);
        }
    }
    for (target, lookback) in [(0, 8), (10, 12), (16, 17), (24, 36), (40, 1), (9, 500), (-3, 0)] {
        let of = |ids: &[i64]| {
            storage
                .get_baseline_snapshots_for_users_at(ids, GameMode::Osu, target, lookback, NOW)
                .unwrap()
        };
        let all = of(&[5, 6, 7, 8]);
        for user_id in [5, 6, 7, 8] {
            let alone = of(&[user_id]);
            assert_eq!(alone.get(&user_id), all.get(&user_id));
            let closest = storage
                .get_closest_snapshot_to_hours_ago_at(user_id, GameMode::Osu, target, lookback, NOW)
                .unwrap();
            assert_eq!(closest.map(|(_, s)| s).as_ref(), all.get(&user_id));
        }
    }
    let batch =
        storage.get_baseline_snapshots_for_users_at(&[5, 6], GameMode::Osu, 24, 36, NOW).unwrap();
    let single = storage.get_baseline_snapshot_at(6, GameMode::Osu, NOW);
    assert_eq!(batch.get(&6), single.as_ref());
    assert_eq!(single.unwrap().rank, Some(11));
}

#[test]
fn snapshots_are_dated_in_text() {
    let mut storage = Storage::new();
    storage.save_stats_at(5, GameMode::Osu, &stats(1, 1), NOW);
    storage.save_stats_at(5, GameMode::Osu, &stats(2, 2), hours_ago(1));
    let texts: Vec<&str> =
        storage.tables().history.iter().map(|h| h.recorded_at.as_str()).collect();
    assert_eq!(texts, vec!["2023-11-14T21:13:20.250+00:00", "2023-11-14T22:13:20.250+00:00"]);
    assert_eq!(UtcTime::parse(texts[1]), Some(NOW));
}
