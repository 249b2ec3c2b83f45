use osubot_core::scheduler::{
    activity_when_idle, wants_snapshot, ApiError, CleanupTask, EvalStep, Evaluation, Failed, Reply,
    RunAction, RunEvent, Scheduler, SchedulerConfig, UpdateResult, UserActivity,
};
use osubot_core::storage::Storage;
use osubot_core::time::{utc_now, UtcTime};
use osubot_core::types::{GameMode, Real, StorageError, UserStats, UserStatsSnapshot};

const NOW: UtcTime = UtcTime { secs: 1_700_000_000, nanos: 250_000_000 };

fn config() -> SchedulerConfig {
    SchedulerConfig {
        interval_minutes: 10,
        retention_days: 90,
        cache_retention_days: 7,
        max_cache_size_bytes: 1_000,
        semi_active_interval_hours: 1,
        normal_interval_hours: 6,
        inactive_interval_hours: 24,
        no_recent_interval_hours: 12,
        user_not_exists_interval_hours: 168,
        group_trigger_cooldown_hours: 2,
    }
}

fn stats(name: &str, rank: i64, playcount: i64) -> UserStats {
    UserStats {
        user_id: 5,
        username: name.to_string(),
        country_code: "XX".to_string(),
        pp: Real { bits: 0 },
        rank,
        country_rank: 1,
        ranked_score: 1,
        accuracy: Real { bits: 0 },
        playcount,
        hits: 1,
        playtime: 1,
        rank_change: None,
        country_rank_change: None,
        cover_url: None,
    }
}

/// Runs an evaluation on a storage that does not fail, with the given replies of the world.
fn evaluate(
    storage: &mut Storage,
    permit: bool,
    fetched: Result<UserStats, ApiError>,
    recent: Result<Vec<String>, ApiError>,
    day_start: i64,
) -> UpdateResult {
    let mut e = Evaluation::start(5, GameMode::Osu, NOW);
    for _ in 0..20 {
        let reply = match &e.step {
            EvalStep::AcquirePermit => Reply::Permit(permit),
            EvalStep::FetchStats => Reply::Stats(fetched.clone()),
            EvalStep::FetchRecent => Reply::Recent(recent.clone()),
            EvalStep::FindDayStart { .. } => Reply::DayStart(day_start),
            EvalStep::Done(result) => return *result,
            _ => storage.perform(&e, NOW),
        };
        e = e.advance(reply);
    }
    panic!("the evaluation does not end");
}

fn done(activity: UserActivity, success: bool) -> UpdateResult {
    UpdateResult { activity, success }
}

#[test]
fn without_permit_or_answer_there_is_no_success() {
    let mut storage = Storage::new();
    let none = || Ok(Vec::new());
    let ok = || Ok(stats("five", 1, 1));
    assert_eq!(
        evaluate(&mut storage, false, ok(), none(), 0),
        done(UserActivity::NoRecent, false)
    );
    for error in [
        ApiError::RateLimitedWithRetryAfter(3),
        ApiError::ClientRateLimited,
        ApiError::Other,
    ] {
        assert_eq!(
            evaluate(&mut storage, true, Err(error), none(), 0),
            done(UserActivity::NoRecent, false)
        );
    }
    assert_eq!(
        evaluate(&mut storage, true, Err(ApiError::NotFound), none(), 0),
        done(UserActivity::UserNotExists, true)
    );
    assert_eq!(storage.get_latest_snapshot(5, GameMode::Osu), None);
}

#[test]
fn an_evaluation_renames_saves_and_notes() {
    let mut storage = Storage::new();
    storage.bind(1, 5, "old").unwrap();
    let play = UtcTime { secs: NOW.secs - 3_600, nanos: 0 }.to_rfc3339();
    let recent = vec![play.clone(), "no instant".to_string()];
    let result = evaluate(&mut storage, true, Ok(stats("New", 9, 8)), Ok(recent), NOW.secs);
    assert_eq!(result, done(UserActivity::SemiActive, true));
    assert_eq!(storage.get_binding(1), Some((5, "New".to_string())));
    assert_eq!(storage.get_user_id("new"), Some(5));
    assert_eq!(storage.get_latest_snapshot(5, GameMode::Osu).unwrap().rank, Some(9));
    assert_eq!(storage.tables().plays.len(), 1);
    assert_eq!(storage.get_last_update(5, GameMode::Osu), Some(NOW));
}

#[test]
fn activity_goes_by_the_plays() {
    let start = NOW.secs - 10 * 3_600;
    let fetched = || Ok(stats("five", 1, 1));
    let mut storage = Storage::new();
    storage.save_play_records(5, GameMode::Osu, &[NOW.secs - 4 * 3_600]);
    assert_eq!(
        evaluate(&mut storage, true, fetched(), Err(ApiError::Other), start),
        done(UserActivity::SemiActive, true)
    );
    let mut storage = Storage::new();
    storage.save_play_records(5, GameMode::Osu, &[NOW.secs - 4 * 3_600 - 1]);
    assert_eq!(
        evaluate(&mut storage, true, fetched(), Ok(Vec::new()), start),
        done(UserActivity::Normal, true)
    );
    assert_eq!(storage.get_last_update(5, GameMode::Osu), Some(NOW));
    let mut storage = Storage::new();
    storage.save_play_records(5, GameMode::Osu, &[start - 1]);
    assert_eq!(
        evaluate(&mut storage, true, fetched(), Ok(Vec::new()), start),
        done(UserActivity::Inactive, true)
    );
    storage.set_last_update(5, GameMode::Osu, NOW.back_hours(9).unwrap());
    assert_eq!(
        evaluate(&mut storage, true, fetched(), Ok(Vec::new()), start),
        done(UserActivity::Normal, true)
    );
    assert_eq!(storage.get_last_update(5, GameMode::Osu), NOW.back_hours(9));
}

#[test]
fn idle_players_go_by_their_last_activity() {
    let idle = |hours: i64| activity_when_idle(NOW, NOW.back_hours(hours));
    assert_eq!(idle(0), UserActivity::NoRecent);
    assert_eq!(idle(7), UserActivity::NoRecent);
    assert_eq!(idle(8), UserActivity::Normal);
    assert_eq!(idle(47), UserActivity::Normal);
    assert_eq!(idle(48), UserActivity::Inactive);
    assert_eq!(idle(-5), UserActivity::NoRecent);
    assert_eq!(activity_when_idle(NOW, None), UserActivity::Inactive);
}

#[test]
fn snapshots_are_saved_when_rank_or_plays_differ() {
    let now = stats("five", 3, 4);
    let prev = |rank: Option<i64>, playcount: Option<i64>| {
        let mut s = UserStatsSnapshot::of(&now);
        s.rank = rank;
        s.playcount = playcount;
        s.hits = Some(999);
        Ok(Some(s))
    };
    assert!(!wants_snapshot(&prev(Some(3), Some(4)), &now));
    assert!(wants_snapshot(&prev(Some(2), Some(4)), &now));
    assert!(wants_snapshot(&prev(Some(3), Some(5)), &now));
    assert!(wants_snapshot(&prev(None, Some(4)), &now));
    assert!(!wants_snapshot(&prev(None, None), &stats("five", 0, 0)));
    assert!(wants_snapshot(&Ok(None), &now));
    assert!(wants_snapshot(&Err(Failed), &now));
}

#[test]
fn what_cannot_be_read_counts_as_not_there() {
    let e = Evaluation { user_id: 5, mode: GameMode::Osu, now: NOW, step: EvalStep::CheckRecent { since: 0 } };
    let e = e.advance(Reply::Played(Err(Failed)));
    assert!(matches!(e.step, EvalStep::FindDayStart { has_recent: false }));
    let e = e.advance(Reply::DayStart(17));
    assert!(matches!(e.step, EvalStep::CheckToday { has_recent: false, since: 17 }));
    let e = e.advance(Reply::Played(Err(Failed)));
    assert!(matches!(e.step, EvalStep::ReadLastUpdate));
    let e = e.advance(Reply::LastUpdate(Err(Failed)));
    assert!(matches!(
        e.step,
        EvalStep::Done(UpdateResult { activity: UserActivity::Inactive, success: true })
    ));
}

#[test]
fn failed_writes_do_not_stop_an_evaluation() {
    let step = |step: EvalStep, reply: Reply| {
        Evaluation { user_id: 5, mode: GameMode::Osu, now: NOW, step }.advance(reply).step
    };
    let s = || stats("five", 1, 1);
    let next = step(EvalStep::RenameBindings { stats: s() }, Reply::Renamed(Err(Failed)));
    assert!(matches!(next, EvalStep::CacheUserId { .. }));
    let next = step(EvalStep::CacheUserId { stats: s() }, Reply::Cached(Err(Failed)));
    assert!(matches!(next, EvalStep::ReadLatest { .. }));
    let next = step(EvalStep::SaveStats { stats: s() }, Reply::Saved(Err(Failed)));
    assert!(matches!(next, EvalStep::FetchRecent));
    let next = step(EvalStep::SavePlays { timestamps: vec![] }, Reply::PlaysSaved(Err(Failed)));
    assert!(matches!(next, EvalStep::CheckRecent { since } if since == NOW.secs - 14_400));
    let activity = UserActivity::SemiActive;
    let next = step(EvalStep::MarkActive { activity }, Reply::Marked(Err(Failed)));
    assert!(matches!(next, EvalStep::Done(r) if r == done(activity, true)));
}

#[test]
fn the_task_waits_works_and_cleans_up_in_turn() {
    let mut scheduler = Scheduler::new(config());
    assert_eq!(scheduler.run(RunEvent::Started), RunAction::Wait(600));
    assert_eq!(scheduler.run(RunEvent::Elapsed), RunAction::ProcessDueUsers);
    assert_eq!(scheduler.run(RunEvent::Processed), RunAction::TryCleanup);
    assert_eq!(scheduler.run(RunEvent::CleanedUp), RunAction::Wait(600));
    assert_eq!(scheduler.run(RunEvent::ShutdownSignalled), RunAction::Stop);
    scheduler.config.interval_minutes = 0;
    assert_eq!(scheduler.run(RunEvent::Started), RunAction::Wait(60));
    scheduler.shutdown();
    assert_eq!(scheduler.run(RunEvent::Started), RunAction::Stop);
    assert_eq!(scheduler.run(RunEvent::CleanedUp), RunAction::Stop);
}

#[test]
fn the_cleanup_is_done_once_a_day() {
    let mut scheduler = Scheduler::new(config());
    let tasks = scheduler.try_cleanup(NOW);
    assert_eq!(
        tasks,
        vec![
            CleanupTask::PruneRecords(90),
            CleanupTask::PrunePendingBinds,
            CleanupTask::PrunePendingUnbinds,
            CleanupTask::RenderedByAge(7),
            CleanupTask::RenderedBySize(1_000),
            CleanupTask::Replays(7),
            CleanupTask::Beatmaps(7),
            CleanupTask::Previews(7),
            CleanupTask::BeatmapAudio(7),
        ]
    );
    scheduler.finish_cleanup(NOW);
    assert!(scheduler.try_cleanup(NOW.checked_add(86_399).unwrap()).is_empty());
    assert_eq!(scheduler.try_cleanup(NOW.checked_add(86_400).unwrap()).len(), 9);
}

#[test]
fn the_next_look_goes_by_the_activity() {
    let scheduler = Scheduler::new(config());
    let mut storage = Storage::new();
    for (activity, hours) in [
        (UserActivity::SemiActive, 1),
        (UserActivity::Normal, 6),
        (UserActivity::Inactive, 24),
        (UserActivity::NoRecent, 12),
        (UserActivity::UserNotExists, 168),
    ] {
        let result = done(activity, true);
        assert_eq!(scheduler.update_next_time(&mut storage, 5, GameMode::Osu, result, NOW), Ok(()));
        let next = storage.get_next_update(5, GameMode::Osu).unwrap();
        assert_eq!(next.secs, NOW.secs + hours * 3_600);
        let result = done(activity, false);
        assert_eq!(scheduler.update_next_time(&mut storage, 5, GameMode::Osu, result, NOW), Ok(()));
        assert_eq!(storage.get_next_update(5, GameMode::Osu).unwrap().secs, NOW.secs + 300);
    }
    let mut far = config();
    far.normal_interval_hours = i64::MAX;
    assert_eq!(
        Scheduler::new(far).update_next_time(
            &mut storage,
            5,
            GameMode::Osu,
            done(UserActivity::Normal, true),
            NOW
        ),
        Err(StorageError::TimeOutOfRange)
    );
}

#[test]
fn a_trigger_makes_due_unless_in_cooldown() {
    let scheduler = Scheduler::new(config());
    let mut storage = Storage::new();
    let mode = GameMode::Taiko;
    assert_eq!(scheduler.is_in_cooldown_at(&storage, 5, mode, NOW), Ok(false));
    assert_eq!(scheduler.trigger_update_at(&mut storage, 5, mode, NOW), Ok(()));
    assert_eq!(storage.get_due_users_at(NOW.secs), vec![(5, mode)]);
    storage.set_last_update(5, mode, NOW);
    storage.set_next_update(5, mode, NOW.ahead_hours(5).unwrap());
    let later = NOW.checked_add(2 * 3_600 - 1).unwrap();
    assert_eq!(scheduler.is_in_cooldown_at(&storage, 5, mode, later), Ok(true));
    assert_eq!(scheduler.trigger_update_at(&mut storage, 5, mode, later), Ok(()));
    assert!(storage.get_due_users_at(later.secs).is_empty());
    let later = NOW.checked_add(2 * 3_600).unwrap();
    assert_eq!(scheduler.is_in_cooldown_at(&storage, 5, mode, later), Ok(false));
    assert_eq!(scheduler.is_in_cooldown(&storage, 5, mode), Ok(false));
    assert_eq!(scheduler.trigger_update(&mut storage, 5, mode), Ok(()));
    assert_eq!(storage.get_due_users(), vec![(5, mode)]);
    storage.set_last_update(5, mode, utc_now());
    assert_eq!(scheduler.is_in_cooldown(&storage, 5, mode), Ok(true));
}

#[test]
fn a_cooldown_out_of_range_is_refused_where_it_matters() {
    let mut far = config();
    far.group_trigger_cooldown_hours = i64::MAX / 3_600_000 + 1;
    let scheduler = Scheduler::new(far);
    let mut storage = Storage::new();
    let mode = GameMode::Osu;
    let refused = StorageError::TimeOutOfRange;
    assert_eq!(scheduler.is_in_cooldown_at(&storage, 5, mode, NOW), Ok(false));
    assert_eq!(scheduler.trigger_update_at(&mut storage, 5, mode, NOW), Ok(()));
    storage.set_last_update(5, mode, NOW);
    assert_eq!(scheduler.is_in_cooldown_at(&storage, 5, mode, NOW), Err(refused.clone()));
    assert_eq!(scheduler.trigger_update_at(&mut storage, 5, mode, NOW), Err(refused));
    far.group_trigger_cooldown_hours = i64::MAX / 3_600_000;
    assert_eq!(Scheduler::new(far).is_in_cooldown_at(&storage, 5, mode, NOW), Ok(true));
}

#[test]
fn rescheduling_makes_all_due() {
    let scheduler = Scheduler::new(config());
    let mut storage = Storage::new();
    assert_eq!(scheduler.reschedule_all(&mut storage), 0);
    storage.set_next_update(5, GameMode::Osu, utc_now().ahead_hours(5).unwrap());
    storage.set_next_update(6, GameMode::Mania, utc_now().ahead_hours(9).unwrap());
    assert!(storage.get_due_users().is_empty());
    assert_eq!(scheduler.reschedule_all(&mut storage), 2);
    assert_eq!(storage.get_due_users(), vec![(5, GameMode::Osu), (6, GameMode::Mania)]);
}

#[test]
fn an_evaluation_makes_of_the_tables_what_its_operations_make() {
    let mut storage = Storage::new();
    storage.bind(1, 5, "old").unwrap();
    storage.bind(2, 6, "other").unwrap();
    storage.save_stats_at(5, GameMode::Osu, &stats("old", 9, 8), NOW.back_hours(1).unwrap());
    let mut expected = Storage::from_tables(storage.tables().clone()).unwrap();
    let play = UtcTime { secs: NOW.secs - 5 * 3_600, nanos: 0 };
    let recent = || Ok(vec![play.to_rfc3339(), play.to_rfc3339()]);

    assert_eq!(
        evaluate(&mut storage, true, Ok(stats("New", 9, 8)), recent(), play.secs),
        done(UserActivity::Normal, true)
    );
    expected.update_binding_username_by_user_id(5, "New");
    expected.set_user_id("New", 5);
    expected.save_play_records(5, GameMode::Osu, &[play.secs]);
    expected.set_last_update(5, GameMode::Osu, NOW);
    assert_eq!(storage.tables(), expected.tables());

    assert_eq!(
        evaluate(&mut storage, true, Ok(stats("New", 7, 8)), recent(), play.secs + 1),
        done(UserActivity::NoRecent, true)
    );
    expected.save_stats_at(5, GameMode::Osu, &stats("New", 7, 8), NOW);
    assert_eq!(storage.tables(), expected.tables());

    let unread = || Err(ApiError::Other);
    evaluate(&mut storage, false, Ok(stats("Newer", 1, 1)), recent(), 0);
    evaluate(&mut storage, true, Err(ApiError::NotFound), recent(), 0);
    evaluate(&mut storage, true, Ok(stats("New", 7, 8)), unread(), NOW.secs);
    assert_eq!(storage.tables(), expected.tables());
}

#[test]
fn a_round_sets_the_time_of_each_result_and_no_other() {
    let mut far = config();
    far.no_recent_interval_hours = i64::MAX;
    let scheduler = Scheduler::new(far);
    let mut storage = Storage::new();
    let before = UtcTime { secs: 77, nanos: 0 };
    for (user_id, mode) in [(5, GameMode::Taiko), (8, GameMode::Osu), (9, GameMode::Mania)] {
        storage.set_next_update(user_id, mode, before);
    }
    storage.set_last_update(5, GameMode::Osu, NOW);
    let later = NOW.checked_add(10).unwrap();
    let results = vec![
        (5, GameMode::Osu, done(UserActivity::SemiActive, true), NOW),
        (9, GameMode::Mania, done(UserActivity::Inactive, true), later),
        (7, GameMode::Osu, done(UserActivity::NoRecent, false), later),
        (5, GameMode::Catch, done(UserActivity::Normal, true), later),
        (8, GameMode::Osu, done(UserActivity::NoRecent, true), NOW),
        (5, GameMode::Catch, done(UserActivity::NoRecent, true), later),
    ];
    scheduler.update_next_times(&mut storage, &results);
    let next = |user_id: i64, mode: GameMode| storage.get_next_update(user_id, mode).map(|t| t.secs);
    assert_eq!(next(5, GameMode::Osu), Some(NOW.secs + 3_600));
    assert_eq!(next(9, GameMode::Mania), Some(later.secs + 24 * 3_600));
    assert_eq!(next(7, GameMode::Osu), Some(later.secs + 300));
    assert_eq!(next(5, GameMode::Catch), Some(later.secs + 6 * 3_600));
    assert_eq!(next(8, GameMode::Osu), Some(77));
    assert_eq!(next(5, GameMode::Taiko), Some(77));
    assert_eq!(next(9, GameMode::Osu), None);
    assert_eq!(storage.tables().next_updates.len(), 6);
    assert_eq!(storage.get_last_update(5, GameMode::Osu), Some(NOW));
    let copy = storage.tables().clone();
    scheduler.update_next_times(&mut storage, &Vec::new());
    assert_eq!(*storage.tables(), copy);
    assert_eq!(scheduler.next_time(done(UserActivity::NoRecent, true), NOW), None);
    assert_eq!(
        scheduler.next_time(done(UserActivity::NoRecent, false), NOW),
        NOW.checked_add(300)
    );
}
