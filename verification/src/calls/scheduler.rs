//! When players are looked at, how they are judged, and when there is a cleanup.
use crate::calls::bindings::{
    number_is_noted, number_noted, other_names, player_is_renamed, player_renamed,
};
use crate::calls::plain::{
    differences_are_in_nanoseconds, epoch_nanos, instants_are_texts, mode_number, ordinary,
    read_instant,
};
use crate::calls::snapshots::{latest_of, latest_rightly, saved, saved_rightly};
use crate::calls::time::in_calendar;
use crate::calls::updates::{
    activity_is_noted, activity_is_read, activity_noted, all_are_due, last_activity_of, next_is_set,
    next_set, play_is_there, play_there, plays_are_saved,
};
use crate::laws::scheduler::{evaluation_comes_to, says, World};
use crate::rows::{NextUpdateRow, TablesView};
use crate::scheduler::{
    activity_when_idle, play_time, step_follows, wants_snapshot, ApiError, CleanupTask, EvalStep,
    Evaluation, Failed, Reply, RunAction, RunEvent, Scheduler, SchedulerConfig, UpdateResult,
    UserActivity,
};
use crate::storage::Storage;
use crate::table::views;
use crate::time::{hours_between, nanos_between, UtcTime};
use crate::types::{GameMode, StorageError, UserStats, UserStatsSnapshot};
use vstd::prelude::*;

verus! {

broadcast use crate::storage::wf_tables;

/// At least so many hours have gone from one instant to another.
pub open spec fn hours_have_gone(now: UtcTime, since: UtcTime, hours: int) -> bool {
    if ordinary(now) && ordinary(since) {
        epoch_nanos(now) - epoch_nanos(since) >= hours * 3_600_000_000_000
    } else {
        hours_between(now, since) >= hours
    }
}

proof fn hours_gone(now: UtcTime, since: UtcTime)
    ensures
        hours_have_gone(now, since, 8) <==> hours_between(now, since) >= 8,
        hours_have_gone(now, since, 24) <==> hours_between(now, since) >= 24,
        hours_have_gone(now, since, 48) <==> hours_between(now, since) >= 48,
{
    if ordinary(now) && ordinary(since) {
        differences_are_in_nanoseconds(now, since);
    }
}

/// A player without a play today is judged by the time since the last activity: from 48 hours on,
/// or without any activity, `Inactive`; from 8 hours on `Normal`; and before that `NoRecent`.
pub open spec fn idle_rightly(
    now: UtcTime,
    last: Option<UtcTime>,
    activity: UserActivity,
) -> bool {
    &&& last is None ==> activity == UserActivity::Inactive
    &&& last matches Some(t) ==> {
        &&& hours_have_gone(now, t, 48) ==> activity == UserActivity::Inactive
        &&& hours_have_gone(now, t, 8) && !hours_have_gone(now, t, 48) ==> activity
            == UserActivity::Normal
        &&& !hours_have_gone(now, t, 8) ==> activity == UserActivity::NoRecent
    }
}

/// A player without a play today is judged by the hours since the last activity, and never as one
/// that does not exist.
pub proof fn idle_players_are_judged_by_hours(
    now: UtcTime,
    last: Option<UtcTime>,
    res: UserActivity,
)
    requires
        call_ensures(activity_when_idle, (now, last), res),
    ensures
        idle_rightly(now, last, res),
        res != UserActivity::UserNotExists,
        res != UserActivity::SemiActive,
{
    if last is Some {
        hours_gone(now, last->0);
    }
}

/// The count is what the snapshot has of it, taken as zero where it has none.
pub open spec fn same_count(kept: Option<i64>, count: i64) -> bool {
    match kept {
        Some(n) => n == count,
        None => count == 0,
    }
}

/// A snapshot is wanted unless the latest is known and has the same rank and number of plays.
pub proof fn snapshot_is_wanted_on_change(
    latest: &Result<Option<UserStatsSnapshot>, Failed>,
    current: &UserStats,
    res: bool,
)
    requires
        call_ensures(wants_snapshot, (latest, current), res),
    ensures
        *latest is Err ==> res,
        *latest == Ok::<Option<UserStatsSnapshot>, Failed>(None) ==> res,
        *latest matches Ok(Some(prev)) ==> (res <==> !(same_count(prev.rank, current.rank)
            && same_count(prev.playcount, current.playcount))),
{
}

/// The evaluation ends without success.
pub open spec fn ends_in_failure(step: EvalStep) -> bool {
    step matches EvalStep::Done(result) && !result.success && result.activity
        == UserActivity::NoRecent
}

/// The evaluation ends with the activity.
pub open spec fn ends_with(step: EvalStep, activity: UserActivity) -> bool {
    step matches EvalStep::Done(result) && result.success && result.activity == activity
}

/// `times` are the seconds of those texts, in order, that can be read.
pub open spec fn read_seconds(texts: Seq<Seq<char>>, times: Seq<i64>) -> bool {
    times == texts.filter_map(
        |text: Seq<char>|
            match read_instant(text) {
                Some(t) => Some(t.secs),
                None => None,
            },
    )
}

/// What comes after a step, for each answer to it.
pub open spec fn goes_on_rightly(e: Evaluation, reply: Reply, next: EvalStep) -> bool {
    match e.step {
        EvalStep::AcquirePermit => reply matches Reply::Permit(granted) && (if granted {
            next is FetchStats
        } else {
            ends_in_failure(next)
        }),
        EvalStep::FetchStats => reply matches Reply::Stats(fetched) && match fetched {
            Ok(stats) => next == (EvalStep::RenameBindings { stats }),
            Err(ApiError::NotFound) => ends_with(next, UserActivity::UserNotExists),
            Err(_) => ends_in_failure(next),
        },
        EvalStep::RenameBindings { stats } => next == (EvalStep::CacheUserId { stats }),
        EvalStep::CacheUserId { stats } => next == (EvalStep::ReadLatest { stats }),
        EvalStep::ReadLatest { stats } => reply matches Reply::Latest(latest) && {
            let same = latest matches Ok(Some(prev)) && same_count(prev.rank, stats.rank)
                && same_count(prev.playcount, stats.playcount);
            &&& same ==> next is FetchRecent
            &&& !same ==> next == (EvalStep::SaveStats { stats })
        },
        EvalStep::SaveStats { .. } => next is FetchRecent,
        EvalStep::FetchRecent => reply matches Reply::Recent(recent) && (next matches
            EvalStep::SavePlays { timestamps } && match recent {
            Ok(texts) => read_seconds(views(texts@), timestamps@),
            Err(_) => timestamps@.len() == 0,
        }),
        EvalStep::SavePlays { .. } => next matches EvalStep::CheckRecent { since } && since
            == e.now.secs - 14_400,
        EvalStep::CheckRecent { .. } => reply matches Reply::Played(found) && (next matches
            EvalStep::FindDayStart { has_recent } && (has_recent <==> found == Ok::<bool, Failed>(
            true,
        ))),
        EvalStep::FindDayStart { has_recent } => reply matches Reply::DayStart(start) && next == (
        EvalStep::CheckToday { has_recent, since: start }),
        EvalStep::CheckToday { has_recent, .. } => reply matches Reply::Played(found) && {
            let today = found == Ok::<bool, Failed>(true);
            &&& has_recent ==> next == (EvalStep::MarkActive { activity: UserActivity::SemiActive })
            &&& !has_recent && today ==> next == (EvalStep::MarkActive {
                activity: UserActivity::Normal,
            })
            &&& !has_recent && !today ==> next is ReadLastUpdate
        },
        EvalStep::ReadLastUpdate => reply matches Reply::LastUpdate(last) && (next matches
            EvalStep::Done(result) && result.success && match last {
            Ok(known) => idle_rightly(e.now, known, result.activity),
            Err(_) => idle_rightly(e.now, None, result.activity),
        }),
        EvalStep::MarkActive { activity } => ends_with(next, activity),
        EvalStep::Done(_) => false,
    }
}

/// An evaluation begins with the permit, for the player and the mode, at the instant.
pub proof fn evaluation_begins(user_id: i64, mode: GameMode, now: UtcTime, res: Evaluation)
    requires
        call_ensures(Evaluation::start, (user_id, mode, now), res),
    ensures
        res.user_id == user_id,
        res.mode == mode,
        res.now == now,
        res.step is AcquirePermit,
{
}

/// An evaluation goes on as the answer to each step demands, for the same player, mode and instant.
pub proof fn evaluation_goes_on_by_its_answers(e: Evaluation, reply: Reply, next: Evaluation)
    requires
        e.now.from_clock(),
        call_ensures(Evaluation::advance, (e, reply), next),
    ensures
        next.user_id == e.user_id && next.mode == e.mode && next.now == e.now,
        goes_on_rightly(e, reply, next.step),
{
    match (e.step, reply) {
        (EvalStep::FetchRecent, Reply::Recent(Ok(texts))) => {
            let f = |text: Seq<char>|
                match read_instant(text) {
                    Some(t) => Some(t.secs),
                    None => None,
                };
            assert forall|text: Seq<char>| #[trigger] f(text) == play_time()(text) by {
                instants_are_texts(e.now, text, e.now);
            }
            assert(f =~= play_time());
        },
        (EvalStep::ReadLastUpdate, Reply::LastUpdate(Ok(Some(t)))) => {
            hours_gone(e.now, t);
        },
        _ => {},
    }
}

/// What an evaluation comes to, by what the world has to say: without a permit, or where the
/// service fails, no success; a player that the service does not know does not exist; and one that
/// it knows is judged by a play of the last hours, by a play of the day, and by the hours since the
/// last activity, in this order, and never as one that does not exist.
pub open spec fn judged_rightly(w: World, now: UtcTime, result: UpdateResult) -> bool {
    let recently = w.played_recently == Ok::<bool, Failed>(true);
    let today = w.played_today == Ok::<bool, Failed>(true);
    &&& !w.permit ==> !result.success
    &&& w.permit && w.stats == Err::<UserStats, ApiError>(ApiError::NotFound) ==> result.success
        && result.activity == UserActivity::UserNotExists
    &&& w.permit && w.stats is Err && w.stats != Err::<UserStats, ApiError>(ApiError::NotFound)
        ==> !result.success
    &&& w.permit && w.stats is Ok ==> {
        &&& result.success
        &&& result.activity != UserActivity::UserNotExists
        &&& recently ==> result.activity == UserActivity::SemiActive
        &&& !recently && today ==> result.activity == UserActivity::Normal
        &&& !recently && !today ==> match w.last_update {
            Ok(last) => idle_rightly(now, last, result.activity),
            Err(_) => idle_rightly(now, None, result.activity),
        }
    }
}

/// A whole evaluation, from its start to its end, comes to what the world has to say.
pub proof fn evaluation_is_judged_by_its_world(
    w: World,
    run: Seq<Evaluation>,
    replies: Seq<Reply>,
    user_id: i64,
    mode: GameMode,
    now: UtcTime,
    result: UpdateResult,
)
    requires
        now.from_clock(),
        run.len() == replies.len() + 1,
        call_ensures(Evaluation::start, (user_id, mode, now), run[0]),
        forall|i: int| 0 <= i < replies.len() ==> #[trigger] world_answers(w, run, replies, i),
        run.last().step == EvalStep::Done(result),
    ensures
        judged_rightly(w, now, result),
        run.last().user_id == user_id && run.last().mode == mode,
{
    let steps = run.map_values(|e: Evaluation| e.step);
    run_keeps(w, run, replies, replies.len() as int);
    assert forall|i: int| 0 <= i < replies.len() implies {
        &&& says(w, steps[i], #[trigger] replies[i])
        &&& step_follows(now, steps[i], replies[i], steps[i + 1])
    } by {
        assert(world_answers(w, run, replies, i));
        run_keeps(w, run, replies, i);
    }
    evaluation_comes_to(now, w, steps, replies);
    match w.last_update {
        Ok(Some(t)) => {
            hours_gone(now, t);
        },
        _ => {},
    }
}

/// The world answers the `i`th step, and the evaluation goes on with that.
pub open spec fn world_answers(
    w: World,
    run: Seq<Evaluation>,
    replies: Seq<Reply>,
    i: int,
) -> bool {
    says(w, run[i].step, replies[i]) && call_ensures(
        Evaluation::advance,
        (run[i], replies[i]),
        run[i + 1],
    )
}

/// The player, the mode and the instant stay the same up to the `n`th step.
proof fn run_keeps(w: World, run: Seq<Evaluation>, replies: Seq<Reply>, n: int)
    requires
        0 <= n <= replies.len(),
        run.len() == replies.len() + 1,
        forall|i: int| 0 <= i < replies.len() ==> #[trigger] world_answers(w, run, replies, i),
    ensures
        run[n].now == run[0].now && run[n].user_id == run[0].user_id && run[n].mode == run[0].mode,
    decreases n,
{
    if n > 0 {
        run_keeps(w, run, replies, n - 1);
        assert(world_answers(w, run, replies, n - 1));
    }
}

/// What a step on the tables does and answers.
pub open spec fn performed_rightly(
    before: TablesView,
    after: TablesView,
    e: Evaluation,
    at: UtcTime,
    reply: Reply,
) -> bool {
    let (user_id, mode) = (e.user_id, e.mode);
    match e.step {
        EvalStep::RenameBindings { stats } => player_is_renamed(
            before,
            after,
            user_id,
            stats.username@,
        ) && (reply matches Reply::Renamed(Ok(n)) && (other_names(before, user_id, stats.username@)
            <= u64::MAX ==> n == other_names(before, user_id, stats.username@))),
        EvalStep::CacheUserId { stats } => number_is_noted(
            before,
            after,
            stats.username@,
            user_id,
        ) && reply == Reply::Cached(Ok(())),
        EvalStep::ReadLatest { .. } => after == before && (reply matches Reply::Latest(Ok(latest))
            && latest_rightly(before, user_id, mode, latest)),
        EvalStep::SaveStats { stats } => saved_rightly(before, after, user_id, mode, stats, at)
            && reply == Reply::Saved(Ok(())),
        EvalStep::SavePlays { timestamps } => plays_are_saved(
            before,
            after,
            user_id,
            mode,
            timestamps@,
        ) && (reply matches Reply::PlaysSaved(Ok(n)) && (i64::MIN <= after.plays.len()
            - before.plays.len() <= i64::MAX ==> n == after.plays.len() - before.plays.len())),
        EvalStep::CheckRecent { since } => after == before && reply == Reply::Played(
            Ok(play_is_there(before, user_id, mode, since)),
        ),
        EvalStep::CheckToday { since, .. } => after == before && reply == Reply::Played(
            Ok(play_is_there(before, user_id, mode, since)),
        ),
        EvalStep::ReadLastUpdate => after == before && (reply matches Reply::LastUpdate(Ok(last))
            && activity_is_read(before, user_id, mode, last)),
        EvalStep::MarkActive { .. } => activity_is_noted(before, after, user_id, mode, e.now)
            && reply == Reply::Marked(Ok(())),
        _ => true,
    }
}

/// A step on the tables does what the operation of its name does, for the player and the mode of the
/// evaluation, and answers what that operation answers.
pub proof fn steps_are_performed(s: &mut Storage, e: &Evaluation, at: UtcTime, reply: Reply)
    requires
        old(s).wf(),
        call_ensures(Storage::perform, (s, e, at), reply),
    ensures
        performed_rightly(old(s)@, final(s)@, *e, at, reply),
{
    let t = old(s)@;
    match e.step {
        EvalStep::RenameBindings { stats } => {
            player_renamed(t, e.user_id, stats.username@);
        },
        EvalStep::CacheUserId { stats } => {
            number_noted(t, stats.username@, e.user_id);
        },
        EvalStep::ReadLatest { .. } => {
            latest_of(t, e.user_id, e.mode);
        },
        EvalStep::SaveStats { stats } => {
            saved(t, e.user_id, e.mode, stats, at);
        },
        EvalStep::CheckRecent { since } => {
            play_there(t, e.user_id, e.mode, since);
        },
        EvalStep::CheckToday { since, .. } => {
            play_there(t, e.user_id, e.mode, since);
        },
        EvalStep::ReadLastUpdate => {
            last_activity_of(t, e.user_id, e.mode);
        },
        EvalStep::MarkActive { .. } => {
            activity_noted(t, e.user_id, e.mode, e.now);
        },
        _ => {},
    }
}

/// A scheduler starts with its settings, without a cleanup, and runs; told to end, it keeps all but
/// that; and a cleanup that is done is noted with its instant.
pub proof fn schedulers_keep_their_settings(
    config: SchedulerConfig,
    new: Scheduler,
    a: &mut Scheduler,
    b: &mut Scheduler,
    now: UtcTime,
)
    requires
        call_ensures(Scheduler::new, (config,), new),
        call_ensures(Scheduler::shutdown, (a,), ()),
        call_ensures(Scheduler::finish_cleanup, (b, now), ()),
    ensures
        new.config == config && new.last_cleanup is None && !new.stopping,
        final(a).stopping && final(a).config == old(a).config && final(a).last_cleanup == old(
            a,
        ).last_cleanup,
        final(b).last_cleanup == Some(now) && final(b).config == old(b).config && final(b).stopping
            == old(b).stopping,
{
}

/// The task waits, looks at the players, cleans up, and waits again, until it is told to end while
/// it waits or is about to. It waits for as many minutes as are set, and for one at least.
pub proof fn the_task_goes_round(s: &Scheduler, event: RunEvent, res: RunAction)
    requires
        s.config.interval_minutes * 60 <= u64::MAX,
        call_ensures(Scheduler::run, (s, event), res),
    ensures
        event == RunEvent::Started || event == RunEvent::CleanedUp ==> {
            &&& s.stopping <==> res == RunAction::Stop
            &&& !s.stopping ==> (res matches RunAction::Wait(seconds) && seconds == if s.config.interval_minutes
                == 0 {
                60
            } else {
                s.config.interval_minutes * 60
            })
        },
        event == RunEvent::Elapsed ==> res == RunAction::ProcessDueUsers,
        event == RunEvent::ShutdownSignalled ==> res == RunAction::Stop,
        event == RunEvent::Processed ==> res == RunAction::TryCleanup,
{
}

/// There is nothing to clean up within 24 hours of the last time, and otherwise the whole of it:
/// records by their own retention, requests, images by age and by size, and four more caches by age.
pub proof fn cleanup_is_whole_and_daily(s: &Scheduler, now: UtcTime, res: Vec<CleanupTask>)
    requires
        call_ensures(Scheduler::try_cleanup, (s, now), res),
    ensures
        s.last_cleanup matches Some(last) && !hours_have_gone(now, last, 24) ==> res@.len() == 0,
        (s.last_cleanup is None || hours_have_gone(now, s.last_cleanup->0, 24)) ==> {
            let (days, bytes) = (s.config.cache_retention_days, s.config.max_cache_size_bytes);
            &&& res@.len() == 9
            &&& res@[0] == CleanupTask::PruneRecords(s.config.retention_days)
            &&& res@[1] == CleanupTask::PrunePendingBinds
            &&& res@[2] == CleanupTask::PrunePendingUnbinds
            &&& res@[3] == CleanupTask::RenderedByAge(days)
            &&& res@[4] == CleanupTask::RenderedBySize(bytes)
            &&& res@[5] == CleanupTask::Replays(days)
            &&& res@[6] == CleanupTask::Beatmaps(days)
            &&& res@[7] == CleanupTask::Previews(days)
            &&& res@[8] == CleanupTask::BeatmapAudio(days)
        },
{
    if s.last_cleanup is Some {
        hours_gone(now, s.last_cleanup->0);
    }
}

/// The hours that are set for an activity.
pub open spec fn set_hours(config: SchedulerConfig, activity: UserActivity, hours: i64) -> bool {
    &&& activity == UserActivity::SemiActive ==> hours == config.semi_active_interval_hours
    &&& activity == UserActivity::Normal ==> hours == config.normal_interval_hours
    &&& activity == UserActivity::Inactive ==> hours == config.inactive_interval_hours
    &&& activity == UserActivity::NoRecent ==> hours == config.no_recent_interval_hours
    &&& activity == UserActivity::UserNotExists ==> hours == config.user_not_exists_interval_hours
}

/// Each activity has the interval that is set for it.
pub proof fn intervals_are_as_set(s: &Scheduler, activity: UserActivity, res: i64)
    requires
        call_ensures(Scheduler::get_update_interval, (s, activity), res),
    ensures
        set_hours(s.config, activity, res),
{
}

/// The seconds until a player is looked at again: as many hours as are set for the activity, or five
/// minutes where the evaluation failed.
pub open spec fn waits(config: SchedulerConfig, result: UpdateResult, seconds: int) -> bool {
    &&& !result.success ==> seconds == 300
    &&& result.success ==> exists|hours: i64| #[trigger]
        set_hours(config, result.activity, hours) && seconds == hours * 3_600
}

proof fn waiting(config: SchedulerConfig, result: UpdateResult, seconds: int)
    ensures
        waits(config, result, config.delay(result)),
        waits(config, result, seconds) ==> seconds == config.delay(result),
{
    assert(set_hours(config, result.activity, config.interval_hours(result.activity)));
    if waits(config, result, seconds) && result.success {
        let hours = choose|hours: i64| #[trigger]
            set_hours(config, result.activity, hours) && seconds == hours * 3_600;
        assert(hours == config.interval_hours(result.activity));
    }
}

/// The next look at a player is so many seconds after the instant, if the calendar reaches that
/// far.
pub proof fn next_look_is_after_the_wait(
    s: &Scheduler,
    result: UpdateResult,
    now: UtcTime,
    res: Option<UtcTime>,
    seconds: int,
)
    requires
        call_ensures(Scheduler::next_time, (s, result, now), res),
        waits(s.config, result, seconds),
    ensures
        res is Some <==> in_calendar(now, seconds),
        res matches Some(next) ==> next.secs == now.secs + seconds && next.nanos == now.nanos,
{
    waiting(s.config, result, seconds);
}

/// The player is due so many seconds after the instant, and nothing else is changed; where the
/// calendar does not reach that far, nothing is, and it is an error.
pub proof fn next_look_is_set(
    s: &Scheduler,
    storage: &mut Storage,
    user_id: i64,
    mode: GameMode,
    result: UpdateResult,
    now: UtcTime,
    res: Result<(), StorageError>,
    seconds: int,
)
    requires
        call_ensures(
            Scheduler::update_next_time,
            (s, storage, user_id, mode, result, now),
            res,
        ),
        waits(s.config, result, seconds),
    ensures
        in_calendar(now, seconds) ==> res is Ok && next_is_set(
            old(storage)@,
            final(storage)@,
            user_id,
            mode,
            (now.secs + seconds) as i64,
        ),
        !in_calendar(now, seconds) ==> res == Err::<(), StorageError>(StorageError::TimeOutOfRange)
            && final(storage)@ == old(storage)@,
{
    waiting(s.config, result, seconds);
    next_set(old(storage)@, user_id, mode, now.plus_seconds(seconds));
}

/// The result is of the player in the mode, and its time is `ts`, which the calendar has.
pub open spec fn sets(
    config: SchedulerConfig,
    r: (i64, GameMode, UpdateResult, UtcTime),
    user_id: i64,
    mode: GameMode,
    ts: int,
) -> bool {
    &&& r.0 == user_id
    &&& r.1 == mode
    &&& waits(config, r.2, ts - r.3.secs)
    &&& in_calendar(r.3, ts - r.3.secs)
}

/// After a round, the player is due in the mode at the time of its last result whose time the
/// calendar has, and where it has none such, as before; nothing but next updates is changed.
pub proof fn round_sets_the_next_looks(
    s: &Scheduler,
    storage: &mut Storage,
    results: &Vec<(i64, GameMode, UpdateResult, UtcTime)>,
    user_id: i64,
    mode: GameMode,
)
    requires
        call_ensures(Scheduler::update_next_times, (s, storage, results), ()),
    ensures
        final(storage)@ == (TablesView {
            next_updates: final(storage)@.next_updates,
            ..old(storage)@
        }),
        (forall|i: int, ts: int|
            0 <= i < results@.len() ==> !#[trigger] sets(s.config, results@[i], user_id, mode, ts))
            ==> forall|n: NextUpdateRow|
            n.user_id == user_id && n.mode == mode_number(mode) ==> (
            #[trigger] final(storage)@.next_updates.contains(n) <==> old(
                storage,
            )@.next_updates.contains(n)),
        forall|i: int, ts: int|
            0 <= i < results@.len() && #[trigger] sets(s.config, results@[i], user_id, mode, ts) && (
            forall|j: int, other: int|
                i < j < results@.len() ==> !#[trigger] sets(
                    s.config,
                    results@[j],
                    user_id,
                    mode,
                    other,
                )) ==> forall|n: NextUpdateRow|
                n.user_id == user_id && n.mode == mode_number(mode) ==> (
                #[trigger] final(storage)@.next_updates.contains(n) <==> n.next_update == ts),
{
    round(s.config, old(storage)@, results@, user_id, mode);
}

proof fn round(
    config: SchedulerConfig,
    t: TablesView,
    results: Seq<(i64, GameMode, UpdateResult, UtcTime)>,
    user_id: i64,
    mode: GameMode,
)
    ensures
        ({
            let after = config.after_round(t, results);
            &&& after == (TablesView { next_updates: after.next_updates, ..t })
            &&& (forall|i: int, ts: int|
                0 <= i < results.len() ==> !#[trigger] sets(config, results[i], user_id, mode, ts))
                ==> forall|n: NextUpdateRow|
                n.user_id == user_id && n.mode == mode_number(mode) ==> (
                #[trigger] after.next_updates.contains(n) <==> t.next_updates.contains(n))
            &&& forall|i: int, ts: int|
                0 <= i < results.len() && #[trigger] sets(config, results[i], user_id, mode, ts) && (
                forall|j: int, other: int|
                    i < j < results.len() ==> !#[trigger] sets(
                        config,
                        results[j],
                        user_id,
                        mode,
                        other,
                    )) ==> forall|n: NextUpdateRow|
                    n.user_id == user_id && n.mode == mode_number(mode) ==> (
                    #[trigger] after.next_updates.contains(n) <==> n.next_update == ts)
        }),
    decreases results.len(),
{
    if results.len() > 0 {
        let rest = results.drop_last();
        let before = config.after_round(t, rest);
        let after = config.after_round(t, results);
        let last = results.len() - 1;
        let r = results[last];
        let seconds = config.delay(r.2);
        round(config, t, rest, user_id, mode);
        waiting(config, r.2, seconds);
        next_set(before, r.0, r.1, r.3.plus_seconds(seconds));
        assert forall|ts: int| #[trigger] sets(config, results[last], user_id, mode, ts) implies ts
            == r.3.secs + seconds by {
            waiting(config, r.2, ts - r.3.secs);
        }
        if r.3.can_shift(seconds) && r.0 == user_id && r.1 == mode {
            assert(sets(config, results[last], user_id, mode, r.3.secs + seconds));
        }
        assert forall|i: int, ts: int|
            0 <= i < rest.len() implies #[trigger] sets(config, rest[i], user_id, mode, ts) == sets(
            config,
            results[i],
            user_id,
            mode,
            ts,
        ) by {
            assert(rest[i] == results[i]);
        }
        let unset = forall|ts: int| !#[trigger] sets(config, results[last], user_id, mode, ts);
        if unset {
            assert forall|n: NextUpdateRow|
                n.user_id == user_id && n.mode == mode_number(mode) implies (
            #[trigger] after.next_updates.contains(n) <==> before.next_updates.contains(n)) by {
                if r.3.can_shift(seconds) {
                    assert(r.0 != user_id || r.1 != mode);
                    assert(r.0 != user_id || mode_number(r.1) != mode_number(mode));
                }
            }
        }
        assert forall|i: int, ts: int|
            0 <= i < results.len() && #[trigger] sets(config, results[i], user_id, mode, ts) && (
            forall|j: int, other: int|
                i < j < results.len() ==> !#[trigger] sets(
                    config,
                    results[j],
                    user_id,
                    mode,
                    other,
                )) implies forall|n: NextUpdateRow|
            n.user_id == user_id && n.mode == mode_number(mode) ==> (
            #[trigger] after.next_updates.contains(n) <==> n.next_update == ts) by {
            if i < last {
                assert(unset) by {
                    assert forall|other: int| !#[trigger] sets(
                        config,
                        results[last],
                        user_id,
                        mode,
                        other,
                    ) by {}
                }
                assert(sets(config, rest[i], user_id, mode, ts));
                assert forall|j: int, other: int| i < j < rest.len() implies !#[trigger] sets(
                    config,
                    rest[j],
                    user_id,
                    mode,
                    other,
                ) by {
                    assert(!sets(config, results[j], user_id, mode, other));
                }
            }
        }
        if forall|i: int, ts: int|
            0 <= i < results.len() ==> !#[trigger] sets(config, results[i], user_id, mode, ts) {
            assert forall|i: int, ts: int| 0 <= i < rest.len() implies !#[trigger] sets(
                config,
                rest[i],
                user_id,
                mode,
                ts,
            ) by {
                assert(!sets(config, results[i], user_id, mode, ts));
            }
            assert(unset) by {
                assert forall|other: int| !#[trigger] sets(
                    config,
                    results[last],
                    user_id,
                    mode,
                    other,
                ) by {}
            }
        }
    }
}

/// The cooldown is a number of hours whose milliseconds fit.
pub open spec fn hours_fit(hours: i64) -> bool {
    -i64::MAX <= hours * 3_600_000 <= i64::MAX
}

/// Less than so many hours have gone since an instant.
pub open spec fn less_than_hours(now: UtcTime, since: UtcTime, hours: i64) -> bool {
    if ordinary(now) && ordinary(since) {
        epoch_nanos(now) - epoch_nanos(since) < hours * 3_600_000_000_000
    } else {
        nanos_between(now, since) < hours * 3_600_000_000_000
    }
}

/// `res` tells whether the player is in cooldown: where there is a last activity, less than the set
/// hours ago. Where there is one and the hours do not fit, it is an error.
pub open spec fn cooldown_rightly(
    t: TablesView,
    config: SchedulerConfig,
    user_id: i64,
    mode: GameMode,
    now: UtcTime,
    res: Result<bool, StorageError>,
) -> bool {
    let hours = config.group_trigger_cooldown_hours;
    forall|last: Option<UtcTime>| #[trigger]
        activity_is_read(t, user_id, mode, last) ==> match last {
            None => res == Ok::<bool, StorageError>(false),
            Some(since) => res == if hours_fit(hours) {
                Ok::<bool, StorageError>(less_than_hours(now, since, hours))
            } else {
                Err(StorageError::TimeOutOfRange)
            },
        }
}

proof fn one_activity_is_read(
    t: TablesView,
    user_id: i64,
    mode: GameMode,
    last: Option<UtcTime>,
)
    requires
        t.wf(),
        activity_is_read(t, user_id, mode, last),
    ensures
        last == t.last_update(user_id, mode),
{
    last_activity_of(t, user_id, mode);
    if last is Some {
        let i = choose|i: int|
            0 <= i < t.last_updates.len() && (#[trigger] t.last_updates[i]).user_id == user_id
                && t.last_updates[i].mode == mode_number(mode);
        assert(last == read_instant(t.last_updates[i].last_update));
    } else if t.last_update(user_id, mode) is Some {
        let i = choose|i: int|
            0 <= i < t.last_updates.len() && (#[trigger] t.last_updates[i]).user_id == user_id
                && t.last_updates[i].mode == mode_number(mode);
        assert(last == read_instant(t.last_updates[i].last_update));
    }
}

proof fn cooldown(
    s: Scheduler,
    t: TablesView,
    user_id: i64,
    mode: GameMode,
    now: UtcTime,
    res: Result<bool, StorageError>,
)
    requires
        t.wf(),
        s.answers_cooldown(t, user_id, mode, now, res),
    ensures
        cooldown_rightly(t, s.config, user_id, mode, now, res),
{
    assert forall|last: Option<UtcTime>| #[trigger]
        activity_is_read(t, user_id, mode, last) implies match last {
        None => res == Ok::<bool, StorageError>(false),
        Some(since) => res == if hours_fit(s.config.group_trigger_cooldown_hours) {
            Ok::<bool, StorageError>(
                less_than_hours(now, since, s.config.group_trigger_cooldown_hours),
            )
        } else {
            Err(StorageError::TimeOutOfRange)
        },
    } by {
        one_activity_is_read(t, user_id, mode, last);
        if last is Some && ordinary(now) && ordinary(last->0) {
            differences_are_in_nanoseconds(now, last->0);
        }
    }
}

/// A player is in cooldown for the set hours after its last activity, by the instant that is given
/// and by the clock.
pub proof fn cooldown_lasts_the_set_hours(
    s: &Scheduler,
    storage: &Storage,
    user_id: i64,
    mode: GameMode,
    now: UtcTime,
    res: Result<bool, StorageError>,
    by_clock: Result<bool, StorageError>,
)
    requires
        storage.wf(),
        call_ensures(Scheduler::is_in_cooldown_at, (s, storage, user_id, mode, now), res),
        call_ensures(Scheduler::is_in_cooldown, (s, storage, user_id, mode), by_clock),
    ensures
        cooldown_rightly(storage@, s.config, user_id, mode, now, res),
        exists|read: UtcTime| #[trigger]
            read.shown_by_clock() && cooldown_rightly(
                storage@,
                s.config,
                user_id,
                mode,
                read,
                by_clock,
            ),
{
    cooldown(*s, storage@, user_id, mode, now, res);
    let read = choose|read: UtcTime|
        read.shown_by_clock() && #[trigger] s.answers_cooldown(
            storage@,
            user_id,
            mode,
            read,
            by_clock,
        );
    cooldown(*s, storage@, user_id, mode, read, by_clock);
    assert(read.shown_by_clock() && cooldown_rightly(
        storage@,
        s.config,
        user_id,
        mode,
        read,
        by_clock,
    ));
}

/// A trigger makes the player due at the instant, unless it is in cooldown: then, and where the
/// cooldown is an error, nothing is changed.
pub open spec fn trigger_rightly(
    before: TablesView,
    after: TablesView,
    config: SchedulerConfig,
    user_id: i64,
    mode: GameMode,
    now: UtcTime,
    res: Result<(), StorageError>,
) -> bool {
    forall|cooling: Result<bool, StorageError>| #[trigger]
        cooldown_rightly(before, config, user_id, mode, now, cooling) ==> match cooling {
            Ok(true) => res == Ok::<(), StorageError>(()) && after == before,
            Ok(false) => res == Ok::<(), StorageError>(()) && next_is_set(
                before,
                after,
                user_id,
                mode,
                now.secs,
            ),
            Err(e) => res == Err::<(), StorageError>(e) && after == before,
        }
}

proof fn trigger(
    s: Scheduler,
    t: TablesView,
    user_id: i64,
    mode: GameMode,
    now: UtcTime,
    res: Result<(), StorageError>,
    after: TablesView,
)
    requires
        t.wf(),
        s.triggers(t, user_id, mode, now, res, after),
    ensures
        trigger_rightly(t, after, s.config, user_id, mode, now, res),
{
    let right = if s.cooldown_refused(t, user_id, mode) {
        Err::<bool, StorageError>(StorageError::TimeOutOfRange)
    } else {
        Ok(t.in_cooldown(user_id, mode, s.config.group_trigger_cooldown_hours, now))
    };
    cooldown(s, t, user_id, mode, now, right);
    last_activity_of(t, user_id, mode);
    assert(activity_is_read(t, user_id, mode, t.last_update(user_id, mode)));
    assert forall|cooling: Result<bool, StorageError>| #[trigger]
        cooldown_rightly(t, s.config, user_id, mode, now, cooling) implies cooling == right by {
        assert(activity_is_read(t, user_id, mode, t.last_update(user_id, mode)));
    }
    next_set(t, user_id, mode, now);
}

/// A trigger makes due who is not in cooldown, at the instant that is given.
pub proof fn trigger_makes_due(
    s: &Scheduler,
    storage: &mut Storage,
    user_id: i64,
    mode: GameMode,
    now: UtcTime,
    res: Result<(), StorageError>,
)
    requires
        old(storage).wf(),
        call_ensures(Scheduler::trigger_update_at, (s, storage, user_id, mode, now), res),
    ensures
        trigger_rightly(old(storage)@, final(storage)@, s.config, user_id, mode, now, res),
{
    trigger(*s, old(storage)@, user_id, mode, now, res, final(storage)@);
}

/// The same by the clock.
pub proof fn trigger_makes_due_now(
    s: &Scheduler,
    storage: &mut Storage,
    user_id: i64,
    mode: GameMode,
    res: Result<(), StorageError>,
)
    requires
        old(storage).wf(),
        call_ensures(Scheduler::trigger_update, (s, storage, user_id, mode), res),
    ensures
        exists|now: UtcTime| #[trigger]
            now.shown_by_clock() && trigger_rightly(
                old(storage)@,
                final(storage)@,
                s.config,
                user_id,
                mode,
                now,
                res,
            ),
{
    let now = choose|now: UtcTime|
        now.shown_by_clock() && #[trigger] s.triggers(
            old(storage)@,
            user_id,
            mode,
            now,
            res,
            final(storage)@,
        );
    trigger(*s, old(storage)@, user_id, mode, now, res, final(storage)@);
    assert(now.shown_by_clock() && trigger_rightly(
        old(storage)@,
        final(storage)@,
        s.config,
        user_id,
        mode,
        now,
        res,
    ));
}

/// Rescheduling makes every player that has a next update due, by the clock, and counts them.
pub proof fn rescheduling_makes_all_due(s: &Scheduler, storage: &mut Storage, res: u64)
    requires
        call_ensures(Scheduler::reschedule_all, (s, storage), res),
    ensures
        exists|now: UtcTime| #[trigger]
            now.shown_by_clock() && all_are_due(old(storage)@, final(storage)@, now.secs),
        res == old(storage)@.next_updates.len(),
{
    let now = choose|now: UtcTime|
        now.shown_by_clock() && final(storage)@ == #[trigger] old(storage)@.all_due(now.secs);
    assert(now.shown_by_clock() && all_are_due(old(storage)@, final(storage)@, now.secs));
}

} // verus!
