//! Laws of the scheduler.
use crate::laws::updates::scheduled_player_is_due;
use crate::rows::{NextUpdateRow, TablesView};
use crate::scheduler::{
    answers, idle_activity, known, on_tables, play_times, snapshot_wanted, step_follows, successful,
    unsuccessful, ApiError, EvalStep, Evaluation, Failed, Reply, Scheduler, SchedulerConfig,
    UpdateResult, UserActivity, RECENT_HOURS,
};
use crate::table::{first_where_replaced, first_where_replaced_other};
use crate::time::{hours_between, UtcTime};
use crate::types::{snapshot_of, GameMode, UserStats, UserStatsSnapshot};
use crate::updates::next_of;
use vstd::prelude::*;

verus! {

/// What the world has to say in the course of an evaluation, as far as it bears on the result.
pub struct World {
    pub permit: bool,
    pub stats: Result<UserStats, ApiError>,
    pub played_recently: Result<bool, Failed>,
    pub played_today: Result<bool, Failed>,
    pub last_update: Result<Option<UtcTime>, Failed>,
}

/// The reply to the step is what the world has to say.
pub open spec fn says(w: World, step: EvalStep, reply: Reply) -> bool {
    &&& answers(step, reply)
    &&& match step {
        EvalStep::AcquirePermit => reply == Reply::Permit(w.permit),
        EvalStep::FetchStats => reply == Reply::Stats(w.stats),
        EvalStep::CheckRecent { .. } => reply == Reply::Played(w.played_recently),
        EvalStep::CheckToday { .. } => reply == Reply::Played(w.played_today),
        EvalStep::ReadLastUpdate => reply == Reply::LastUpdate(w.last_update),
        _ => true,
    }
}

/// The activity by the plays, and without any by the last activity.
pub open spec fn activity_of(
    now: UtcTime,
    recently: bool,
    today: bool,
    last: Option<UtcTime>,
) -> UserActivity {
    if recently {
        UserActivity::SemiActive
    } else if today {
        UserActivity::Normal
    } else {
        idle_activity(now, last)
    }
}

/// What the evaluation of a player comes to.
pub open spec fn evaluated(now: UtcTime, w: World) -> UpdateResult {
    if !w.permit {
        unsuccessful()
    } else {
        match w.stats {
            Err(ApiError::NotFound) => successful(UserActivity::UserNotExists),
            Err(_) => unsuccessful(),
            Ok(_) => successful(
                activity_of(
                    now,
                    w.played_recently == Ok::<bool, Failed>(true),
                    w.played_today == Ok::<bool, Failed>(true),
                    known(w.last_update),
                ),
            ),
        }
    }
}

/// What the evaluation comes to from a step on.
pub open spec fn outlook(now: UtcTime, w: World, step: EvalStep) -> UpdateResult {
    let recently = w.played_recently == Ok::<bool, Failed>(true);
    let today = w.played_today == Ok::<bool, Failed>(true);
    let last = known(w.last_update);
    match step {
        EvalStep::AcquirePermit => evaluated(now, w),
        EvalStep::FetchStats => evaluated(now, World { permit: true, ..w }),
        EvalStep::FindDayStart { has_recent } => successful(
            activity_of(now, has_recent, today, last),
        ),
        EvalStep::CheckToday { has_recent, .. } => successful(
            activity_of(now, has_recent, today, last),
        ),
        EvalStep::ReadLastUpdate => successful(idle_activity(now, last)),
        EvalStep::MarkActive { activity } => successful(activity),
        EvalStep::Done(result) => result,
        _ => successful(activity_of(now, recently, today, last)),
    }
}

/// How many steps may still follow.
pub open spec fn steps_left(step: EvalStep) -> nat {
    match step {
        EvalStep::AcquirePermit => 13,
        EvalStep::FetchStats => 12,
        EvalStep::RenameBindings { .. } => 11,
        EvalStep::CacheUserId { .. } => 10,
        EvalStep::ReadLatest { .. } => 9,
        EvalStep::SaveStats { .. } => 8,
        EvalStep::FetchRecent => 7,
        EvalStep::SavePlays { .. } => 6,
        EvalStep::CheckRecent { .. } => 5,
        EvalStep::FindDayStart { .. } => 4,
        EvalStep::CheckToday { .. } => 3,
        EvalStep::ReadLastUpdate => 2,
        EvalStep::MarkActive { .. } => 1,
        EvalStep::Done(_) => 0,
    }
}

/// Every step brings the evaluation closer to its end.
pub proof fn evaluation_goes_on(now: UtcTime, step: EvalStep, reply: Reply, next: EvalStep)
    requires
        step_follows(now, step, reply, next),
    ensures
        steps_left(next) < steps_left(step),
{
}

/// The evaluation comes to what the world has to say: no success without a permit or without an
/// answer of the service, `UserNotExists` where the service knows no such player, and otherwise
/// the activity by the plays of the last hours, of the day, and by the last activity, where what
/// cannot be read counts as not there. It takes thirteen steps at most.
pub proof fn evaluation_comes_to(
    now: UtcTime,
    w: World,
    steps: Seq<EvalStep>,
    replies: Seq<Reply>,
)
    requires
        steps.len() == replies.len() + 1,
        steps[0] == EvalStep::AcquirePermit,
        steps.last() is Done,
        forall|i: int|
            0 <= i < replies.len() ==> {
                &&& says(w, steps[i], #[trigger] replies[i])
                &&& step_follows(now, steps[i], replies[i], steps[i + 1])
            },
    ensures
        steps.last() == EvalStep::Done(evaluated(now, w)),
        replies.len() <= 13,
{
    evaluation_keeps_outlook(now, w, steps, replies, replies.len() as int);
}

/// The outlook does not change from the first step to the `n`th.
proof fn evaluation_keeps_outlook(
    now: UtcTime,
    w: World,
    steps: Seq<EvalStep>,
    replies: Seq<Reply>,
    n: int,
)
    requires
        0 <= n <= replies.len(),
        steps.len() == replies.len() + 1,
        steps[0] == EvalStep::AcquirePermit,
        forall|i: int|
            0 <= i < replies.len() ==> {
                &&& says(w, steps[i], #[trigger] replies[i])
                &&& step_follows(now, steps[i], replies[i], steps[i + 1])
            },
    ensures
        outlook(now, w, steps[n]) == evaluated(now, w),
        n + steps_left(steps[n]) <= 13,
    decreases n,
{
    if n > 0 {
        evaluation_keeps_outlook(now, w, steps, replies, n - 1);
        assert(says(w, steps[n - 1], replies[n - 1]));
        evaluation_goes_on(now, steps[n - 1], replies[n - 1], steps[n]);
    }
}

/// What the world outside the tables has to say in the course of an evaluation, and when the
/// statistics are saved.
pub struct Outside {
    pub permit: bool,
    pub stats: Result<UserStats, ApiError>,
    pub recent: Result<Vec<String>, ApiError>,
    pub day_start: i64,
    pub saved_at: UtcTime,
}

/// The step is answered `reply` by the world or by the tables, and makes `after` of the tables.
pub open spec fn carried_out(
    w: Outside,
    e: Evaluation,
    reply: Reply,
    t: TablesView,
    after: TablesView,
) -> bool {
    &&& answers(e.step, reply)
    &&& if on_tables(e.step) {
        t.step_reply(e, reply) && after == t.after_step(e, w.saved_at)
    } else {
        after == t && match e.step {
            EvalStep::AcquirePermit => reply == Reply::Permit(w.permit),
            EvalStep::FetchStats => reply == Reply::Stats(w.stats),
            EvalStep::FetchRecent => reply == Reply::Recent(w.recent),
            EvalStep::FindDayStart { .. } => reply == Reply::DayStart(w.day_start),
            _ => true,
        }
    }
}

/// The tables once the player has been renamed and its number is known under the name.
pub open spec fn after_naming(t: TablesView, user_id: i64, stats: UserStats) -> TablesView {
    t.renamed(user_id, stats.username@).with_user_id(stats.username@, user_id)
}

/// The tables once the statistics have been saved, where that is wanted.
pub open spec fn after_saving(
    t: TablesView,
    user_id: i64,
    mode: GameMode,
    stats: UserStats,
    at: UtcTime,
) -> TablesView {
    if snapshot_wanted(Ok(t.latest(user_id, mode)), stats) {
        t.with_stats(user_id, mode, snapshot_of(stats), at)
    } else {
        t
    }
}

/// The tables and the result once the plays are known and it is known whether one is recent.
pub open spec fn after_plays(
    t: TablesView,
    user_id: i64,
    mode: GameMode,
    now: UtcTime,
    recently: bool,
    today: bool,
) -> (TablesView, UpdateResult) {
    (
        if recently || today {
            t.with_last_update(user_id, mode, now)
        } else {
            t
        },
        successful(activity_of(now, recently, today, t.last_update(user_id, mode))),
    )
}

/// The tables and the result once the statistics have been dealt with: the recent plays are saved,
/// and the activity goes by all the plays that the tables then have.
pub open spec fn after_stats(
    t: TablesView,
    user_id: i64,
    mode: GameMode,
    now: UtcTime,
    timestamps: Seq<i64>,
    day_start: i64,
) -> (TablesView, UpdateResult) {
    let played = t.with_plays(user_id, mode, timestamps);
    after_plays(
        played,
        user_id,
        mode,
        now,
        played.has_play(user_id, mode, (now.secs - RECENT_HOURS * 3_600) as i64),
        played.has_play(user_id, mode, day_start),
    )
}

/// What a whole evaluation makes of the tables, and what it comes to.
pub open spec fn after_evaluation(
    t: TablesView,
    user_id: i64,
    mode: GameMode,
    now: UtcTime,
    w: Outside,
) -> (TablesView, UpdateResult) {
    if !w.permit {
        (t, unsuccessful())
    } else {
        match w.stats {
            Err(ApiError::NotFound) => (t, successful(UserActivity::UserNotExists)),
            Err(_) => (t, unsuccessful()),
            Ok(stats) => after_stats(
                after_saving(after_naming(t, user_id, stats), user_id, mode, stats, w.saved_at),
                user_id,
                mode,
                now,
                play_times(w.recent),
                w.day_start,
            ),
        }
    }
}

/// What the evaluation makes of the tables and comes to, from a step on.
pub open spec fn prospect(t: TablesView, e: Evaluation, w: Outside) -> (TablesView, UpdateResult) {
    let (user_id, mode, now) = (e.user_id, e.mode, e.now);
    let times = play_times(w.recent);
    match e.step {
        EvalStep::AcquirePermit => after_evaluation(t, user_id, mode, now, w),
        EvalStep::FetchStats => after_evaluation(
            t,
            user_id,
            mode,
            now,
            Outside { permit: true, ..w },
        ),
        EvalStep::RenameBindings { stats } => after_stats(
            after_saving(after_naming(t, user_id, stats), user_id, mode, stats, w.saved_at),
            user_id,
            mode,
            now,
            times,
            w.day_start,
        ),
        EvalStep::CacheUserId { stats } => after_stats(
            after_saving(
                t.with_user_id(stats.username@, user_id),
                user_id,
                mode,
                stats,
                w.saved_at,
            ),
            user_id,
            mode,
            now,
            times,
            w.day_start,
        ),
        EvalStep::ReadLatest { stats } => after_stats(
            after_saving(t, user_id, mode, stats, w.saved_at),
            user_id,
            mode,
            now,
            times,
            w.day_start,
        ),
        EvalStep::SaveStats { stats } => after_stats(
            t.with_stats(user_id, mode, snapshot_of(stats), w.saved_at),
            user_id,
            mode,
            now,
            times,
            w.day_start,
        ),
        EvalStep::FetchRecent => after_stats(t, user_id, mode, now, times, w.day_start),
        EvalStep::SavePlays { timestamps } => after_stats(
            t,
            user_id,
            mode,
            now,
            timestamps@,
            w.day_start,
        ),
        EvalStep::CheckRecent { since } => after_plays(
            t,
            user_id,
            mode,
            now,
            t.has_play(user_id, mode, since),
            t.has_play(user_id, mode, w.day_start),
        ),
        EvalStep::FindDayStart { has_recent } => after_plays(
            t,
            user_id,
            mode,
            now,
            has_recent,
            t.has_play(user_id, mode, w.day_start),
        ),
        EvalStep::CheckToday { has_recent, since } => after_plays(
            t,
            user_id,
            mode,
            now,
            has_recent,
            t.has_play(user_id, mode, since),
        ),
        EvalStep::ReadLastUpdate => after_plays(t, user_id, mode, now, false, false),
        EvalStep::MarkActive { activity } => (
            t.with_last_update(user_id, mode, now),
            successful(activity),
        ),
        EvalStep::Done(result) => (t, result),
    }
}

/// The evaluations are the same but for the step.
pub open spec fn same_evaluation(a: Evaluation, b: Evaluation) -> bool {
    a.user_id == b.user_id && a.mode == b.mode && a.now == b.now
}

/// The `i`th step of the run is carried out, and the next one follows it.
pub open spec fn goes_on(
    w: Outside,
    run: Seq<Evaluation>,
    replies: Seq<Reply>,
    tables: Seq<TablesView>,
    i: int,
) -> bool {
    &&& same_evaluation(run[i], run[i + 1])
    &&& step_follows(run[i].now, run[i].step, replies[i], run[i + 1].step)
    &&& carried_out(w, run[i], replies[i], tables[i], tables[i + 1])
}

/// A step keeps what the evaluation makes of the tables and comes to.
proof fn step_keeps_prospect(
    w: Outside,
    e: Evaluation,
    reply: Reply,
    next: Evaluation,
    t: TablesView,
    after: TablesView,
)
    requires
        same_evaluation(e, next),
        step_follows(e.now, e.step, reply, next.step),
        carried_out(w, e, reply, t, after),
    ensures
        prospect(after, next, w) == prospect(t, e, w),
{
}

/// A whole evaluation, from the first step to the last, on tables that can be read and written:
/// without a permit or an answer of the service the tables are as they were; otherwise the player
/// is renamed and its number noted, the statistics are saved where rank or number of plays differ
/// from the latest snapshot, the recent plays are saved, and the activity is noted where the tables
/// then have a play of the last hours or of the day. The result goes by the same plays, and without
/// one by the last activity.
pub proof fn evaluation_makes_of_the_tables(
    w: Outside,
    run: Seq<Evaluation>,
    replies: Seq<Reply>,
    tables: Seq<TablesView>,
)
    requires
        run.len() == replies.len() + 1,
        tables.len() == run.len(),
        run[0].step is AcquirePermit,
        run.last().step is Done,
        forall|i: int|
            0 <= i < replies.len() ==> #[trigger] goes_on(w, run, replies, tables, i),
    ensures
        ({
            let (after, result) = after_evaluation(
                tables[0],
                run[0].user_id,
                run[0].mode,
                run[0].now,
                w,
            );
            tables.last() == after && run.last().step == EvalStep::Done(result)
        }),
{
    run_keeps_prospect(w, run, replies, tables, replies.len() as int);
}

/// The prospect does not change from the first step to the `n`th.
proof fn run_keeps_prospect(
    w: Outside,
    run: Seq<Evaluation>,
    replies: Seq<Reply>,
    tables: Seq<TablesView>,
    n: int,
)
    requires
        0 <= n <= replies.len(),
        run.len() == replies.len() + 1,
        tables.len() == run.len(),
        forall|i: int|
            0 <= i < replies.len() ==> #[trigger] goes_on(w, run, replies, tables, i),
    ensures
        prospect(tables[n], run[n], w) == prospect(tables[0], run[0], w),
    decreases n,
{
    if n > 0 {
        run_keeps_prospect(w, run, replies, tables, n - 1);
        let i = n - 1;
        assert(goes_on(w, run, replies, tables, i));
        step_keeps_prospect(w, run[i], replies[i], run[i + 1], tables[i], tables[i + 1]);
    }
}

/// The statistics that the service answered are those that are compared and saved, and they are
/// saved exactly where the latest snapshot cannot be read, is missing, or has another rank or
/// number of plays.
pub proof fn snapshot_is_saved_when_wanted(
    now: UtcTime,
    stats: UserStats,
    latest: Result<Option<UserStatsSnapshot>, Failed>,
    next: EvalStep,
)
    requires
        step_follows(now, EvalStep::ReadLatest { stats }, Reply::Latest(latest), next),
    ensures
        next == (EvalStep::SaveStats { stats }) || next == EvalStep::FetchRecent,
        next is FetchRecent <==> (latest matches Ok(Some(prev)) && crate::types::or(prev.rank, 0)
            == stats.rank && crate::types::or(prev.playcount, 0) == stats.playcount),
{
}

/// The activity is noted exactly for players that have a play of the last hours or of the day.
pub proof fn activity_is_noted_for_plays_only(
    now: UtcTime,
    has_recent: bool,
    since: i64,
    found: Result<bool, Failed>,
    next: EvalStep,
)
    requires
        step_follows(
            now,
            EvalStep::CheckToday { has_recent, since },
            Reply::Played(found),
            next,
        ),
    ensures
        next is MarkActive <==> has_recent || found == Ok::<bool, Failed>(true),
{
}

/// An evaluation changes neither which player an account is bound to, nor when players are due,
/// nor the requests that wait, nor the listeners.
pub proof fn evaluation_leaves_the_rest_alone(t: TablesView, e: Evaluation, at: UtcTime)
    ensures
        ({
            let after = t.after_step(e, at);
            &&& after.bindings.len() == t.bindings.len()
            &&& forall|i: int|
                0 <= i < t.bindings.len() ==> {
                    let (a, b) = (#[trigger] after.bindings[i], t.bindings[i]);
                    a.qq == b.qq && a.user_id == b.user_id && a.default_mode == b.default_mode
                }
            &&& after.next_updates == t.next_updates
            &&& after.pending_unbinds == t.pending_unbinds
            &&& after.pending_binds == t.pending_binds
            &&& after.listeners == t.listeners
        }),
{
}

/// A player whose evaluation failed is looked at again after five minutes, whatever the settings.
pub proof fn failure_backs_off(config: SchedulerConfig, activity: UserActivity)
    ensures
        config.delay(UpdateResult { activity, success: false }) == 300,
{
}

/// The result is one of the player in the mode whose time is in range.
pub open spec fn sets_time(
    config: SchedulerConfig,
    r: (i64, GameMode, UpdateResult, UtcTime),
    user_id: i64,
    mode: GameMode,
) -> bool {
    r.0 == user_id && r.1 == mode && r.3.can_shift(config.delay(r.2))
}

/// A round changes nothing but next updates, and those of the players and modes that are in none
/// of its results, or only in results whose time is out of range, are as they were.
pub proof fn round_leaves_others(
    config: SchedulerConfig,
    t: TablesView,
    results: Seq<(i64, GameMode, UpdateResult, UtcTime)>,
    user_id: i64,
    mode: GameMode,
    now: UtcTime,
)
    requires
        forall|i: int|
            0 <= i < results.len() ==> !sets_time(config, #[trigger] results[i], user_id, mode),
    ensures
        config.after_round(t, results).next_update(user_id, mode, now) == t.next_update(
            user_id,
            mode,
            now,
        ),
        config.after_round(t, results) == (TablesView {
            next_updates: config.after_round(t, results).next_updates,
            ..t
        }),
    decreases results.len(),
{
    if results.len() > 0 {
        let rest = results.drop_last();
        assert forall|i: int| 0 <= i < rest.len() implies !sets_time(
            config,
            #[trigger] rest[i],
            user_id,
            mode,
        ) by {
            assert(rest[i] == results[i]);
        }
        round_leaves_others(config, t, rest, user_id, mode, now);
        let before = config.after_round(t, rest);
        let r = results.last();
        assert(r == results[results.len() - 1]);
        if r.3.can_shift(config.delay(r.2)) {
            let time = r.3.plus_seconds(config.delay(r.2));
            let row = NextUpdateRow { user_id: r.0, mode: r.1.code(), next_update: time.secs };
            assert(r.1.code() != mode.code() || r.0 != user_id);
            first_where_replaced_other(
                before.next_updates,
                next_of(r.0, r.1),
                row,
                next_of(user_id, mode),
            );
        }
    }
}

/// After a round each player of the results is looked at again at the time of its own result: the
/// last one of the player in the mode whose time is in range.
pub proof fn round_sets_each_time(
    config: SchedulerConfig,
    t: TablesView,
    results: Seq<(i64, GameMode, UpdateResult, UtcTime)>,
    i: int,
    now: UtcTime,
)
    requires
        0 <= i < results.len(),
        results[i].3.valid(),
        results[i].3.can_shift(config.delay(results[i].2)),
        forall|j: int|
            i < j < results.len() ==> !sets_time(
                config,
                #[trigger] results[j],
                results[i].0,
                results[i].1,
            ),
    ensures
        ({
            let (user_id, mode, result, at) = results[i];
            config.after_round(t, results).next_update(user_id, mode, now) == Some(
                UtcTime { secs: (at.secs + config.delay(result)) as i64, nanos: 0 },
            )
        }),
    decreases results.len(),
{
    let rest = results.drop_last();
    let before = config.after_round(t, rest);
    let (user_id, mode, result, at) = results[i];
    let r = results.last();
    assert(r == results[results.len() - 1]);
    let row = NextUpdateRow {
        user_id: r.0,
        mode: r.1.code(),
        next_update: r.3.plus_seconds(config.delay(r.2)).secs,
    };
    if i == results.len() - 1 {
        first_where_replaced(before.next_updates, next_of(user_id, mode), row);
    } else {
        assert(rest[i] == results[i]);
        assert forall|j: int| i < j < rest.len() implies !sets_time(
            config,
            #[trigger] rest[j],
            user_id,
            mode,
        ) by {
            assert(rest[j] == results[j]);
        }
        round_sets_each_time(config, t, rest, i, now);
        if r.3.can_shift(config.delay(r.2)) {
            assert(r.1.code() != mode.code() || r.0 != user_id);
            first_where_replaced_other(
                before.next_updates,
                next_of(r.0, r.1),
                row,
                next_of(user_id, mode),
            );
        }
    }
}

/// A player that is triggered is due, unless it is in cooldown; in cooldown nothing changes.
pub proof fn trigger_makes_due(
    t: TablesView,
    user_id: i64,
    mode: GameMode,
    hours: i64,
    now: UtcTime,
    later: i64,
)
    requires
        now.secs <= later,
    ensures
        t.in_cooldown(user_id, mode, hours, now) ==> t.triggered(user_id, mode, hours, now) == t,
        !t.in_cooldown(user_id, mode, hours, now) ==> t.triggered(
            user_id,
            mode,
            hours,
            now,
        ).due(later).contains((user_id, mode)),
{
    if !t.in_cooldown(user_id, mode, hours, now) {
        scheduled_player_is_due(t, user_id, mode, now, later);
    }
}

/// A player whose activity was just noted is in cooldown, where the cooldown is longer than
/// nothing; one without a known activity never is.
pub proof fn noted_player_is_in_cooldown(
    t: TablesView,
    user_id: i64,
    mode: GameMode,
    hours: i64,
    now: UtcTime,
)
    ensures
        t.last_update(user_id, mode) == Some(now) && hours > 0 ==> t.in_cooldown(
            user_id,
            mode,
            hours,
            now,
        ),
        t.last_update(user_id, mode) is None ==> !t.in_cooldown(user_id, mode, hours, now),
{
}

/// After a cleanup there is none for a day.
pub proof fn cleanup_once_a_day(s: Scheduler, done: UtcTime, now: UtcTime)
    requires
        s.last_cleanup == Some(done),
    ensures
        s.cleaned_recently(now) <==> hours_between(now, done) < 24,
{
}

} // verus!
