//! When players are looked at, what is done for each of them, and when old records are cleaned up.
use crate::bindings::to_rename;
use crate::rows::TablesView;
use crate::storage::Storage;
use crate::table::{select_some, views};
use crate::time::{hours_between, instant_of, nanos_between, plain_year, utc_now, UtcTime};
use crate::types::{or, snapshot_of, GameMode, StorageError, UserStats, UserStatsSnapshot};
use vstd::prelude::*;

verus! {

/// How many minutes to wait before a player whose evaluation failed is looked at again.
pub const BACKOFF_MINUTES: i64 = 5;

/// How many hours a player counts as playing after a play.
pub const RECENT_HOURS: i64 = 4;

/// The settings of the scheduler.
#[derive(Clone, Copy, Debug, PartialEq, Eq, Structural)]
pub struct SchedulerConfig {
    pub interval_minutes: u64,
    pub retention_days: u64,
    pub cache_retention_days: u64,
    pub max_cache_size_bytes: u64,
    pub semi_active_interval_hours: i64,
    pub normal_interval_hours: i64,
    pub inactive_interval_hours: i64,
    pub no_recent_interval_hours: i64,
    pub user_not_exists_interval_hours: i64,
    pub group_trigger_cooldown_hours: i64,
}

/// How active a player is in one mode.
#[derive(Clone, Copy, Debug, PartialEq, Eq, Structural)]
pub enum UserActivity {
    SemiActive,
    Normal,
    Inactive,
    NoRecent,
    UserNotExists,
}

/// What the evaluation of a player comes to.
#[derive(Clone, Copy, Debug, PartialEq, Eq, Structural)]
pub struct UpdateResult {
    pub activity: UserActivity,
    pub success: bool,
}

/// Why a request to the game's service failed.
#[derive(Clone, Copy, Debug, PartialEq, Eq, Structural)]
pub enum ApiError {
    NotFound,
    RateLimitedWithRetryAfter(u64),
    ClientRateLimited,
    Other,
}

/// An access to the database failed.
#[derive(Clone, Copy, Debug, PartialEq, Eq, Structural)]
pub struct Failed;

/// What the evaluation of a player does next.
#[derive(Clone, Debug)]
pub enum EvalStep {
    /// Ask the rate limiter for leave to call the service.
    AcquirePermit,
    /// Ask the service for the player's statistics.
    FetchStats,
    /// Give the player's bindings the name that the service knows.
    RenameBindings { stats: UserStats },
    /// Remember the player's number under that name.
    CacheUserId { stats: UserStats },
    /// Look up the latest snapshot.
    ReadLatest { stats: UserStats },
    /// Save the statistics as a snapshot.
    SaveStats { stats: UserStats },
    /// Ask the service for the player's recent plays.
    FetchRecent,
    /// Save the plays.
    SavePlays { timestamps: Vec<i64> },
    /// Look for a play since a timestamp a few hours ago.
    CheckRecent { since: i64 },
    /// Find out when the day began.
    FindDayStart { has_recent: bool },
    /// Look for a play since the day began.
    CheckToday { has_recent: bool, since: i64 },
    /// Look up when the player was last active.
    ReadLastUpdate,
    /// Note that the player is active.
    MarkActive { activity: UserActivity },
    /// Nothing: this is what it came to.
    Done(UpdateResult),
}

/// How the world answered a step.
#[derive(Debug)]
pub enum Reply {
    Permit(bool),
    Stats(Result<UserStats, ApiError>),
    Renamed(Result<u64, Failed>),
    Cached(Result<(), Failed>),
    Latest(Result<Option<UserStatsSnapshot>, Failed>),
    Saved(Result<(), Failed>),
    Recent(Result<Vec<String>, ApiError>),
    PlaysSaved(Result<i64, Failed>),
    Played(Result<bool, Failed>),
    DayStart(i64),
    LastUpdate(Result<Option<UtcTime>, Failed>),
    Marked(Result<(), Failed>),
}

/// The evaluation of a player in one mode, begun at `now`.
#[derive(Clone, Debug)]
pub struct Evaluation {
    pub user_id: i64,
    pub mode: GameMode,
    pub now: UtcTime,
    pub step: EvalStep,
}

/// The reply is one to the step.
pub open spec fn answers(step: EvalStep, reply: Reply) -> bool {
    match step {
        EvalStep::AcquirePermit => reply is Permit,
        EvalStep::FetchStats => reply is Stats,
        EvalStep::RenameBindings { .. } => reply is Renamed,
        EvalStep::CacheUserId { .. } => reply is Cached,
        EvalStep::ReadLatest { .. } => reply is Latest,
        EvalStep::SaveStats { .. } => reply is Saved,
        EvalStep::FetchRecent => reply is Recent,
        EvalStep::SavePlays { .. } => reply is PlaysSaved,
        EvalStep::CheckRecent { .. } => reply is Played,
        EvalStep::FindDayStart { .. } => reply is DayStart,
        EvalStep::CheckToday { .. } => reply is Played,
        EvalStep::ReadLastUpdate => reply is LastUpdate && (reply->LastUpdate_0 matches Ok(Some(t))
            ==> t.valid()),
        EvalStep::MarkActive { .. } => reply is Marked,
        EvalStep::Done(_) => false,
    }
}

/// A snapshot is worth saving: the latest is not known, or rank or number of plays differ from
/// it.
pub open spec fn snapshot_wanted(
    latest: Result<Option<UserStatsSnapshot>, Failed>,
    current: UserStats,
) -> bool {
    match latest {
        Ok(Some(prev)) => or(prev.rank, 0) != current.rank || or(prev.playcount, 0)
            != current.playcount,
        _ => true,
    }
}

/// The timestamp of a play, where its instant can be read.
pub open spec fn play_time() -> spec_fn(Seq<char>) -> Option<i64> {
    |text: Seq<char>|
        match instant_of(text) {
            Some(t) => Some(t.secs),
            None => None,
        }
}

/// The timestamps of the recent plays, as far as they are known.
pub open spec fn play_times(recent: Result<Vec<String>, ApiError>) -> Seq<i64> {
    match recent {
        Ok(texts) => views(texts@).filter_map(play_time()),
        Err(_) => Seq::empty(),
    }
}

/// How active a player without a play today is, by the hours since the last activity.
pub open spec fn idle_activity(now: UtcTime, last: Option<UtcTime>) -> UserActivity {
    match last {
        Some(t) => if hours_between(now, t) < 8 {
            UserActivity::NoRecent
        } else if hours_between(now, t) < 48 {
            UserActivity::Normal
        } else {
            UserActivity::Inactive
        },
        None => UserActivity::Inactive,
    }
}

/// The evaluation could not be carried out.
pub open spec fn unsuccessful() -> UpdateResult {
    UpdateResult { activity: UserActivity::NoRecent, success: false }
}

/// The evaluation came to this activity.
pub open spec fn successful(activity: UserActivity) -> UpdateResult {
    UpdateResult { activity, success: true }
}

/// The value, unless it could not be read.
pub open spec fn known<T>(r: Result<Option<T>, Failed>) -> Option<T> {
    match r {
        Ok(o) => o,
        Err(_) => None,
    }
}

/// `next` is the step after `step` where the world answers `reply`.
pub open spec fn step_follows(now: UtcTime, step: EvalStep, reply: Reply, next: EvalStep) -> bool {
    match (step, reply) {
        (EvalStep::AcquirePermit, Reply::Permit(granted)) => next == if granted {
            EvalStep::FetchStats
        } else {
            EvalStep::Done(unsuccessful())
        },
        (EvalStep::FetchStats, Reply::Stats(fetched)) => next == match fetched {
            Ok(stats) => EvalStep::RenameBindings { stats },
            Err(ApiError::NotFound) => EvalStep::Done(successful(UserActivity::UserNotExists)),
            Err(_) => EvalStep::Done(unsuccessful()),
        },
        (EvalStep::RenameBindings { stats }, Reply::Renamed(_)) => next == (EvalStep::CacheUserId {
            stats,
        }),
        (EvalStep::CacheUserId { stats }, Reply::Cached(_)) => next == (EvalStep::ReadLatest {
            stats,
        }),
        (EvalStep::ReadLatest { stats }, Reply::Latest(latest)) => next == if snapshot_wanted(
            latest,
            stats,
        ) {
            EvalStep::SaveStats { stats }
        } else {
            EvalStep::FetchRecent
        },
        (EvalStep::SaveStats { stats }, Reply::Saved(_)) => next == EvalStep::FetchRecent,
        (EvalStep::FetchRecent, Reply::Recent(recent)) => next matches EvalStep::SavePlays {
            timestamps,
        } && timestamps@ == play_times(recent),
        (EvalStep::SavePlays { .. }, Reply::PlaysSaved(_)) => next == (EvalStep::CheckRecent {
            since: (now.secs - RECENT_HOURS * 3_600) as i64,
        }),
        (EvalStep::CheckRecent { .. }, Reply::Played(found)) => next == (EvalStep::FindDayStart {
            has_recent: found == Ok::<bool, Failed>(true),
        }),
        (EvalStep::FindDayStart { has_recent }, Reply::DayStart(since)) => next == (
        EvalStep::CheckToday { has_recent, since }),
        (EvalStep::CheckToday { has_recent, .. }, Reply::Played(found)) => next == if has_recent {
            EvalStep::MarkActive { activity: UserActivity::SemiActive }
        } else if found == Ok::<bool, Failed>(true) {
            EvalStep::MarkActive { activity: UserActivity::Normal }
        } else {
            EvalStep::ReadLastUpdate
        },
        (EvalStep::ReadLastUpdate, Reply::LastUpdate(last)) => next == EvalStep::Done(
            successful(idle_activity(now, known(last))),
        ),
        (EvalStep::MarkActive { activity }, Reply::Marked(_)) => next == EvalStep::Done(
            successful(activity),
        ),
        _ => false,
    }
}

/// The timestamps of the plays whose instants can be read.
fn play_timestamps(texts: &Vec<String>) -> (res: Vec<i64>)
    ensures
        res@ == views(texts@).filter_map(play_time()),
{
    let res = select_some(
        texts,
        |text: &String| -> (r: Option<i64>)
            ensures r == play_time()(text@) {
            match UtcTime::parse(text.as_str()) {
                Some(t) => Some(t.secs),
                None => None,
            }
        },
        Ghost(play_time()),
    );
    assert(res@ =~= views(res@));
    res
}

/// Whether a snapshot is worth saving.
pub fn wants_snapshot(
    latest: &Result<Option<UserStatsSnapshot>, Failed>,
    current: &UserStats,
) -> (res: bool)
    ensures
        res == snapshot_wanted(*latest, *current),
{
    match latest {
        Ok(Some(prev)) => prev.rank.unwrap_or(0) != current.rank || prev.playcount.unwrap_or(0)
            != current.playcount,
        _ => true,
    }
}

/// How active a player without a play today is: `NoRecent` within 8 hours of the last activity,
/// `Normal` within 48, and `Inactive` after that or where no activity is known.
pub fn activity_when_idle(now: UtcTime, last: Option<UtcTime>) -> (res: UserActivity)
    requires
        now.valid(),
        last matches Some(t) ==> t.valid(),
    ensures
        res == idle_activity(now, last),
{
    match last {
        Some(t) => {
            let hours: i64 = now.hours_since(t);
            if hours < 8 {
                UserActivity::NoRecent
            } else if hours < 48 {
                UserActivity::Normal
            } else {
                UserActivity::Inactive
            }
        },
        None => UserActivity::Inactive,
    }
}

/// Whether the answer is yes. Where there is none, it is taken to be no.
fn is_yes(found: Result<bool, Failed>) -> (res: bool)
    ensures
        res == (found == Ok::<bool, Failed>(true)),
{
    match found {
        Ok(yes) => yes,
        Err(_) => false,
    }
}

impl Evaluation {
    /// Begins the evaluation of a player in one mode.
    pub fn start(user_id: i64, mode: GameMode, now: UtcTime) -> (res: Evaluation)
        ensures
            res == (Evaluation { user_id, mode, now, step: EvalStep::AcquirePermit }),
    {
        Evaluation { user_id, mode, now, step: EvalStep::AcquirePermit }
    }

    /// Goes on with the reply to the current step.
    pub fn advance(self, reply: Reply) -> (res: Evaluation)
        requires
            self.now.from_clock(),
            answers(self.step, reply),
        ensures
            res.user_id == self.user_id,
            res.mode == self.mode,
            res.now == self.now,
            step_follows(self.now, self.step, reply, res.step),
    {
        let now = self.now;
        let failed = EvalStep::Done(
            UpdateResult { activity: UserActivity::NoRecent, success: false },
        );
        let step = match (self.step, reply) {
            (EvalStep::AcquirePermit, Reply::Permit(granted)) => if granted {
                EvalStep::FetchStats
            } else {
                failed
            },
            (EvalStep::FetchStats, Reply::Stats(fetched)) => match fetched {
                Ok(stats) => EvalStep::RenameBindings { stats },
                Err(ApiError::NotFound) => EvalStep::Done(
                    UpdateResult { activity: UserActivity::UserNotExists, success: true },
                ),
                Err(_) => failed,
            },
            (EvalStep::RenameBindings { stats }, Reply::Renamed(_)) => EvalStep::CacheUserId {
                stats,
            },
            (EvalStep::CacheUserId { stats }, Reply::Cached(_)) => EvalStep::ReadLatest { stats },
            (EvalStep::ReadLatest { stats }, Reply::Latest(latest)) => if wants_snapshot(
                &latest,
                &stats,
            ) {
                EvalStep::SaveStats { stats }
            } else {
                EvalStep::FetchRecent
            },
            (EvalStep::SaveStats { .. }, Reply::Saved(_)) => EvalStep::FetchRecent,
            (EvalStep::FetchRecent, Reply::Recent(recent)) => match recent {
                Ok(texts) => EvalStep::SavePlays { timestamps: play_timestamps(&texts) },
                Err(_) => EvalStep::SavePlays { timestamps: Vec::new() },
            },
            (EvalStep::SavePlays { .. }, Reply::PlaysSaved(_)) => EvalStep::CheckRecent {
                since: now.secs - RECENT_HOURS * 3_600,
            },
            (EvalStep::CheckRecent { .. }, Reply::Played(found)) => EvalStep::FindDayStart {
                has_recent: is_yes(found),
            },
            (EvalStep::FindDayStart { has_recent }, Reply::DayStart(since)) => {
                EvalStep::CheckToday { has_recent, since }
            },
            (EvalStep::CheckToday { has_recent, .. }, Reply::Played(found)) => if has_recent {
                EvalStep::MarkActive { activity: UserActivity::SemiActive }
            } else if is_yes(found) {
                EvalStep::MarkActive { activity: UserActivity::Normal }
            } else {
                EvalStep::ReadLastUpdate
            },
            (EvalStep::ReadLastUpdate, Reply::LastUpdate(last)) => {
                let last: Option<UtcTime> = match last {
                    Ok(last) => last,
                    Err(_) => None,
                };
                EvalStep::Done(
                    UpdateResult { activity: activity_when_idle(now, last), success: true },
                )
            },
            (EvalStep::MarkActive { activity }, Reply::Marked(_)) => EvalStep::Done(
                UpdateResult { activity, success: true },
            ),
            _ => failed,
        };
        Evaluation { user_id: self.user_id, mode: self.mode, now, step }
    }
}

/// The step is carried out on the tables.
pub open spec fn on_tables(step: EvalStep) -> bool {
    match step {
        EvalStep::RenameBindings { .. } => true,
        EvalStep::CacheUserId { .. } => true,
        EvalStep::ReadLatest { .. } => true,
        EvalStep::SaveStats { .. } => true,
        EvalStep::SavePlays { .. } => true,
        EvalStep::CheckRecent { .. } => true,
        EvalStep::CheckToday { .. } => true,
        EvalStep::ReadLastUpdate => true,
        EvalStep::MarkActive { .. } => true,
        _ => false,
    }
}

impl TablesView {
    /// What carrying out a step of an evaluation at `at` makes of the tables.
    pub open spec fn after_step(self, e: Evaluation, at: UtcTime) -> TablesView {
        match e.step {
            EvalStep::RenameBindings { stats } => self.renamed(e.user_id, stats.username@),
            EvalStep::CacheUserId { stats } => self.with_user_id(stats.username@, e.user_id),
            EvalStep::SaveStats { stats } => self.with_stats(
                e.user_id,
                e.mode,
                snapshot_of(stats),
                at,
            ),
            EvalStep::SavePlays { timestamps } => self.with_plays(e.user_id, e.mode, timestamps@),
            EvalStep::MarkActive { .. } => self.with_last_update(e.user_id, e.mode, e.now),
            _ => self,
        }
    }

    /// What a step of an evaluation writes can be read back: the statistics that it saves, and the
    /// activity that it notes.
    pub open spec fn step_reads_back(self, e: Evaluation, at: UtcTime) -> bool {
        match e.step {
            EvalStep::SaveStats { stats } => self.stats_read_back(
                e.user_id,
                e.mode,
                snapshot_of(stats),
                at,
            ),
            EvalStep::MarkActive { .. } => plain_year(e.now.secs) ==> self.after_step(
                e,
                at,
            ).last_update(e.user_id, e.mode) == Some(e.now),
            _ => true,
        }
    }

    /// What the tables, well and readable, answer to a step of an evaluation.
    pub open spec fn step_reply(self, e: Evaluation, reply: Reply) -> bool {
        match e.step {
            EvalStep::RenameBindings { stats } => reply == Reply::Renamed(
                Ok(self.bindings.filter(to_rename(e.user_id, stats.username@)).len() as u64),
            ),
            EvalStep::CacheUserId { .. } => reply == Reply::Cached(Ok(())),
            EvalStep::ReadLatest { .. } => reply == Reply::Latest(
                Ok(self.latest(e.user_id, e.mode)),
            ),
            EvalStep::SaveStats { .. } => reply == Reply::Saved(Ok(())),
            EvalStep::SavePlays { timestamps } => reply == Reply::PlaysSaved(
                Ok(
                    (self.with_plays(e.user_id, e.mode, timestamps@).plays.len()
                        - self.plays.len()) as i64,
                ),
            ),
            EvalStep::CheckRecent { since } => reply == Reply::Played(
                Ok(self.has_play(e.user_id, e.mode, since)),
            ),
            EvalStep::CheckToday { since, .. } => reply == Reply::Played(
                Ok(self.has_play(e.user_id, e.mode, since)),
            ),
            EvalStep::ReadLastUpdate => reply == Reply::LastUpdate(
                Ok(self.last_update(e.user_id, e.mode)),
            ),
            EvalStep::MarkActive { .. } => reply == Reply::Marked(Ok(())),
            _ => false,
        }
    }
}

impl Storage {
    /// Carries out a step of an evaluation that concerns the tables. `at` is the current instant.
    pub fn perform(&mut self, e: &Evaluation, at: UtcTime) -> (reply: Reply)
        requires
            old(self).wf(),
            on_tables(e.step),
            e.now.valid(),
            at.valid(),
        ensures
            final(self).wf(),
            final(self)@ == old(self)@.after_step(*e, at),
            old(self)@.step_reply(*e, reply),
            answers(e.step, reply),
            old(self)@.step_reads_back(*e, at),
    {
        match &e.step {
            EvalStep::RenameBindings { stats } => Reply::Renamed(
                Ok(self.update_binding_username_by_user_id(e.user_id, stats.username.as_str())),
            ),
            EvalStep::CacheUserId { stats } => {
                self.set_user_id(stats.username.as_str(), e.user_id);
                Reply::Cached(Ok(()))
            },
            EvalStep::ReadLatest { .. } => Reply::Latest(
                Ok(self.get_latest_snapshot(e.user_id, e.mode)),
            ),
            EvalStep::SaveStats { stats } => {
                self.save_stats_at(e.user_id, e.mode, stats, at);
                Reply::Saved(Ok(()))
            },
            EvalStep::SavePlays { timestamps } => Reply::PlaysSaved(
                Ok(self.save_play_records(e.user_id, e.mode, timestamps.as_slice())),
            ),
            EvalStep::CheckRecent { since } => Reply::Played(
                Ok(self.has_play_since(e.user_id, e.mode, *since)),
            ),
            EvalStep::CheckToday { since, .. } => Reply::Played(
                Ok(self.has_play_since(e.user_id, e.mode, *since)),
            ),
            EvalStep::ReadLastUpdate => Reply::LastUpdate(
                Ok(self.get_last_update(e.user_id, e.mode)),
            ),
            _ => {
                self.set_last_update(e.user_id, e.mode, e.now);
                Reply::Marked(Ok(()))
            },
        }
    }
}

/// What the background task of the scheduler has just seen.
#[derive(Clone, Copy, Debug, PartialEq, Eq, Structural)]
pub enum RunEvent {
    /// The task was started.
    Started,
    /// The wait is over.
    Elapsed,
    /// A shutdown was signalled during the wait.
    ShutdownSignalled,
    /// The players that were due have been looked at.
    Processed,
    /// The cleanup has been tried.
    CleanedUp,
}

/// What the background task of the scheduler does next.
#[derive(Clone, Copy, Debug, PartialEq, Eq, Structural)]
pub enum RunAction {
    /// Wait for so many seconds, or for a shutdown.
    Wait(u64),
    /// Look at the players that are due.
    ProcessDueUsers,
    /// Try to clean up.
    TryCleanup,
    /// End.
    Stop,
}

/// A part of the cleanup.
#[derive(Clone, Copy, Debug, PartialEq, Eq, Structural)]
pub enum CleanupTask {
    /// Prune snapshots and plays older than so many days.
    PruneRecords(u64),
    PrunePendingBinds,
    PrunePendingUnbinds,
    /// Delete rendered images older than so many days.
    RenderedByAge(u64),
    /// Delete rendered images beyond so many bytes.
    RenderedBySize(u64),
    Replays(u64),
    Beatmaps(u64),
    Previews(u64),
    BeatmapAudio(u64),
}

/// The parts of the cleanup, in order.
pub open spec fn cleanup_tasks(config: SchedulerConfig) -> Seq<CleanupTask> {
    seq![
        CleanupTask::PruneRecords(config.retention_days),
        CleanupTask::PrunePendingBinds,
        CleanupTask::PrunePendingUnbinds,
        CleanupTask::RenderedByAge(config.cache_retention_days),
        CleanupTask::RenderedBySize(config.max_cache_size_bytes),
        CleanupTask::Replays(config.cache_retention_days),
        CleanupTask::Beatmaps(config.cache_retention_days),
        CleanupTask::Previews(config.cache_retention_days),
        CleanupTask::BeatmapAudio(config.cache_retention_days),
    ]
}

/// The scheduler: its settings, when it last cleaned up, and whether it is to end.
#[derive(Clone, Copy, Debug, PartialEq, Eq, Structural)]
pub struct Scheduler {
    pub config: SchedulerConfig,
    pub last_cleanup: Option<UtcTime>,
    pub stopping: bool,
}

impl SchedulerConfig {
    /// The minutes between two looks at the players: one at least.
    pub open spec fn wait_minutes(self) -> int {
        if self.interval_minutes >= 1 {
            self.interval_minutes as int
        } else {
            1
        }
    }

    /// The hours until a player of this activity is looked at again.
    pub open spec fn interval_hours(self, activity: UserActivity) -> i64 {
        match activity {
            UserActivity::SemiActive => self.semi_active_interval_hours,
            UserActivity::Normal => self.normal_interval_hours,
            UserActivity::Inactive => self.inactive_interval_hours,
            UserActivity::NoRecent => self.no_recent_interval_hours,
            UserActivity::UserNotExists => self.user_not_exists_interval_hours,
        }
    }

    /// The seconds until a player is looked at again whose evaluation came to `result`: the
    /// interval of the activity, or five minutes after a failure.
    pub open spec fn delay(self, result: UpdateResult) -> int {
        if result.success {
            self.interval_hours(result.activity) * 3_600
        } else {
            BACKOFF_MINUTES * 60
        }
    }

    /// What a round makes of the tables: each result sets when its player is looked at again, one
    /// after the other, but for those whose time `chrono` cannot hold.
    pub open spec fn after_round(
        self,
        t: TablesView,
        results: Seq<(i64, GameMode, UpdateResult, UtcTime)>,
    ) -> TablesView
        decreases results.len(),
    {
        if results.len() == 0 {
            t
        } else {
            let before = self.after_round(t, results.drop_last());
            let (user_id, mode, result, now) = results.last();
            if now.can_shift(self.delay(result)) {
                before.with_next_update(user_id, mode, now.plus_seconds(self.delay(result)))
            } else {
                before
            }
        }
    }

    /// The cooldown is a span that `chrono` can hold.
    pub open spec fn cooldown_fits(self) -> bool {
        -i64::MAX <= self.group_trigger_cooldown_hours * 3_600_000 <= i64::MAX
    }
}

impl TablesView {
    /// The player was active in the mode less than `hours` hours before `now`.
    pub open spec fn in_cooldown(
        self,
        user_id: i64,
        mode: GameMode,
        hours: i64,
        now: UtcTime,
    ) -> bool {
        self.last_update(user_id, mode) matches Some(t) && nanos_between(now, t) < hours * 3_600
            * 1_000_000_000
    }

    /// What triggering an update makes of the tables: a player that is not in cooldown is due.
    pub open spec fn triggered(
        self,
        user_id: i64,
        mode: GameMode,
        hours: i64,
        now: UtcTime,
    ) -> TablesView {
        if self.in_cooldown(user_id, mode, hours, now) {
            self
        } else {
            self.with_next_update(user_id, mode, now)
        }
    }
}

impl Scheduler {
    /// There is a last activity to hold the cooldown against, and the cooldown is no span that
    /// `chrono` can hold.
    pub open spec fn cooldown_refused(self, t: TablesView, user_id: i64, mode: GameMode) -> bool {
        t.last_update(user_id, mode) is Some && !self.config.cooldown_fits()
    }

    /// `res` is the answer to whether the player is in cooldown at `now`.
    pub open spec fn answers_cooldown(
        self,
        t: TablesView,
        user_id: i64,
        mode: GameMode,
        now: UtcTime,
        res: Result<bool, StorageError>,
    ) -> bool {
        res == if self.cooldown_refused(t, user_id, mode) {
            Err::<bool, StorageError>(StorageError::TimeOutOfRange)
        } else {
            Ok(t.in_cooldown(user_id, mode, self.config.group_trigger_cooldown_hours, now))
        }
    }

    /// Triggering an update of a player at `now` is answered `res` and leads from `t` to `after`.
    pub open spec fn triggers(
        self,
        t: TablesView,
        user_id: i64,
        mode: GameMode,
        now: UtcTime,
        res: Result<(), StorageError>,
        after: TablesView,
    ) -> bool {
        if self.cooldown_refused(t, user_id, mode) {
            res == Err::<(), StorageError>(StorageError::TimeOutOfRange) && after == t
        } else {
            res == Ok::<(), StorageError>(()) && after == t.triggered(
                user_id,
                mode,
                self.config.group_trigger_cooldown_hours,
                now,
            )
        }
    }

    /// A scheduler that has not cleaned up yet.
    pub fn new(config: SchedulerConfig) -> (res: Scheduler)
        ensures
            res == (Scheduler { config, last_cleanup: None, stopping: false }),
    {
        Scheduler { config, last_cleanup: None, stopping: false }
    }

    /// Tells the background task to end.
    pub fn shutdown(&mut self)
        ensures
            *final(self) == (Scheduler { stopping: true, ..*old(self) }),
    {
        self.stopping = true;
    }

    /// What the background task does after `event`: it waits, then looks at the players that are
    /// due, then tries to clean up, and so on until it is told to end.
    pub fn run(&self, event: RunEvent) -> (res: RunAction)
        requires
            self.config.wait_minutes() * 60 <= u64::MAX,
        ensures
            res == match event {
                RunEvent::Started | RunEvent::CleanedUp => if self.stopping {
                    RunAction::Stop
                } else {
                    RunAction::Wait((self.config.wait_minutes() * 60) as u64)
                },
                RunEvent::Elapsed => RunAction::ProcessDueUsers,
                RunEvent::ShutdownSignalled => RunAction::Stop,
                RunEvent::Processed => RunAction::TryCleanup,
            },
    {
        match event {
            RunEvent::Started | RunEvent::CleanedUp => if self.stopping {
                RunAction::Stop
            } else if self.config.interval_minutes >= 1 {
                RunAction::Wait(60 * self.config.interval_minutes)
            } else {
                RunAction::Wait(60)
            },
            RunEvent::Elapsed => RunAction::ProcessDueUsers,
            RunEvent::ShutdownSignalled => RunAction::Stop,
            RunEvent::Processed => RunAction::TryCleanup,
        }
    }

    /// The last cleanup is less than a day before `now`.
    pub open spec fn cleaned_recently(self, now: UtcTime) -> bool {
        self.last_cleanup matches Some(last) && hours_between(now, last) < 24
    }

    /// The parts of the cleanup to carry out at `now`: none within 24 hours of the last.
    pub fn try_cleanup(&self, now: UtcTime) -> (res: Vec<CleanupTask>)
        requires
            now.valid(),
            self.last_cleanup matches Some(last) ==> last.valid(),
        ensures
            res@ == if self.cleaned_recently(now) {
                Seq::<CleanupTask>::empty()
            } else {
                cleanup_tasks(self.config)
            },
    {
        if let Some(last) = self.last_cleanup {
            if now.hours_since(last) < 24 {
                return Vec::new();
            }
        }
        let days: u64 = self.config.cache_retention_days;
        let mut res: Vec<CleanupTask> = Vec::new();
        res.push(CleanupTask::PruneRecords(self.config.retention_days));
        res.push(CleanupTask::PrunePendingBinds);
        res.push(CleanupTask::PrunePendingUnbinds);
        res.push(CleanupTask::RenderedByAge(days));
        res.push(CleanupTask::RenderedBySize(self.config.max_cache_size_bytes));
        res.push(CleanupTask::Replays(days));
        res.push(CleanupTask::Beatmaps(days));
        res.push(CleanupTask::Previews(days));
        res.push(CleanupTask::BeatmapAudio(days));
        assert(res@ =~= cleanup_tasks(self.config));
        res
    }

    /// Notes that the cleanup that was begun at `now` has been carried out.
    pub fn finish_cleanup(&mut self, now: UtcTime)
        ensures
            *final(self) == (Scheduler { last_cleanup: Some(now), ..*old(self) }),
    {
        self.last_cleanup = Some(now);
    }

    /// The hours until a player of this activity is looked at again.
    pub fn get_update_interval(&self, activity: UserActivity) -> (res: i64)
        ensures
            res == self.config.interval_hours(activity),
    {
        match activity {
            UserActivity::SemiActive => self.config.semi_active_interval_hours,
            UserActivity::Normal => self.config.normal_interval_hours,
            UserActivity::Inactive => self.config.inactive_interval_hours,
            UserActivity::NoRecent => self.config.no_recent_interval_hours,
            UserActivity::UserNotExists => self.config.user_not_exists_interval_hours,
        }
    }

    /// When a player is looked at again whose evaluation came to `result` at `now`.
    pub fn next_time(&self, result: UpdateResult, now: UtcTime) -> (res: Option<UtcTime>)
        requires
            now.from_clock(),
        ensures
            match res {
                Some(next) => now.can_shift(self.config.delay(result)) && next == now.plus_seconds(
                    self.config.delay(result),
                ),
                None => !now.can_shift(self.config.delay(result)),
            },
    {
        if result.success {
            now.ahead_hours(self.get_update_interval(result.activity))
        } else {
            now.checked_add(BACKOFF_MINUTES * 60)
        }
    }

    /// Sets when the players of a round are looked at again, in the order of the results. A result
    /// whose time is out of range sets nothing.
    pub fn update_next_times(
        &self,
        storage: &mut Storage,
        results: &Vec<(i64, GameMode, UpdateResult, UtcTime)>,
    )
        requires
            old(storage).wf(),
            forall|i: int| 0 <= i < results@.len() ==> (#[trigger] results@[i]).3.from_clock(),
        ensures
            final(storage).wf(),
            final(storage)@ == self.config.after_round(old(storage)@, results@),
    {
        let ghost before = storage@;
        let mut i: usize = 0;
        while i < results.len()
            invariant
                storage.wf(),
                forall|i: int| 0 <= i < results@.len() ==> (#[trigger] results@[i]).3.from_clock(),
                i <= results@.len(),
                storage@ == self.config.after_round(before, results@.take(i as int)),
            decreases results@.len() - i,
        {
            let (user_id, mode, result, now) = results[i];
            if let Some(next) = self.next_time(result, now) {
                storage.set_next_update(user_id, mode, next);
            }
            i += 1;
            assert(results@.take(i as int).drop_last() =~= results@.take(i - 1));
        }
        assert(results@.take(i as int) =~= results@);
    }

    /// Sets when a player is looked at again whose evaluation came to `result` at `now`.
    pub fn update_next_time(
        &self,
        storage: &mut Storage,
        user_id: i64,
        mode: GameMode,
        result: UpdateResult,
        now: UtcTime,
    ) -> (res: Result<(), StorageError>)
        requires
            old(storage).wf(),
            now.from_clock(),
        ensures
            final(storage).wf(),
            match res {
                Ok(()) => now.can_shift(self.config.delay(result)) && final(storage)@ == old(
                    storage,
                )@.with_next_update(
                    user_id,
                    mode,
                    now.plus_seconds(self.config.delay(result)),
                ),
                Err(e) => e == StorageError::TimeOutOfRange && !now.can_shift(
                    self.config.delay(result),
                ) && final(storage)@ == old(storage)@,
            },
    {
        match self.next_time(result, now) {
            Some(next) => {
                storage.set_next_update(user_id, mode, next);
                Ok(())
            },
            None => Err(StorageError::TimeOutOfRange),
        }
    }

    /// Makes a player due at `now`, unless the player is in cooldown. Refuses where there is a last
    /// activity and the cooldown is out of range.
    pub fn trigger_update_at(
        &self,
        storage: &mut Storage,
        user_id: i64,
        mode: GameMode,
        now: UtcTime,
    ) -> (res: Result<(), StorageError>)
        requires
            old(storage).wf(),
            now.valid(),
        ensures
            final(storage).wf(),
            self.triggers(old(storage)@, user_id, mode, now, res, final(storage)@),
    {
        match self.is_in_cooldown_at(storage, user_id, mode, now) {
            Ok(true) => Ok(()),
            Ok(false) => {
                storage.set_next_update(user_id, mode, now);
                Ok(())
            },
            Err(e) => Err(e),
        }
    }

    /// Makes a player due now, unless the player is in cooldown. Refuses where there is a last
    /// activity and the cooldown is out of range.
    pub fn trigger_update(&self, storage: &mut Storage, user_id: i64, mode: GameMode) -> (res: Result<
        (),
        StorageError,
    >)
        requires
            old(storage).wf(),
        ensures
            final(storage).wf(),
            exists|now: UtcTime|
                now.shown_by_clock() && #[trigger] self.triggers(
                    old(storage)@,
                    user_id,
                    mode,
                    now,
                    res,
                    final(storage)@,
                ),
    {
        let now = utc_now();
        self.trigger_update_at(storage, user_id, mode, now)
    }

    /// Makes every player that has a next update due now, as is wanted when the settings have
    /// changed, and counts the next updates.
    pub fn reschedule_all(&self, storage: &mut Storage) -> (res: u64)
        requires
            old(storage).wf(),
        ensures
            final(storage).wf(),
            exists|now: UtcTime|
                now.shown_by_clock() && final(storage)@ == #[trigger] old(storage)@.all_due(now.secs),
            res == old(storage)@.next_updates.len(),
    {
        storage.reset_all_next_updates()
    }

    /// Whether the player is in cooldown at `now`: less than the configured hours have gone since
    /// the last activity. Refuses where there is a last activity and the cooldown is out of range.
    pub fn is_in_cooldown_at(
        &self,
        storage: &Storage,
        user_id: i64,
        mode: GameMode,
        now: UtcTime,
    ) -> (res: Result<bool, StorageError>)
        requires
            storage.wf(),
            now.valid(),
        ensures
            self.answers_cooldown(storage@, user_id, mode, now, res),
    {
        match storage.get_last_update(user_id, mode) {
            Some(last) => {
                let hours: i64 = self.config.group_trigger_cooldown_hours;
                match hours.checked_mul(3_600_000) {
                    Some(millis) if millis != i64::MIN => Ok(now.is_within_hours_of(last, hours)),
                    _ => Err(StorageError::TimeOutOfRange),
                }
            },
            None => Ok(false),
        }
    }

    /// Whether the player is in cooldown. Refuses where there is a last activity and the cooldown
    /// is out of range.
    pub fn is_in_cooldown(&self, storage: &Storage, user_id: i64, mode: GameMode) -> (res: Result<
        bool,
        StorageError,
    >)
        requires
            storage.wf(),
        ensures
            exists|now: UtcTime|
                now.shown_by_clock() && #[trigger] self.answers_cooldown(
                    storage@,
                    user_id,
                    mode,
                    now,
                    res,
                ),
    {
        let now = utc_now();
        self.is_in_cooldown_at(storage, user_id, mode, now)
    }
}

} // verus!
