//! Snapshots of the players' statistics, and how the statistics have changed since one.
use crate::laws::snapshots::{closest_is_the_baseline, saved_stats_are_latest};
use crate::rows::{history_lt, history_ok, HistoryRow, HistoryView, TablesView};
use crate::storage::Storage;
use crate::table::{
    filter_head, filter_holds, filter_map_has, filter_tail, first_where, last_position_where,
    last_where, position_where, select_some, select_where, views,
};
use crate::text::{
    text_eq, text_less, text_lt, text_lt_irreflexive, text_lt_total, text_lt_transitive,
};
use crate::time::{
    before_year_10000, distance, instant_of, plain_year, utc_now, written_at, UtcTime,
};
use crate::types::{
    snapshot_of, GameMode, Real, RealChange, StorageError, UserChange, UserStats, UserStatsSnapshot,
};
use std::collections::HashMap;
use vstd::prelude::*;

verus! {

broadcast use crate::storage::group_storage;

/// The snapshots of a player in one mode.
pub open spec fn of_player(user_id: i64, mode: GameMode) -> spec_fn(HistoryView) -> bool {
    |h: HistoryView| h.user_id == user_id && h.mode == mode.code()
}

/// The snapshot of a player in one mode at one instant.
pub open spec fn taken_at(user_id: i64, mode: GameMode, text: Seq<char>) -> spec_fn(
    HistoryView,
) -> bool {
    |h: HistoryView| h.user_id == user_id && h.mode == mode.code() && h.recorded_at == text
}

/// The snapshots that come before `row` in the order of the history.
pub open spec fn below_row(row: HistoryView) -> spec_fn(HistoryView) -> bool {
    |h: HistoryView| history_lt(h, row)
}

/// The snapshots that come after `row` in the order of the history.
pub open spec fn above_row(row: HistoryView) -> spec_fn(HistoryView) -> bool {
    |h: HistoryView| history_lt(row, h)
}

/// What a snapshot is worth as one of a player in one mode that is no older than `cutoff`, a
/// text: its instant and its statistics. One whose instant cannot be read is worth nothing.
pub open spec fn dated(user_id: i64, mode: GameMode, cutoff: Seq<char>) -> spec_fn(
    HistoryView,
) -> Option<(UtcTime, UserStatsSnapshot)> {
    |h: HistoryView|
        if h.user_id == user_id && h.mode == mode.code() && !text_lt(h.recorded_at, cutoff) {
            match instant_of(h.recorded_at) {
                Some(t) => Some((t, h.stats)),
                None => None,
            }
        } else {
            None
        }
}

/// The `i`th of the dated snapshots is closest to `target`, and none before it is as close.
pub open spec fn closest_at(
    s: Seq<(UtcTime, UserStatsSnapshot)>,
    i: int,
    target: UtcTime,
) -> bool {
    &&& 0 <= i < s.len()
    &&& forall|j: int|
        0 <= j < s.len() ==> distance(s[i].0, target) <= distance((#[trigger] s[j]).0, target)
    &&& forall|j: int|
        0 <= j < i ==> distance(s[i].0, target) < distance((#[trigger] s[j]).0, target)
}

/// `res` is the dated snapshot closest to `target`, the first where there are several.
pub open spec fn closest(
    s: Seq<(UtcTime, UserStatsSnapshot)>,
    target: UtcTime,
    res: Option<(UtcTime, UserStatsSnapshot)>,
) -> bool {
    match res {
        Some(found) => exists|i: int| #[trigger] closest_at(s, i, target) && found == s[i],
        None => s.len() == 0,
    }
}

/// The statistics of a dated snapshot, if there is one.
pub open spec fn stats_of(found: Option<(UtcTime, UserStatsSnapshot)>) -> Option<
    UserStatsSnapshot,
> {
    match found {
        Some((_, stats)) => Some(stats),
        None => None,
    }
}

/// The dated snapshots from `earliest` on.
pub open spec fn not_before(earliest: UtcTime) -> spec_fn((UtcTime, UserStatsSnapshot)) -> bool {
    |x: (UtcTime, UserStatsSnapshot)| !x.0.before(earliest)
}

impl TablesView {
    /// What saving statistics makes of the tables. The first of two snapshots of one player, mode
    /// and instant stays.
    pub open spec fn with_stats(
        self,
        user_id: i64,
        mode: GameMode,
        stats: UserStatsSnapshot,
        now: UtcTime,
    ) -> TablesView {
        let row = HistoryView { user_id, mode: mode.code(), recorded_at: now.text(), stats };
        if first_where(self.history, taken_at(user_id, mode, now.text())) is Some {
            self
        } else {
            TablesView {
                history: self.history.filter(below_row(row)).push(row) + self.history.filter(
                    above_row(row),
                ),
                ..self
            }
        }
    }

    /// Statistics that are saved at `now` can be read back, in a year of four digits: they are
    /// among the snapshots since any cutoff that is not later, unless there was a snapshot of that
    /// instant; and where all other snapshots of the player are earlier, they are the latest.
    pub open spec fn stats_read_back(
        self,
        user_id: i64,
        mode: GameMode,
        stats: UserStatsSnapshot,
        now: UtcTime,
    ) -> bool {
        let after = self.with_stats(user_id, mode, stats, now);
        plain_year(now.secs) ==> {
            &&& instant_of(now.text()) == Some(now)
            &&& first_where(self.history, taken_at(user_id, mode, now.text())) is None ==> forall|
                cutoff: UtcTime,
            |
                cutoff.valid() && plain_year(cutoff.secs) && !now.before(cutoff) ==> (
                #[trigger] after.snapshots_since(user_id, mode, cutoff)).contains((now, stats))
            &&& (forall|h: HistoryView| #[trigger]
                self.history.contains(h) && of_player(user_id, mode)(h) ==> exists|t: UtcTime|
                    #[trigger] written_at(h.recorded_at, t) && t.before(now)) ==> after.latest(
                user_id,
                mode,
            ) == Some(stats)
        }
    }

    /// Every snapshot of the player in the mode has an instant that is written as the library
    /// writes it.
    pub open spec fn recorded_plainly(self, user_id: i64, mode: GameMode) -> bool {
        forall|h: HistoryView| #[trigger]
            self.history.contains(h) && of_player(user_id, mode)(h) ==> (instant_of(
                h.recorded_at,
            ) matches Some(t) && written_at(h.recorded_at, t))
    }

    /// The snapshots since `cutoff` are selected by time: every snapshot of the player that is not
    /// earlier is among them, and where all are written as the library writes them, no other is.
    pub open spec fn selected_by_time(
        self,
        user_id: i64,
        mode: GameMode,
        cutoff: UtcTime,
    ) -> bool {
        let since = self.snapshots_since(user_id, mode, cutoff);
        before_year_10000(cutoff.secs) ==> {
            &&& forall|h: HistoryView, t: UtcTime|
                self.history.contains(h) && of_player(user_id, mode)(h) && #[trigger] written_at(
                    h.recorded_at,
                    t,
                ) && instant_of(h.recorded_at) == Some(t) && !t.before(cutoff) ==> since.contains(
                    (t, h.stats),
                )
            &&& self.recorded_plainly(user_id, mode) ==> forall|i: int|
                0 <= i < since.len() ==> !(#[trigger] since[i]).0.before(cutoff)
        }
    }

    /// The latest snapshot of a player in one mode. The history is in order of time.
    pub open spec fn latest(self, user_id: i64, mode: GameMode) -> Option<UserStatsSnapshot> {
        match last_where(self.history, of_player(user_id, mode)) {
            Some(h) => Some(h.stats),
            None => None,
        }
    }

    /// The dated snapshots of a player in one mode since `cutoff`, in order.
    pub open spec fn snapshots_since(self, user_id: i64, mode: GameMode, cutoff: UtcTime) -> Seq<
        (UtcTime, UserStatsSnapshot),
    > {
        self.history.filter_map(dated(user_id, mode, cutoff.text()))
    }

    /// `res` has, for each of the players that has one, the snapshot of the last `max_lookback`
    /// hours that is closest to `target_hours_ago` hours before `now`.
    pub open spec fn baselines(
        self,
        user_ids: Seq<i64>,
        mode: GameMode,
        target_hours_ago: i64,
        max_lookback: i64,
        now: UtcTime,
        res: Map<i64, UserStatsSnapshot>,
    ) -> bool {
        forall|u: i64|
            {
                let s = self.snapshots_since(u, mode, now.hours_back(max_lookback));
                &&& #[trigger] res.contains_key(u) <==> user_ids.contains(u) && s.len() > 0
                &&& res.contains_key(u) ==> exists|i: int| #[trigger]
                    closest_at(s, i, now.hours_back(target_hours_ago)) && res[u] == s[i].1
            }
    }

    /// `res` is the snapshot of the last 36 hours that is closest to a day before `now`.
    pub open spec fn baseline(
        self,
        user_id: i64,
        mode: GameMode,
        now: UtcTime,
        res: Option<UserStatsSnapshot>,
    ) -> bool {
        let s = self.snapshots_since(user_id, mode, now.hours_back(36));
        match res {
            Some(stats) => exists|i: int| #[trigger]
                closest_at(s, i, now.hours_back(24)) && stats == s[i].1,
            None => s.len() == 0,
        }
    }

    /// `res` is the dated snapshot of the last `max_lookback` hours that is closest to
    /// `target_hours_ago` hours before `now`.
    pub open spec fn closest_to(
        self,
        user_id: i64,
        mode: GameMode,
        target_hours_ago: i64,
        max_lookback: i64,
        now: UtcTime,
        res: Option<(UtcTime, UserStatsSnapshot)>,
    ) -> bool {
        let earliest = now.hours_back(max_lookback);
        closest(
            self.snapshots_since(user_id, mode, earliest).filter(not_before(earliest)),
            now.hours_back(target_hours_ago),
            res,
        )
    }

    /// `found`, as the closest snapshot, lies in the lookback. Where the snapshots of the player are
    /// written as the library writes them, it is the player's baseline, in any batch and alone, and
    /// there is none exactly where every snapshot is earlier than the lookback.
    pub open spec fn closest_agrees(
        self,
        user_id: i64,
        mode: GameMode,
        target_hours_ago: i64,
        max_lookback: i64,
        now: UtcTime,
        found: Option<(UtcTime, UserStatsSnapshot)>,
    ) -> bool {
        let earliest = now.hours_back(max_lookback);
        &&& found matches Some((when, _)) ==> !when.before(earliest)
        &&& self.recorded_plainly(user_id, mode) && before_year_10000(earliest.secs) ==> {
            &&& forall|user_ids: Seq<i64>, batch: Map<i64, UserStatsSnapshot>|
                user_ids.contains(user_id) && #[trigger] self.baselines(
                    user_ids,
                    mode,
                    target_hours_ago,
                    max_lookback,
                    now,
                    batch,
                ) ==> stats_of(found) == if batch.contains_key(user_id) {
                    Some(batch[user_id])
                } else {
                    None
                }
            &&& target_hours_ago == 24 && max_lookback == 36 ==> forall|
                alone: Option<UserStatsSnapshot>,
            | #[trigger] self.baseline(user_id, mode, now, alone) ==> stats_of(found) == alone
            &&& found is None <==> forall|h: HistoryView| #[trigger]
                self.history.contains(h) && of_player(user_id, mode)(h) ==> (instant_of(
                    h.recorded_at,
                )->0).before(earliest)
        }
    }

    /// `res` is the change of the statistics since the snapshot closest to a day before `now`.
    pub open spec fn change(
        self,
        user_id: i64,
        mode: GameMode,
        current: UserStats,
        now: UtcTime,
        res: Result<Option<UserChange>, StorageError>,
    ) -> bool {
        exists|past: Option<(UtcTime, UserStatsSnapshot)>| #[trigger]
            self.closest_to(user_id, mode, 24, 36, now, past) && res == match past {
                None => Ok::<Option<UserChange>, StorageError>(None),
                Some((_, stats)) => if changes_fit(current, stats) {
                    Ok(Some(change_of(current, stats)))
                } else {
                    Err(StorageError::ChangeOutOfRange)
                },
            }
    }
}

/// Both counts are there: a zero stands for a count that is not known.
pub open spec fn both_known(current: i64, past: Option<i64>) -> bool {
    current != 0 && (past matches Some(p) && p != 0)
}

/// By how much a count has grown, where both are known.
pub open spec fn gain(current: i64, past: Option<i64>) -> Option<int> {
    if both_known(current, past) {
        Some(current - past->0)
    } else {
        None
    }
}

/// By how many places a rank has improved, where both are known: a smaller rank is a better one.
pub open spec fn climb(current: i64, past: Option<i64>) -> Option<int> {
    if both_known(current, past) {
        Some(past->0 - current)
    } else {
        None
    }
}

/// The difference, if there is one, fits.
pub open spec fn fits(d: Option<int>) -> bool {
    d matches Some(n) ==> i64::MIN <= n <= i64::MAX
}

/// The difference as a machine number.
pub open spec fn narrow(d: Option<int>) -> Option<i64> {
    match d {
        Some(n) => Some(n as i64),
        None => None,
    }
}

/// What a real value changed from and to, where both are known.
pub open spec fn real_change(current: Real, past: Option<Real>) -> Option<RealChange> {
    match past {
        Some(p) => Some(RealChange { current, past: p }),
        None => None,
    }
}

/// Every difference of the counts fits.
pub open spec fn changes_fit(current: UserStats, past: UserStatsSnapshot) -> bool {
    &&& fits(climb(current.rank, past.rank))
    &&& fits(climb(current.country_rank, past.country_rank))
    &&& fits(gain(current.playcount, past.playcount))
    &&& fits(gain(current.hits, past.hits))
    &&& fits(gain(current.playtime, past.playtime))
}

/// The change from a snapshot to the current statistics.
pub open spec fn change_of(current: UserStats, past: UserStatsSnapshot) -> UserChange {
    UserChange {
        rank_change: narrow(climb(current.rank, past.rank)),
        country_rank_change: narrow(climb(current.country_rank, past.country_rank)),
        pp_change: real_change(current.pp, past.pp),
        accuracy_change: real_change(current.accuracy, past.accuracy),
        playcount_change: narrow(gain(current.playcount, past.playcount)),
        hits_change: narrow(gain(current.hits, past.hits)),
        playtime_change: narrow(gain(current.playtime, past.playtime)),
    }
}

/// By how much a count has grown.
fn gain_of(current: i64, past: Option<i64>) -> (res: Result<Option<i64>, StorageError>)
    ensures
        res == if fits(gain(current, past)) {
            Ok::<Option<i64>, StorageError>(narrow(gain(current, past)))
        } else {
            Err(StorageError::ChangeOutOfRange)
        },
{
    match past {
        Some(p) if current != 0 && p != 0 => match current.checked_sub(p) {
            Some(d) => Ok(Some(d)),
            None => Err(StorageError::ChangeOutOfRange),
        },
        _ => Ok(None),
    }
}

/// By how many places a rank has improved.
fn climb_of(current: i64, past: Option<i64>) -> (res: Result<Option<i64>, StorageError>)
    ensures
        res == if fits(climb(current, past)) {
            Ok::<Option<i64>, StorageError>(narrow(climb(current, past)))
        } else {
            Err(StorageError::ChangeOutOfRange)
        },
{
    match past {
        Some(p) if current != 0 && p != 0 => match p.checked_sub(current) {
            Some(d) => Ok(Some(d)),
            None => Err(StorageError::ChangeOutOfRange),
        },
        _ => Ok(None),
    }
}

/// What a real value changed from and to.
fn real_change_of(current: Real, past: Option<Real>) -> (res: Option<RealChange>)
    ensures
        res == real_change(current, past),
{
    match past {
        Some(p) => Some(RealChange { current, past: p }),
        None => None,
    }
}

/// The change from a snapshot to the current statistics. Refuses where a difference does not fit.
pub fn change_since(current: &UserStats, past: UserStatsSnapshot) -> (res: Result<
    UserChange,
    StorageError,
>)
    ensures
        res == if changes_fit(*current, past) {
            Ok::<UserChange, StorageError>(change_of(*current, past))
        } else {
            Err(StorageError::ChangeOutOfRange)
        },
{
    let rank_change = climb_of(current.rank, past.rank)?;
    let country_rank_change = climb_of(current.country_rank, past.country_rank)?;
    let playcount_change = gain_of(current.playcount, past.playcount)?;
    let hits_change = gain_of(current.hits, past.hits)?;
    let playtime_change = gain_of(current.playtime, past.playtime)?;
    Ok(
        UserChange {
            rank_change,
            country_rank_change,
            pp_change: real_change_of(current.pp, past.pp),
            accuracy_change: real_change_of(current.accuracy, past.accuracy),
            playcount_change,
            hits_change,
            playtime_change,
        },
    )
}

/// The dated snapshot closest to `target`; the first where there are several.
pub fn closest_snapshot(all: &Vec<(UtcTime, UserStatsSnapshot)>, target: UtcTime) -> (res: Option<
    (UtcTime, UserStatsSnapshot),
>)
    requires
        forall|i: int| 0 <= i < all@.len() ==> (#[trigger] all@[i]).0.valid(),
        target.valid(),
    ensures
        closest(all@, target, res),
{
    if all.len() == 0 {
        return None;
    }
    let mut best: usize = 0;
    let mut i: usize = 1;
    let mut best_distance: u64 = all[0].0.distance_to(target);
    while i < all.len()
        invariant
            forall|i: int| 0 <= i < all@.len() ==> (#[trigger] all@[i]).0.valid(),
            target.valid(),
            0 <= best < i <= all@.len(),
            best_distance == distance(all@[best as int].0, target),
            forall|j: int|
                0 <= j < i ==> best_distance <= distance((#[trigger] all@[j]).0, target),
            forall|j: int|
                0 <= j < best ==> best_distance < distance((#[trigger] all@[j]).0, target),
        decreases all@.len() - i,
    {
        let distance: u64 = all[i].0.distance_to(target);
        if distance < best_distance {
            best = i;
            best_distance = distance;
        }
        i += 1;
    }
    assert(closest_at(all@, best as int, target));
    Some(all[best])
}

/// A row comes before another in the order of the history.
pub(crate) fn history_less(a: &HistoryRow, b: &HistoryRow) -> (res: bool)
    ensures
        res == history_lt(a@, b@),
{
    a.user_id < b.user_id || (a.user_id == b.user_id && (a.mode < b.mode || (a.mode == b.mode
        && text_less(a.recorded_at.as_str(), b.recorded_at.as_str()))))
}

/// Puts a snapshot whose player, mode and instant are not there yet in its place.
fn put_snapshot(rows: &mut Vec<HistoryRow>, row: HistoryRow)
    requires
        history_ok(views(old(rows)@)),
        forall|j: int|
            0 <= j < old(rows)@.len() ==> {
                let h = #[trigger] views(old(rows)@)[j];
                h.user_id != row.user_id || h.mode != row.mode || h.recorded_at != row.recorded_at@
            },
    ensures
        history_ok(views(final(rows)@)),
        views(final(rows)@) == views(old(rows)@).filter(below_row(row@)).push(row@) + views(
            old(rows)@,
        ).filter(above_row(row@)),
{
    let ghost s = views(rows@);
    let mut i: usize = 0;
    while i < rows.len() && history_less(&rows[i], &row)
        invariant
            s == views(rows@),
            i <= rows@.len(),
            forall|j: int| 0 <= j < i ==> history_lt(#[trigger] s[j], row@),
        decreases rows@.len() - i,
    {
        assert(s[i as int] == rows@[i as int]@);
        i += 1;
    }
    proof {
        if i < s.len() {
            assert(s[i as int] == rows@[i as int]@);
            text_lt_total(s[i as int].recorded_at, row.recorded_at@);
            assert(history_lt(row@, s[i as int]));
        }
        assert forall|j: int| i <= j < s.len() implies history_lt(row@, #[trigger] s[j]) by {
            if j > i {
                assert(history_lt(s[i as int], s[j]));
                history_lt_transitive(row@, s[i as int], s[j]);
            }
        }
        assert forall|j: int| 0 <= j < i implies !above_row(row@)(#[trigger] s[j]) by {
            history_lt_asymmetric(s[j], row@);
        }
        assert forall|j: int| i <= j < s.len() implies !below_row(row@)(#[trigger] s[j]) by {
            history_lt_asymmetric(row@, s[j]);
        }
        filter_head(s, i as int, below_row(row@));
        filter_tail(s, i as int, above_row(row@));
    }
    rows.insert(i, row);
    assert(views(rows@) =~= s.take(i as int).push(row@) + s.skip(i as int));
}

/// The order of the history is transitive.
pub proof fn history_lt_transitive(a: HistoryView, b: HistoryView, c: HistoryView)
    requires
        history_lt(a, b),
        history_lt(b, c),
    ensures
        history_lt(a, c),
{
    if text_lt(a.recorded_at, b.recorded_at) && text_lt(b.recorded_at, c.recorded_at) {
        text_lt_transitive(a.recorded_at, b.recorded_at, c.recorded_at);
    }
}

/// No two snapshots come before each other.
pub proof fn history_lt_asymmetric(a: HistoryView, b: HistoryView)
    requires
        history_lt(a, b),
    ensures
        !history_lt(b, a),
{
    if history_lt(b, a) {
        history_lt_transitive(a, b, a);
        text_lt_irreflexive(a.recorded_at);
    }
}

/// Every dated snapshot has an instant that the calendar holds.
proof fn dates_valid(s: Seq<HistoryView>, user_id: i64, mode: GameMode, cutoff: Seq<char>)
    ensures
        forall|i: int|
            0 <= i < s.filter_map(dated(user_id, mode, cutoff)).len() ==> (#[trigger] s.filter_map(
                dated(user_id, mode, cutoff),
            )[i]).0.valid(),
{
    let f = dated(user_id, mode, cutoff);
    let out = s.filter_map(f);
    assert forall|i: int| 0 <= i < out.len() implies (#[trigger] out[i]).0.valid() by {
        assert(out.contains(out[i]));
        s.lemma_filter_map_contains(f, out[i]);
    }
}

impl Storage {
    /// Saves the statistics of a player as a snapshot of the instant `now`. Of two snapshots of
    /// one instant the first stays.
    pub fn save_stats_at(&mut self, user_id: i64, mode: GameMode, stats: &UserStats, now: UtcTime)
        requires
            old(self).wf(),
            now.valid(),
        ensures
            final(self).wf(),
            final(self)@ == old(self)@.with_stats(user_id, mode, snapshot_of(*stats), now),
            old(self)@.stats_read_back(user_id, mode, snapshot_of(*stats), now),
    {
        let code: i32 = mode.to_code();
        let text = now.to_rfc3339();
        let found = position_where(
            &self.tables.history,
            |h: &HistoryRow| -> (r: bool)
                ensures r == (h.user_id == user_id && h.mode == code && h.recorded_at@ == text@) {
                h.user_id == user_id && h.mode == code && text_eq(
                    h.recorded_at.as_str(),
                    text.as_str(),
                )
            },
            Ghost(taken_at(user_id, mode, now.text())),
        );
        proof {
            let s = old(self)@.history;
            let p = of_player(user_id, mode);
            if plain_year(now.secs) && (forall|h: HistoryView| #[trigger]
                s.contains(h) && p(h) ==> exists|t: UtcTime| #[trigger]
                    written_at(h.recorded_at, t) && t.before(now)) {
                assert forall|h: HistoryView| #[trigger] s.contains(h) && p(h) implies text_lt(
                    h.recorded_at,
                    now.text(),
                ) by {
                    let t = choose|t: UtcTime| #[trigger]
                        written_at(h.recorded_at, t) && t.before(now);
                    assert(text_lt(t.text(), text@) <==> t.before(now));
                }
                saved_stats_are_latest(old(self)@, user_id, mode, snapshot_of(*stats), now);
            }
        }
        if found.is_none() {
            let row = HistoryRow {
                user_id,
                mode: code,
                recorded_at: text,
                stats: UserStatsSnapshot::of(stats),
            };
            let ghost view = row@;
            put_snapshot(&mut self.tables.history, row);
            proof {
                let i = old(self)@.history.filter(below_row(view)).len() as int;
                assert(self@.history[i] == view);
                assert forall|cutoff: UtcTime|
                    plain_year(now.secs) && cutoff.valid() && plain_year(cutoff.secs)
                        && !now.before(cutoff) implies (#[trigger] self@.snapshots_since(
                    user_id,
                    mode,
                    cutoff,
                )).contains((now, snapshot_of(*stats))) by {
                    assert(text_lt(view.recorded_at, cutoff.text()) <==> now.before(cutoff));
                    filter_map_has(
                        self@.history,
                        dated(user_id, mode, cutoff.text()),
                        i,
                    );
                }
            }
        }
    }

    /// Saves the statistics of a player as a snapshot of now.
    pub fn save_stats(&mut self, user_id: i64, mode: GameMode, stats: &UserStats)
        requires
            old(self).wf(),
        ensures
            final(self).wf(),
            exists|now: UtcTime|
                now.shown_by_clock() && final(self)@ == #[trigger] old(self)@.with_stats(
                    user_id,
                    mode,
                    snapshot_of(*stats),
                    now,
                ) && old(self)@.stats_read_back(user_id, mode, snapshot_of(*stats), now),
    {
        let now = utc_now();
        self.save_stats_at(user_id, mode, stats, now);
    }

    /// The latest snapshot of a player in one mode.
    pub fn get_latest_snapshot(&self, user_id: i64, mode: GameMode) -> (res: Option<
        UserStatsSnapshot,
    >)
        requires
            self.wf(),
        ensures
            res == self@.latest(user_id, mode),
    {
        let code: i32 = mode.to_code();
        let found = last_position_where(
            &self.tables.history,
            |h: &HistoryRow| -> (r: bool)
                ensures r == (h.user_id == user_id && h.mode == code) {
                h.user_id == user_id && h.mode == code
            },
            Ghost(of_player(user_id, mode)),
        );
        match found {
            Some(i) => Some(self.tables.history[i].stats),
            None => None,
        }
    }

    /// The dated snapshots of a player in one mode since `cutoff`.
    pub fn snapshots_since(&self, user_id: i64, mode: GameMode, cutoff: UtcTime) -> (res: Vec<
        (UtcTime, UserStatsSnapshot),
    >)
        requires
            self.wf(),
            cutoff.valid(),
        ensures
            res@ == self@.snapshots_since(user_id, mode, cutoff),
            self@.selected_by_time(user_id, mode, cutoff),
            forall|i: int| 0 <= i < res@.len() ==> (#[trigger] res@[i]).0.valid(),
    {
        let code: i32 = mode.to_code();
        let text = cutoff.to_rfc3339();
        let res = select_some(
            &self.tables.history,
            |h: &HistoryRow| -> (r: Option<(UtcTime, UserStatsSnapshot)>)
                ensures r == dated(user_id, mode, cutoff.text())(h@) {
                if h.user_id == user_id && h.mode == code && !text_less(
                    h.recorded_at.as_str(),
                    text.as_str(),
                ) {
                    match UtcTime::parse(h.recorded_at.as_str()) {
                        Some(t) => Some((t, h.stats)),
                        None => None,
                    }
                } else {
                    None
                }
            },
            Ghost(dated(user_id, mode, cutoff.text())),
        );
        proof {
            assert(res@ =~= views(res@));
            dates_valid(self@.history, user_id, mode, cutoff.text());
            if before_year_10000(cutoff.secs) {
                let f = dated(user_id, mode, cutoff.text());
                assert forall|h: HistoryView, t: UtcTime|
                    self@.history.contains(h) && of_player(user_id, mode)(h)
                        && #[trigger] written_at(h.recorded_at, t) && instant_of(h.recorded_at)
                        == Some(t) && !t.before(cutoff) implies res@.contains((t, h.stats)) by {
                    let i = choose|i: int| 0 <= i < self@.history.len() && self@.history[i] == h;
                    assert(text_lt(t.text(), text@) <==> t.before(cutoff));
                    filter_map_has(self@.history, f, i);
                }
                assert forall|i: int|
                    self@.recorded_plainly(user_id, mode) && 0 <= i < res@.len() implies !(
                #[trigger] res@[i]).0.before(cutoff) by {
                    assert(self@.history.filter_map(f).contains(res@[i]));
                    self@.history.lemma_filter_map_contains(f, res@[i]);
                    let h = choose|h: HistoryView| #[trigger]
                        self@.history.contains(h) && f(h) == Some(res@[i]);
                    assert(of_player(user_id, mode)(h));
                    let t = instant_of(h.recorded_at)->0;
                    assert(written_at(h.recorded_at, t));
                    assert(text_lt(t.text(), text@) <==> t.before(cutoff));
                }
            }
        }
        res
    }

    /// The dated snapshots of a player in one mode of the `hours` hours before `now`.
    pub fn get_snapshots_within_hours_at(
        &self,
        user_id: i64,
        mode: GameMode,
        hours: i64,
        now: UtcTime,
    ) -> (res: Result<Vec<(UtcTime, UserStatsSnapshot)>, StorageError>)
        requires
            self.wf(),
            now.from_clock(),
        ensures
            match res {
                Ok(all) => now.reaches_back(hours) && all@ == self@.snapshots_since(
                    user_id,
                    mode,
                    now.hours_back(hours),
                ) && self@.selected_by_time(user_id, mode, now.hours_back(hours)),
                Err(e) => e == StorageError::TimeOutOfRange && !now.reaches_back(hours),
            },
    {
        match now.back_hours(hours) {
            Some(cutoff) => Ok(self.snapshots_since(user_id, mode, cutoff)),
            None => Err(StorageError::TimeOutOfRange),
        }
    }

    /// The dated snapshots of a player in one mode of the last `hours` hours.
    pub fn get_snapshots_within_hours(&self, user_id: i64, mode: GameMode, hours: i64) -> (res:
        Result<Vec<(UtcTime, UserStatsSnapshot)>, StorageError>)
        requires
            self.wf(),
        ensures
            exists|now: UtcTime| #[trigger]
                now.shown_by_clock() && match res {
                    Ok(all) => now.reaches_back(hours) && all@ == self@.snapshots_since(
                        user_id,
                        mode,
                        now.hours_back(hours),
                    ) && self@.selected_by_time(user_id, mode, now.hours_back(hours)),
                    Err(e) => e == StorageError::TimeOutOfRange && !now.reaches_back(hours),
                },
    {
        let now = utc_now();
        self.get_snapshots_within_hours_at(user_id, mode, hours, now)
    }

    /// For each of the players, the snapshot of the `max_lookback` hours before `now` that is
    /// closest to `target_hours_ago` hours before `now`. A player without a snapshot is left out.
    pub fn get_baseline_snapshots_for_users_at(
        &self,
        user_ids: &[i64],
        mode: GameMode,
        target_hours_ago: i64,
        max_lookback: i64,
        now: UtcTime,
    ) -> (res: Result<HashMap<i64, UserStatsSnapshot>, StorageError>)
        requires
            self.wf(),
            now.from_clock(),
        ensures
            match res {
                Ok(found) => (user_ids@.len() == 0 || (now.reaches_back(target_hours_ago)
                    && now.reaches_back(max_lookback))) && self@.baselines(
                    user_ids@,
                    mode,
                    target_hours_ago,
                    max_lookback,
                    now,
                    found@,
                ),
                Err(e) => e == StorageError::TimeOutOfRange && user_ids@.len() > 0 && !(
                now.reaches_back(target_hours_ago) && now.reaches_back(max_lookback)),
            },
    {
        broadcast use vstd::std_specs::hash::group_hash_axioms;

        let mut found: HashMap<i64, UserStatsSnapshot> = HashMap::new();
        if user_ids.len() == 0 {
            return Ok(found);
        }
        let (target, cutoff) = match (now.back_hours(target_hours_ago), now.back_hours(max_lookback)) {
            (Some(target), Some(cutoff)) => (target, cutoff),
            _ => {
                return Err(StorageError::TimeOutOfRange);
            },
        };
        let mut i: usize = 0;
        while i < user_ids.len()
            invariant
                self.wf(),
                target.valid(),
                cutoff.valid(),
                i <= user_ids@.len(),
                forall|u: i64|
                    {
                        let s = self@.snapshots_since(u, mode, cutoff);
                        &&& #[trigger] found@.contains_key(u) <==> user_ids@.take(
                            i as int,
                        ).contains(u) && s.len() > 0
                        &&& found@.contains_key(u) ==> exists|k: int| #[trigger]
                            closest_at(s, k, target) && found@[u] == s[k].1
                    },
            decreases user_ids@.len() - i,
        {
            broadcast use vstd::std_specs::hash::group_hash_axioms;

            let user_id: i64 = user_ids[i];
            proof {
                let shorter = user_ids@.take(i as int);
                assert(user_ids@.take(i + 1) =~= shorter.push(user_id));
                assert forall|u: i64| #[trigger]
                    user_ids@.take(i + 1).contains(u) <==> shorter.contains(u) || u == user_id by {
                    if shorter.contains(u) {
                        let k = choose|k: int| 0 <= k < shorter.len() && shorter[k] == u;
                        assert(shorter.push(user_id)[k] == u);
                    }
                    if u == user_id {
                        assert(shorter.push(user_id)[i as int] == u);
                    }
                }
            }
            let all = self.snapshots_since(user_id, mode, cutoff);
            if let Some((_, stats)) = closest_snapshot(&all, target) {
                found.insert(user_id, stats);
            }
            i += 1;
        }
        assert(user_ids@.take(i as int) =~= user_ids@);
        Ok(found)
    }

    /// For each of the players, the snapshot of the last `max_lookback` hours that is closest to
    /// `target_hours_ago` hours ago. A player without a snapshot is left out.
    pub fn get_baseline_snapshots_for_users(
        &self,
        user_ids: &[i64],
        mode: GameMode,
        target_hours_ago: i64,
        max_lookback: i64,
    ) -> (res: Result<HashMap<i64, UserStatsSnapshot>, StorageError>)
        requires
            self.wf(),
        ensures
            exists|now: UtcTime| #[trigger]
                now.shown_by_clock() && match res {
                    Ok(found) => (user_ids@.len() == 0 || (now.reaches_back(target_hours_ago)
                        && now.reaches_back(max_lookback))) && self@.baselines(
                        user_ids@,
                        mode,
                        target_hours_ago,
                        max_lookback,
                        now,
                        found@,
                    ),
                    Err(e) => e == StorageError::TimeOutOfRange && user_ids@.len() > 0 && !(
                    now.reaches_back(target_hours_ago) && now.reaches_back(max_lookback)),
                },
    {
        let now = utc_now();
        self.get_baseline_snapshots_for_users_at(
            user_ids,
            mode,
            target_hours_ago,
            max_lookback,
            now,
        )
    }

    /// The snapshot of the 36 hours before `now` that is closest to a day before `now`.
    pub fn get_baseline_snapshot_at(&self, user_id: i64, mode: GameMode, now: UtcTime) -> (res:
        Option<UserStatsSnapshot>)
        requires
            self.wf(),
            now.from_clock(),
        ensures
            self@.baseline(user_id, mode, now, res),
    {
        match (now.back_hours(36), now.back_hours(24)) {
            (Some(cutoff), Some(target)) => {
                let all = self.snapshots_since(user_id, mode, cutoff);
                match closest_snapshot(&all, target) {
                    Some((_, stats)) => Some(stats),
                    None => None,
                }
            },
            _ => None,
        }
    }

    /// The snapshot of the last 36 hours that is closest to a day ago.
    pub fn get_baseline_snapshot(&self, user_id: i64, mode: GameMode) -> (res: Option<
        UserStatsSnapshot,
    >)
        requires
            self.wf(),
        ensures
            exists|now: UtcTime|
                now.shown_by_clock() && #[trigger] self@.baseline(user_id, mode, now, res),
    {
        let now = utc_now();
        self.get_baseline_snapshot_at(user_id, mode, now)
    }

    /// The dated snapshot of the `max_lookback` hours before `now` that is closest to
    /// `target_hours_ago` hours before `now`.
    pub fn get_closest_snapshot_to_hours_ago_at(
        &self,
        user_id: i64,
        mode: GameMode,
        target_hours_ago: i64,
        max_lookback: i64,
        now: UtcTime,
    ) -> (res: Result<Option<(UtcTime, UserStatsSnapshot)>, StorageError>)
        requires
            self.wf(),
            now.from_clock(),
        ensures
            match res {
                Ok(found) => now.reaches_back(target_hours_ago) && now.reaches_back(max_lookback)
                    && self@.closest_to(
                    user_id,
                    mode,
                    target_hours_ago,
                    max_lookback,
                    now,
                    found,
                ) && self@.closest_agrees(
                    user_id,
                    mode,
                    target_hours_ago,
                    max_lookback,
                    now,
                    found,
                ),
                Err(e) => e == StorageError::TimeOutOfRange && !(now.reaches_back(target_hours_ago)
                    && now.reaches_back(max_lookback)),
            },
    {
        let (target, earliest) = match (
            now.back_hours(target_hours_ago),
            now.back_hours(max_lookback),
        ) {
            (Some(target), Some(earliest)) => (target, earliest),
            _ => {
                return Err(StorageError::TimeOutOfRange);
            },
        };
        let all = self.snapshots_since(user_id, mode, earliest);
        let candidates = select_where(
            &all,
            |x: &(UtcTime, UserStatsSnapshot)| -> (r: bool)
                ensures r == not_before(earliest)(*x) { !x.0.is_before(earliest) },
            |x: &(UtcTime, UserStatsSnapshot)| -> (r: (UtcTime, UserStatsSnapshot))
                ensures r == *x { *x },
            Ghost(not_before(earliest)),
            Ghost(|x: (UtcTime, UserStatsSnapshot)| x),
        );
        proof {
            assert(views(all@) =~= all@);
            assert(candidates@ =~= views(candidates@));
            assert(candidates@ =~= all@.filter(not_before(earliest)));
            filter_holds(all@, not_before(earliest));
        }
        let found = closest_snapshot(&candidates, target);
        proof {
            closest_is_the_baseline(
                self@,
                user_id,
                mode,
                target_hours_ago,
                max_lookback,
                now,
                found,
            );
        }
        Ok(found)
    }

    /// The dated snapshot of the last `max_lookback` hours that is closest to `target_hours_ago`
    /// hours ago.
    pub fn get_closest_snapshot_to_hours_ago(
        &self,
        user_id: i64,
        mode: GameMode,
        target_hours_ago: i64,
        max_lookback: i64,
    ) -> (res: Result<Option<(UtcTime, UserStatsSnapshot)>, StorageError>)
        requires
            self.wf(),
        ensures
            exists|now: UtcTime| #[trigger]
                now.shown_by_clock() && match res {
                    Ok(found) => now.reaches_back(target_hours_ago) && now.reaches_back(
                        max_lookback,
                    ) && self@.closest_to(
                        user_id,
                        mode,
                        target_hours_ago,
                        max_lookback,
                        now,
                        found,
                    ) && self@.closest_agrees(
                        user_id,
                        mode,
                        target_hours_ago,
                        max_lookback,
                        now,
                        found,
                    ),
                    Err(e) => e == StorageError::TimeOutOfRange && !(now.reaches_back(
                        target_hours_ago,
                    ) && now.reaches_back(max_lookback)),
                },
    {
        let now = utc_now();
        self.get_closest_snapshot_to_hours_ago_at(
            user_id,
            mode,
            target_hours_ago,
            max_lookback,
            now,
        )
    }

    /// How the statistics of a player have changed in the day before `now`: since the snapshot of
    /// the last 36 hours that is closest to 24 hours ago, if there is one.
    pub fn calculate_change_at(
        &self,
        user_id: i64,
        mode: GameMode,
        current: &UserStats,
        now: UtcTime,
    ) -> (res: Result<Option<UserChange>, StorageError>)
        requires
            self.wf(),
            now.from_clock(),
        ensures
            self@.change(user_id, mode, *current, now, res),
    {
        let past = self.get_closest_snapshot_to_hours_ago_at(user_id, mode, 24, 36, now)?;
        match past {
            None => Ok(None),
            Some((_, stats)) => match change_since(current, stats) {
                Ok(change) => Ok(Some(change)),
                Err(e) => Err(e),
            },
        }
    }

    /// How the statistics of a player have changed in the last day.
    pub fn calculate_change(&self, user_id: i64, mode: GameMode, current: &UserStats) -> (res:
        Result<Option<UserChange>, StorageError>)
        requires
            self.wf(),
        ensures
            exists|now: UtcTime|
                now.shown_by_clock() && #[trigger] self@.change(user_id, mode, *current, now, res),
    {
        let now = utc_now();
        self.calculate_change_at(user_id, mode, current, now)
    }
}

} // verus!
