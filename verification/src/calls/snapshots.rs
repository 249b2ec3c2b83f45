//! Snapshots, which of them is closest to an instant, and how statistics have changed.
use crate::calls::plain::{
    columns_keep_numbers, comes_before, instants_are_texts, last_place, mode_number, read_instant,
    texts_are_compared_by_first_difference, written,
};
use crate::calls::time::{in_calendar, seconds_later};
use crate::calls::types::has_each_field;
use crate::rows::{history_before, HistoryView, TablesView};
use crate::snapshots::{
    above_row, below_row, change_since, closest, closest_at, closest_snapshot, dated, not_before,
    of_player, taken_at,
};
use crate::storage::Storage;
use crate::table::{filter_contains, first_where, first_where_facts};
use crate::text::text_lt;
use crate::time::{distance, UtcTime};
use crate::types::{snapshot_of, GameMode, StorageError, UserChange, UserStats, UserStatsSnapshot};
use std::collections::HashMap;
use vstd::prelude::*;

verus! {

broadcast use crate::storage::wf_tables;

/// The row is one of the player in the mode.
pub open spec fn of(h: HistoryView, user_id: i64, mode: GameMode) -> bool {
    h.user_id == user_id && h.mode == mode_number(mode)
}

/// Where there is no row of the player, mode and text of the instant yet, one is added that has
/// each field of the statistics, and where there is one, nothing is changed. Every other row stays,
/// and so does all else.
pub open spec fn saved_rightly(
    before: TablesView,
    after: TablesView,
    user_id: i64,
    mode: GameMode,
    stats: UserStats,
    now: UtcTime,
) -> bool {
    let there = exists|i: int|
        0 <= i < before.history.len() && of(#[trigger] before.history[i], user_id, mode)
            && before.history[i].recorded_at == written(now);
    &&& after == (TablesView { history: after.history, ..before })
    &&& there ==> after == before
    &&& forall|h: HistoryView| #[trigger]
        after.history.contains(h) <==> before.history.contains(h) || (!there && of(
            h,
            user_id,
            mode,
        ) && h.recorded_at == written(now) && has_each_field(h.stats, stats))
}

pub(crate) proof fn saved(
    t: TablesView,
    user_id: i64,
    mode: GameMode,
    stats: UserStats,
    now: UtcTime,
)
    requires
        t.wf(),
    ensures
        saved_rightly(
            t,
            t.with_stats(user_id, mode, snapshot_of(stats), now),
            user_id,
            mode,
            stats,
            now,
        ),
{
    let after = t.with_stats(user_id, mode, snapshot_of(stats), now);
    let q = taken_at(user_id, mode, now.text());
    let row = HistoryView {
        user_id,
        mode: mode.code(),
        recorded_at: now.text(),
        stats: snapshot_of(stats),
    };
    columns_keep_numbers(stats.pp);
    columns_keep_numbers(stats.accuracy);
    first_where_facts(t.history, q);
    let there = exists|i: int|
        0 <= i < t.history.len() && of(#[trigger] t.history[i], user_id, mode)
            && t.history[i].recorded_at == written(now);
    if there {
        let i = choose|i: int|
            0 <= i < t.history.len() && of(#[trigger] t.history[i], user_id, mode)
                && t.history[i].recorded_at == written(now);
        assert(t.history.contains(t.history[i]) && q(t.history[i]));
    } else if first_where(t.history, q) is Some {
        let h = first_where(t.history, q)->0;
        let i = choose|i: int| 0 <= i < t.history.len() && t.history[i] == h;
        assert(of(t.history[i], user_id, mode));
    }
    if !there {
        let (head, tail) = (t.history.filter(below_row(row)), t.history.filter(above_row(row)));
        assert(after.history == head.push(row) + tail);
        assert forall|h: HistoryView| #[trigger]
            after.history.contains(h) <==> t.history.contains(h) || h == row by {
            filter_contains(t.history, below_row(row), h);
            filter_contains(t.history, above_row(row), h);
            if after.history.contains(h) {
                let i = choose|i: int| 0 <= i < after.history.len() && after.history[i] == h;
                if i < head.len() {
                    assert(head.contains(head[i]));
                } else if i > head.len() {
                    assert(tail.contains(tail[i - head.len() - 1]));
                }
            }
            if h == row {
                assert(after.history[head.len() as int] == h);
            } else if t.history.contains(h) {
                let k = choose|k: int| 0 <= k < t.history.len() && t.history[k] == h;
                assert(!(of(t.history[k], user_id, mode) && t.history[k].recorded_at == written(
                    now,
                )));
                crate::text::text_lt_total(h.recorded_at, row.recorded_at);
                if head.contains(h) {
                    let i = choose|i: int| 0 <= i < head.len() && head[i] == h;
                    assert(after.history[i] == h);
                } else {
                    assert(tail.contains(h));
                    let i = choose|i: int| 0 <= i < tail.len() && tail[i] == h;
                    assert(after.history[head.len() + 1 + i] == h);
                }
            }
        }
        assert forall|h: HistoryView| of(h, user_id, mode) && h.recorded_at == written(now)
            && #[trigger] has_each_field(h.stats, stats) implies h == row by {}
    }
}

/// What is saved has each field of the statistics, under the instant that is given.
pub proof fn statistics_are_saved(
    s: &mut Storage,
    user_id: i64,
    mode: GameMode,
    stats: &UserStats,
    now: UtcTime,
)
    requires
        old(s).wf(),
        call_ensures(Storage::save_stats_at, (s, user_id, mode, stats, now), ()),
    ensures
        saved_rightly(old(s)@, final(s)@, user_id, mode, *stats, now),
        final(s).wf(),
{
    saved(old(s)@, user_id, mode, *stats, now);
}

/// The same by the clock.
pub proof fn statistics_are_saved_now(
    s: &mut Storage,
    user_id: i64,
    mode: GameMode,
    stats: &UserStats,
)
    requires
        old(s).wf(),
        call_ensures(Storage::save_stats, (s, user_id, mode, stats), ()),
    ensures
        exists|now: UtcTime| #[trigger]
            now.shown_by_clock() && saved_rightly(old(s)@, final(s)@, user_id, mode, *stats, now),
        final(s).wf(),
{
    let now = choose|now: UtcTime|
        now.shown_by_clock() && final(s)@ == #[trigger] old(s)@.with_stats(
            user_id,
            mode,
            snapshot_of(*stats),
            now,
        );
    saved(old(s)@, user_id, mode, *stats, now);
    assert(now.shown_by_clock() && saved_rightly(old(s)@, final(s)@, user_id, mode, *stats, now));
}

/// The latest snapshot is that of the row of the player and the mode whose text comes last, and
/// there is none exactly where there is no such row.
pub proof fn latest_comes_last(
    s: &Storage,
    user_id: i64,
    mode: GameMode,
    res: Option<UserStatsSnapshot>,
)
    requires
        s.wf(),
        call_ensures(Storage::get_latest_snapshot, (s, user_id, mode), res),
    ensures
        latest_rightly(s@, user_id, mode, res),
{
    latest_of(s@, user_id, mode);
}

/// `res` is of the row of the player and the mode whose text comes last.
pub open spec fn latest_rightly(
    t: TablesView,
    user_id: i64,
    mode: GameMode,
    res: Option<UserStatsSnapshot>,
) -> bool {
    &&& res is None <==> forall|i: int|
        0 <= i < t.history.len() ==> !of(#[trigger] t.history[i], user_id, mode)
    &&& res matches Some(stats) ==> exists|i: int|
        0 <= i < t.history.len() && of(#[trigger] t.history[i], user_id, mode)
            && t.history[i].stats == stats && last_of_player(t, i, user_id, mode)
}

/// No row of the player and the mode comes after the `i`th.
pub open spec fn last_of_player(t: TablesView, i: int, user_id: i64, mode: GameMode) -> bool {
    forall|j: int|
        0 <= j < t.history.len() && j != i && of(#[trigger] t.history[j], user_id, mode)
            ==> comes_before(t.history[j].recorded_at, t.history[i].recorded_at)
}

pub(crate) proof fn latest_of(t: TablesView, user_id: i64, mode: GameMode)
    requires
        t.wf(),
    ensures
        latest_rightly(t, user_id, mode, t.latest(user_id, mode)),
{
    let h = t.history;
    let k = last_place(h, of_player(user_id, mode));
    assert forall|i: int| 0 <= i < h.len() implies (of_player(user_id, mode)(#[trigger] h[i])
        <==> of(h[i], user_id, mode)) by {}
    if t.latest(user_id, mode) is Some {
        assert(of(h[k], user_id, mode));
        assert forall|j: int|
            0 <= j < h.len() && j != k && of(#[trigger] h[j], user_id, mode) implies comes_before(
            h[j].recorded_at,
            h[k].recorded_at,
        ) by {
            assert(j < k);
            assert(history_before()(h[j], h[k]));
            texts_are_compared_by_first_difference(h[j].recorded_at, h[k].recorded_at);
        }
        assert(last_of_player(t, k, user_id, mode));
    }
}

/// What was saved is what is read as the latest, field by field, where every row of the player and
/// the mode comes before the text of the instant.
pub proof fn saved_statistics_are_the_latest(
    s: &mut Storage,
    user_id: i64,
    mode: GameMode,
    stats: &UserStats,
    now: UtcTime,
    after: &Storage,
    read: Option<UserStatsSnapshot>,
)
    requires
        old(s).wf(),
        call_ensures(Storage::save_stats_at, (s, user_id, mode, stats, now), ()),
        after@ == final(s)@,
        after.wf(),
        call_ensures(Storage::get_latest_snapshot, (after, user_id, mode), read),
        forall|i: int|
            0 <= i < old(s)@.history.len() && of(#[trigger] old(s)@.history[i], user_id, mode)
                ==> comes_before(old(s)@.history[i].recorded_at, written(now)),
    ensures
        read matches Some(found) && has_each_field(found, *stats),
{
    let t = old(s)@;
    columns_keep_numbers(stats.pp);
    columns_keep_numbers(stats.accuracy);
    assert forall|h: HistoryView| #[trigger]
        t.history.contains(h) && of_player(user_id, mode)(h) implies text_lt(
        h.recorded_at,
        now.text(),
    ) by {
        let i = choose|i: int| 0 <= i < t.history.len() && t.history[i] == h;
        assert(of(t.history[i], user_id, mode));
        texts_are_compared_by_first_difference(h.recorded_at, now.text());
    }
    crate::laws::snapshots::saved_stats_are_latest(t, user_id, mode, snapshot_of(*stats), now);
}

/// The instant and the statistics of a row, where it is one of the player and the mode, its text
/// does not come before that of the cutoff, and the text can be read.
pub open spec fn dated_since(
    user_id: i64,
    mode: GameMode,
    cutoff: UtcTime,
) -> spec_fn(HistoryView) -> Option<(UtcTime, UserStatsSnapshot)> {
    |h: HistoryView|
        match read_instant(h.recorded_at) {
            Some(when) => if of(h, user_id, mode) && !comes_before(h.recorded_at, written(cutoff)) {
                Some((when, h.stats))
            } else {
                None
            },
            None => None,
        }
}

/// The dated rows of the player and the mode since the cutoff, in order.
pub open spec fn rows_since(
    t: TablesView,
    user_id: i64,
    mode: GameMode,
    cutoff: UtcTime,
) -> Seq<(UtcTime, UserStatsSnapshot)> {
    t.history.filter_map(dated_since(user_id, mode, cutoff))
}

proof fn since(t: TablesView, user_id: i64, mode: GameMode, cutoff: UtcTime)
    ensures
        t.snapshots_since(user_id, mode, cutoff) == rows_since(t, user_id, mode, cutoff),
{
    let (f, g) = (dated(user_id, mode, cutoff.text()), dated_since(user_id, mode, cutoff));
    assert forall|h: HistoryView| #[trigger] f(h) == g(h) by {
        instants_are_texts(cutoff, h.recorded_at, cutoff);
        texts_are_compared_by_first_difference(h.recorded_at, written(cutoff));
    }
    assert(f =~= g);
}

/// The snapshots since an instant are those of the rows since it.
pub proof fn snapshots_since_an_instant(
    s: &Storage,
    user_id: i64,
    mode: GameMode,
    cutoff: UtcTime,
    res: Vec<(UtcTime, UserStatsSnapshot)>,
)
    requires
        call_ensures(Storage::snapshots_since, (s, user_id, mode, cutoff), res),
    ensures
        res@ == rows_since(s@, user_id, mode, cutoff),
{
    since(s@, user_id, mode, cutoff);
}

/// `cutoff` is so many hours before `now`.
pub open spec fn hours_before(cutoff: UtcTime, now: UtcTime, hours: i64) -> bool {
    seconds_later(cutoff, now, -3_600 * hours)
}

/// `res` is the snapshots of the hours before `now`, or an error exactly where the calendar does
/// not reach back that far.
pub open spec fn within_rightly(
    t: TablesView,
    user_id: i64,
    mode: GameMode,
    hours: i64,
    now: UtcTime,
    res: Result<Vec<(UtcTime, UserStatsSnapshot)>, StorageError>,
) -> bool {
    match res {
        Ok(all) => in_calendar(now, -3_600 * hours) && forall|cutoff: UtcTime| #[trigger]
            hours_before(cutoff, now, hours) ==> all@ == rows_since(t, user_id, mode, cutoff),
        Err(e) => e == StorageError::TimeOutOfRange && !in_calendar(now, -3_600 * hours),
    }
}

/// The snapshots of the last hours are those since so many hours before, by the instant that is
/// given and by the clock.
pub proof fn snapshots_within_hours(
    s: &Storage,
    user_id: i64,
    mode: GameMode,
    hours: i64,
    now: UtcTime,
    res: Result<Vec<(UtcTime, UserStatsSnapshot)>, StorageError>,
    by_clock: Result<Vec<(UtcTime, UserStatsSnapshot)>, StorageError>,
)
    requires
        call_ensures(Storage::get_snapshots_within_hours_at, (s, user_id, mode, hours, now), res),
        call_ensures(Storage::get_snapshots_within_hours, (s, user_id, mode, hours), by_clock),
    ensures
        within_rightly(s@, user_id, mode, hours, now, res),
        exists|read: UtcTime| #[trigger]
            read.shown_by_clock() && within_rightly(s@, user_id, mode, hours, read, by_clock),
{
    since(s@, user_id, mode, now.hours_back(hours));
    assert forall|cutoff: UtcTime| #[trigger]
        hours_before(cutoff, now, hours) && now.reaches_back(hours) implies cutoff
        == now.hours_back(hours) by {}
    let read = choose|read: UtcTime| #[trigger]
        read.shown_by_clock() && match by_clock {
            Ok(all) => read.reaches_back(hours) && all@ == s@.snapshots_since(
                user_id,
                mode,
                read.hours_back(hours),
            ),
            Err(e) => e == StorageError::TimeOutOfRange && !read.reaches_back(hours),
        };
    since(s@, user_id, mode, read.hours_back(hours));
    assert forall|cutoff: UtcTime| #[trigger]
        hours_before(cutoff, read, hours) && read.reaches_back(hours) implies cutoff
        == read.hours_back(hours) by {}
    assert(within_rightly(s@, user_id, mode, hours, read, by_clock));
}

/// `found` is one of the dated snapshots, none is closer to the target in whole seconds, and of
/// those as close it is the first.
pub open spec fn is_closest(
    all: Seq<(UtcTime, UserStatsSnapshot)>,
    target: UtcTime,
    found: (UtcTime, UserStatsSnapshot),
) -> bool {
    exists|i: int|
        0 <= i < all.len() && #[trigger] all[i] == found && forall|j: int|
            0 <= j < all.len() ==> distance(found.0, target) <= distance(
                (#[trigger] all[j]).0,
                target,
            ) && (j < i ==> distance(found.0, target) < distance(all[j].0, target))
}

/// The closest of dated snapshots is one of them and no other is closer; there is none exactly
/// where there are no snapshots.
pub proof fn closest_is_closest(
    all: &Vec<(UtcTime, UserStatsSnapshot)>,
    target: UtcTime,
    res: Option<(UtcTime, UserStatsSnapshot)>,
)
    requires
        call_ensures(closest_snapshot, (all, target), res),
    ensures
        res is None <==> all@.len() == 0,
        res matches Some(found) ==> is_closest(all@, target, found),
{
    if res is Some {
        let i = choose|i: int| #[trigger] closest_at(all@, i, target) && res->0 == all@[i];
        assert(all@[i] == res->0);
    }
}

/// Of the players asked for, those have a baseline that have a snapshot in the lookback, and it is
/// the one closest to the target.
pub open spec fn baselines_rightly(
    t: TablesView,
    user_ids: Seq<i64>,
    mode: GameMode,
    target: UtcTime,
    earliest: UtcTime,
    found: Map<i64, UserStatsSnapshot>,
) -> bool {
    forall|u: i64|
        {
            let all = rows_since(t, u, mode, earliest);
            &&& #[trigger] found.contains_key(u) <==> user_ids.contains(u) && all.len() > 0
            &&& found.contains_key(u) ==> exists|when: UtcTime| #[trigger]
                is_closest(all, target, (when, found[u]))
        }
}

/// `res` is the baselines for the hours before `now`, or an error exactly where the calendar does
/// not reach back that far and a player is asked for.
pub open spec fn batch_rightly(
    t: TablesView,
    user_ids: Seq<i64>,
    mode: GameMode,
    target_hours_ago: i64,
    max_lookback: i64,
    now: UtcTime,
    res: Result<HashMap<i64, UserStatsSnapshot>, StorageError>,
) -> bool {
    let reached = in_calendar(now, -3_600 * target_hours_ago) && in_calendar(
        now,
        -3_600 * max_lookback,
    );
    match res {
        Ok(found) => (user_ids.len() == 0 ==> found@ == Map::<i64, UserStatsSnapshot>::empty()) && (
        user_ids.len() > 0 ==> reached) && forall|target: UtcTime, earliest: UtcTime|
            #![trigger hours_before(target, now, target_hours_ago), hours_before(earliest, now, max_lookback)]
            hours_before(target, now, target_hours_ago) && hours_before(earliest, now, max_lookback)
                ==> baselines_rightly(t, user_ids, mode, target, earliest, found@),
        Err(e) => e == StorageError::TimeOutOfRange && user_ids.len() > 0 && !reached,
    }
}

proof fn batch(
    t: TablesView,
    user_ids: Seq<i64>,
    mode: GameMode,
    target_hours_ago: i64,
    max_lookback: i64,
    now: UtcTime,
    res: Result<HashMap<i64, UserStatsSnapshot>, StorageError>,
)
    requires
        match res {
            Ok(found) => (user_ids.len() == 0 || (now.reaches_back(target_hours_ago)
                && now.reaches_back(max_lookback))) && t.baselines(
                user_ids,
                mode,
                target_hours_ago,
                max_lookback,
                now,
                found@,
            ),
            Err(e) => e == StorageError::TimeOutOfRange && user_ids.len() > 0 && !(
            now.reaches_back(target_hours_ago) && now.reaches_back(max_lookback)),
        },
    ensures
        batch_rightly(t, user_ids, mode, target_hours_ago, max_lookback, now, res),
{
    if res is Ok {
        let found = res->Ok_0@;
        if user_ids.len() == 0 {
            assert forall|u: i64| !found.contains_key(u) by {
                assert(!user_ids.contains(u));
            }
            assert(found =~= Map::<i64, UserStatsSnapshot>::empty());
        }
        assert forall|target: UtcTime, earliest: UtcTime|
            #![trigger hours_before(target, now, target_hours_ago), hours_before(earliest, now, max_lookback)]
            hours_before(target, now, target_hours_ago) && hours_before(
                earliest,
                now,
                max_lookback,
            ) implies baselines_rightly(t, user_ids, mode, target, earliest, found) by {
            assert forall|u: i64|
                {
                    let all = rows_since(t, u, mode, earliest);
                    &&& #[trigger] found.contains_key(u) <==> user_ids.contains(u) && all.len() > 0
                    &&& found.contains_key(u) ==> exists|when: UtcTime| #[trigger]
                        is_closest(all, target, (when, found[u]))
                } by {
                let all = rows_since(t, u, mode, earliest);
                since(t, u, mode, earliest);
                if user_ids.len() > 0 {
                    assert(earliest == now.hours_back(max_lookback));
                    assert(target == now.hours_back(target_hours_ago));
                    if found.contains_key(u) {
                        let i = choose|i: int| #[trigger]
                            closest_at(all, i, target) && found[u] == all[i].1;
                        assert(all[i] == (all[i].0, found[u]));
                        assert(is_closest(all, target, (all[i].0, found[u])));
                    }
                } else {
                    assert(!user_ids.contains(u));
                }
            }
        }
    }
}

/// The baselines of players are the snapshots of the lookback that are closest to the target, by the
/// instant that is given and by the clock.
pub proof fn baselines_are_closest(
    s: &Storage,
    user_ids: &[i64],
    mode: GameMode,
    target_hours_ago: i64,
    max_lookback: i64,
    now: UtcTime,
    res: Result<HashMap<i64, UserStatsSnapshot>, StorageError>,
    by_clock: Result<HashMap<i64, UserStatsSnapshot>, StorageError>,
)
    requires
        call_ensures(
            Storage::get_baseline_snapshots_for_users_at,
            (s, user_ids, mode, target_hours_ago, max_lookback, now),
            res,
        ),
        call_ensures(
            Storage::get_baseline_snapshots_for_users,
            (s, user_ids, mode, target_hours_ago, max_lookback),
            by_clock,
        ),
    ensures
        batch_rightly(s@, user_ids@, mode, target_hours_ago, max_lookback, now, res),
        exists|read: UtcTime| #[trigger]
            read.shown_by_clock() && batch_rightly(
                s@,
                user_ids@,
                mode,
                target_hours_ago,
                max_lookback,
                read,
                by_clock,
            ),
{
    batch(s@, user_ids@, mode, target_hours_ago, max_lookback, now, res);
    let read = choose|read: UtcTime| #[trigger]
        read.shown_by_clock() && match by_clock {
            Ok(found) => (user_ids@.len() == 0 || (read.reaches_back(target_hours_ago)
                && read.reaches_back(max_lookback))) && s@.baselines(
                user_ids@,
                mode,
                target_hours_ago,
                max_lookback,
                read,
                found@,
            ),
            Err(e) => e == StorageError::TimeOutOfRange && user_ids@.len() > 0 && !(
            read.reaches_back(target_hours_ago) && read.reaches_back(max_lookback)),
        };
    batch(s@, user_ids@, mode, target_hours_ago, max_lookback, read, by_clock);
}

/// `res` is the snapshot of the 36 hours before `now` that is closest to 24 hours before.
pub open spec fn baseline_rightly(
    t: TablesView,
    user_id: i64,
    mode: GameMode,
    now: UtcTime,
    res: Option<UserStatsSnapshot>,
) -> bool {
    forall|target: UtcTime, earliest: UtcTime|
        #![trigger hours_before(target, now, 24), hours_before(earliest, now, 36)]
        hours_before(target, now, 24) && hours_before(earliest, now, 36) ==> {
            let all = rows_since(t, user_id, mode, earliest);
            &&& res is None <==> all.len() == 0
            &&& res matches Some(stats) ==> exists|when: UtcTime| #[trigger]
                is_closest(all, target, (when, stats))
        }
}

proof fn baseline_of(
    t: TablesView,
    user_id: i64,
    mode: GameMode,
    now: UtcTime,
    res: Option<UserStatsSnapshot>,
)
    requires
        now.from_clock(),
        t.baseline(user_id, mode, now, res),
    ensures
        baseline_rightly(t, user_id, mode, now, res),
{
    assert forall|target: UtcTime, earliest: UtcTime|
        #![trigger hours_before(target, now, 24), hours_before(earliest, now, 36)]
        hours_before(target, now, 24) && hours_before(earliest, now, 36) implies {
        let all = rows_since(t, user_id, mode, earliest);
        &&& res is None <==> all.len() == 0
        &&& res matches Some(stats) ==> exists|when: UtcTime| #[trigger]
            is_closest(all, target, (when, stats))
    } by {
        let all = rows_since(t, user_id, mode, earliest);
        since(t, user_id, mode, earliest);
        assert(earliest == now.hours_back(36));
        assert(target == now.hours_back(24));
        if res is Some {
            let i = choose|i: int| #[trigger] closest_at(all, i, target) && res->0 == all[i].1;
            assert(all[i] == (all[i].0, res->0));
            assert(is_closest(all, target, (all[i].0, res->0)));
        }
    }
}

/// The baseline of one player is that of a day before, in a lookback of a day and a half, by the
/// instant that is given and by the clock.
pub proof fn baseline_is_closest_to_a_day_before(
    s: &Storage,
    user_id: i64,
    mode: GameMode,
    now: UtcTime,
    res: Option<UserStatsSnapshot>,
    by_clock: Option<UserStatsSnapshot>,
)
    requires
        now.from_clock(),
        call_ensures(Storage::get_baseline_snapshot_at, (s, user_id, mode, now), res),
        call_ensures(Storage::get_baseline_snapshot, (s, user_id, mode), by_clock),
    ensures
        baseline_rightly(s@, user_id, mode, now, res),
        exists|read: UtcTime| #[trigger]
            read.shown_by_clock() && baseline_rightly(s@, user_id, mode, read, by_clock),
{
    baseline_of(s@, user_id, mode, now, res);
    let read = choose|read: UtcTime|
        read.shown_by_clock() && #[trigger] s@.baseline(user_id, mode, read, by_clock);
    baseline_of(s@, user_id, mode, read, by_clock);
    assert(read.shown_by_clock() && baseline_rightly(s@, user_id, mode, read, by_clock));
}

/// `found` is the snapshot in the lookback that is closest to the target, of those whose instant is
/// not before the lookback.
pub open spec fn closest_in_lookback(
    t: TablesView,
    user_id: i64,
    mode: GameMode,
    target: UtcTime,
    earliest: UtcTime,
    found: Option<(UtcTime, UserStatsSnapshot)>,
) -> bool {
    let all = rows_since(t, user_id, mode, earliest).filter(
        |x: (UtcTime, UserStatsSnapshot)|
            x.0.secs > earliest.secs || (x.0.secs == earliest.secs && x.0.nanos >= earliest.nanos),
    );
    &&& found is None <==> all.len() == 0
    &&& found matches Some(x) ==> is_closest(all, target, x)
}

/// `res` is the snapshot that is closest to some hours before `now`, or an error exactly where the
/// calendar does not reach back that far.
pub open spec fn closest_rightly(
    t: TablesView,
    user_id: i64,
    mode: GameMode,
    target_hours_ago: i64,
    max_lookback: i64,
    now: UtcTime,
    res: Result<Option<(UtcTime, UserStatsSnapshot)>, StorageError>,
) -> bool {
    let reached = in_calendar(now, -3_600 * target_hours_ago) && in_calendar(
        now,
        -3_600 * max_lookback,
    );
    match res {
        Ok(found) => reached && forall|target: UtcTime, earliest: UtcTime|
            #![trigger hours_before(target, now, target_hours_ago), hours_before(earliest, now, max_lookback)]
            hours_before(target, now, target_hours_ago) && hours_before(earliest, now, max_lookback)
                ==> closest_in_lookback(t, user_id, mode, target, earliest, found),
        Err(e) => e == StorageError::TimeOutOfRange && !reached,
    }
}

proof fn closest_of(
    t: TablesView,
    user_id: i64,
    mode: GameMode,
    target: UtcTime,
    earliest: UtcTime,
    found: Option<(UtcTime, UserStatsSnapshot)>,
)
    requires
        closest(
            t.snapshots_since(user_id, mode, earliest).filter(not_before(earliest)),
            target,
            found,
        ),
    ensures
        closest_in_lookback(t, user_id, mode, target, earliest, found),
{
    since(t, user_id, mode, earliest);
    let p = |x: (UtcTime, UserStatsSnapshot)|
        x.0.secs > earliest.secs || (x.0.secs == earliest.secs && x.0.nanos >= earliest.nanos);
    assert(p =~= not_before(earliest));
    let all = rows_since(t, user_id, mode, earliest).filter(p);
    if found is Some {
        let i = choose|i: int| #[trigger] closest_at(all, i, target) && found->0 == all[i];
        assert(all[i] == found->0);
    }
}

proof fn closest_to_hours(
    t: TablesView,
    user_id: i64,
    mode: GameMode,
    target_hours_ago: i64,
    max_lookback: i64,
    now: UtcTime,
    res: Result<Option<(UtcTime, UserStatsSnapshot)>, StorageError>,
)
    requires
        match res {
            Ok(found) => now.reaches_back(target_hours_ago) && now.reaches_back(max_lookback)
                && t.closest_to(user_id, mode, target_hours_ago, max_lookback, now, found),
            Err(e) => e == StorageError::TimeOutOfRange && !(now.reaches_back(target_hours_ago)
                && now.reaches_back(max_lookback)),
        },
    ensures
        closest_rightly(t, user_id, mode, target_hours_ago, max_lookback, now, res),
{
    if res is Ok {
        assert forall|target: UtcTime, earliest: UtcTime|
            #![trigger hours_before(target, now, target_hours_ago), hours_before(earliest, now, max_lookback)]
            hours_before(target, now, target_hours_ago) && hours_before(
                earliest,
                now,
                max_lookback,
            ) implies closest_in_lookback(t, user_id, mode, target, earliest, res->Ok_0) by {
            assert(earliest == now.hours_back(max_lookback));
            assert(target == now.hours_back(target_hours_ago));
            closest_of(t, user_id, mode, target, earliest, res->Ok_0);
        }
    }
}

/// The closest snapshot lies in the lookback, and none there is closer, by the instant that is given
/// and by the clock.
pub proof fn closest_snapshot_is_closest(
    s: &Storage,
    user_id: i64,
    mode: GameMode,
    target_hours_ago: i64,
    max_lookback: i64,
    now: UtcTime,
    res: Result<Option<(UtcTime, UserStatsSnapshot)>, StorageError>,
    by_clock: Result<Option<(UtcTime, UserStatsSnapshot)>, StorageError>,
)
    requires
        call_ensures(
            Storage::get_closest_snapshot_to_hours_ago_at,
            (s, user_id, mode, target_hours_ago, max_lookback, now),
            res,
        ),
        call_ensures(
            Storage::get_closest_snapshot_to_hours_ago,
            (s, user_id, mode, target_hours_ago, max_lookback),
            by_clock,
        ),
    ensures
        closest_rightly(s@, user_id, mode, target_hours_ago, max_lookback, now, res),
        exists|read: UtcTime| #[trigger]
            read.shown_by_clock() && closest_rightly(
                s@,
                user_id,
                mode,
                target_hours_ago,
                max_lookback,
                read,
                by_clock,
            ),
{
    closest_to_hours(s@, user_id, mode, target_hours_ago, max_lookback, now, res);
    let read = choose|read: UtcTime| #[trigger]
        read.shown_by_clock() && match by_clock {
            Ok(found) => read.reaches_back(target_hours_ago) && read.reaches_back(max_lookback)
                && s@.closest_to(user_id, mode, target_hours_ago, max_lookback, read, found),
            Err(e) => e == StorageError::TimeOutOfRange && !(read.reaches_back(target_hours_ago)
                && read.reaches_back(max_lookback)),
        };
    closest_to_hours(s@, user_id, mode, target_hours_ago, max_lookback, read, by_clock);
}

/// The change of a count is `d`: there is one where both counts are known, that is, there and not
/// zero, and it is what `d` is.
pub open spec fn change_is(change: Option<i64>, current: i64, past: Option<i64>, d: int) -> bool {
    if current == 0 || past is None || past == Some(0i64) {
        change is None
    } else {
        change matches Some(n) && n == d
    }
}

/// The difference of two known counts is too large for a machine number.
pub open spec fn too_large(current: i64, past: Option<i64>, d: int) -> bool {
    current != 0 && past is Some && past != Some(0i64) && !(i64::MIN <= d <= i64::MAX)
}

/// `res` is the change from the snapshot to the statistics: ranks are counted as places gained,
/// past minus current, and all other counts as growth, current minus past; a real value goes with
/// what it was. An error comes exactly where a difference is too large.
pub open spec fn changed_rightly(
    current: UserStats,
    past: UserStatsSnapshot,
    res: Result<UserChange, StorageError>,
) -> bool {
    let refused = {
        ||| too_large(current.rank, past.rank, past.rank->0 - current.rank)
        ||| too_large(
            current.country_rank,
            past.country_rank,
            past.country_rank->0 - current.country_rank,
        )
        ||| too_large(current.playcount, past.playcount, current.playcount - past.playcount->0)
        ||| too_large(current.hits, past.hits, current.hits - past.hits->0)
        ||| too_large(current.playtime, past.playtime, current.playtime - past.playtime->0)
    };
    match res {
        Ok(c) => {
            &&& !refused
            &&& change_is(c.rank_change, current.rank, past.rank, past.rank->0 - current.rank)
            &&& change_is(
                c.country_rank_change,
                current.country_rank,
                past.country_rank,
                past.country_rank->0 - current.country_rank,
            )
            &&& change_is(
                c.playcount_change,
                current.playcount,
                past.playcount,
                current.playcount - past.playcount->0,
            )
            &&& change_is(c.hits_change, current.hits, past.hits, current.hits - past.hits->0)
            &&& change_is(
                c.playtime_change,
                current.playtime,
                past.playtime,
                current.playtime - past.playtime->0,
            )
            &&& past.pp is None <==> c.pp_change is None
            &&& c.pp_change matches Some(x) ==> x.current == current.pp && Some(x.past) == past.pp
            &&& past.accuracy is None <==> c.accuracy_change is None
            &&& c.accuracy_change matches Some(x) ==> x.current == current.accuracy && Some(x.past)
                == past.accuracy
        },
        Err(e) => e == StorageError::ChangeOutOfRange && refused,
    }
}

/// The change since a snapshot is the exact difference of each count that is known on both sides.
pub proof fn changes_are_differences(
    current: &UserStats,
    past: UserStatsSnapshot,
    res: Result<UserChange, StorageError>,
)
    requires
        call_ensures(change_since, (current, past), res),
    ensures
        changed_rightly(*current, past, res),
{
}

/// A better rank is a gain of places: the change is positive exactly where the current rank, in the
/// country or in the world, is the smaller number.
pub proof fn smaller_ranks_are_gains(
    current: &UserStats,
    past: UserStatsSnapshot,
    change: UserChange,
)
    requires
        call_ensures(change_since, (current, past), Ok(change)),
        current.rank != 0,
        current.country_rank != 0,
        past.rank matches Some(n) && n != 0,
        past.country_rank matches Some(n) && n != 0,
    ensures
        change.rank_change matches Some(d) && (d > 0 <==> current.rank < past.rank->0),
        change.country_rank_change matches Some(d) && (d > 0 <==> current.country_rank
            < past.country_rank->0),
{
}

/// `res` is the change since the snapshot that is closest to a day before `now`, and none exactly
/// where there is no such snapshot.
pub open spec fn change_since_a_day(
    t: TablesView,
    user_id: i64,
    mode: GameMode,
    current: UserStats,
    now: UtcTime,
    res: Result<Option<UserChange>, StorageError>,
) -> bool {
    forall|target: UtcTime, earliest: UtcTime|
        #![trigger hours_before(target, now, 24), hours_before(earliest, now, 36)]
        hours_before(target, now, 24) && hours_before(earliest, now, 36) ==> exists|
            found: Option<(UtcTime, UserStatsSnapshot)>,
        | #[trigger]
            closest_in_lookback(t, user_id, mode, target, earliest, found) && match found {
                None => res == Ok::<Option<UserChange>, StorageError>(None),
                Some((_, past)) => match res {
                    Ok(Some(change)) => changed_rightly(current, past, Ok(change)),
                    Ok(None) => false,
                    Err(e) => changed_rightly(current, past, Err(e)),
                },
            }
}

proof fn change_of_a_day(
    t: TablesView,
    user_id: i64,
    mode: GameMode,
    current: UserStats,
    now: UtcTime,
    res: Result<Option<UserChange>, StorageError>,
)
    requires
        now.from_clock(),
        t.change(user_id, mode, current, now, res),
    ensures
        change_since_a_day(t, user_id, mode, current, now, res),
{
    let past = choose|past: Option<(UtcTime, UserStatsSnapshot)>| #[trigger]
        t.closest_to(user_id, mode, 24, 36, now, past) && res == match past {
            None => Ok::<Option<UserChange>, StorageError>(None),
            Some((_, stats)) => if crate::snapshots::changes_fit(current, stats) {
                Ok(Some(crate::snapshots::change_of(current, stats)))
            } else {
                Err(StorageError::ChangeOutOfRange)
            },
        };
    assert forall|target: UtcTime, earliest: UtcTime|
        #![trigger hours_before(target, now, 24), hours_before(earliest, now, 36)]
        hours_before(target, now, 24) && hours_before(earliest, now, 36) implies exists|
        found: Option<(UtcTime, UserStatsSnapshot)>,
    | #[trigger]
        closest_in_lookback(t, user_id, mode, target, earliest, found) && match found {
            None => res == Ok::<Option<UserChange>, StorageError>(None),
            Some((_, past)) => match res {
                Ok(Some(change)) => changed_rightly(current, past, Ok(change)),
                Ok(None) => false,
                Err(e) => changed_rightly(current, past, Err(e)),
            },
        } by {
        assert(earliest == now.hours_back(36));
        assert(target == now.hours_back(24));
        closest_of(t, user_id, mode, target, earliest, past);
        assert(closest_in_lookback(t, user_id, mode, target, earliest, past));
    }
}

/// The change of a day is that since the closest snapshot, by the instant that is given and by the
/// clock.
pub proof fn change_is_since_a_day_before(
    s: &Storage,
    user_id: i64,
    mode: GameMode,
    current: &UserStats,
    now: UtcTime,
    res: Result<Option<UserChange>, StorageError>,
    by_clock: Result<Option<UserChange>, StorageError>,
)
    requires
        now.from_clock(),
        call_ensures(Storage::calculate_change_at, (s, user_id, mode, current, now), res),
        call_ensures(Storage::calculate_change, (s, user_id, mode, current), by_clock),
    ensures
        change_since_a_day(s@, user_id, mode, *current, now, res),
        exists|read: UtcTime| #[trigger]
            read.shown_by_clock() && change_since_a_day(s@, user_id, mode, *current, read, by_clock),
{
    change_of_a_day(s@, user_id, mode, *current, now, res);
    let read = choose|read: UtcTime|
        read.shown_by_clock() && #[trigger] s@.change(user_id, mode, *current, read, by_clock);
    change_of_a_day(s@, user_id, mode, *current, read, by_clock);
    assert(read.shown_by_clock() && change_since_a_day(
        s@,
        user_id,
        mode,
        *current,
        read,
        by_clock,
    ));
}

} // verus!
