//! Laws of the snapshots.
use crate::rows::{history_before, history_lt, HistoryView, TablesView};
use crate::snapshots::{
    above_row, below_row, both_known, change_of, closest_at, dated, not_before, of_player, stats_of,
    taken_at,
};
use crate::table::{
    filter_all, filter_filter, filter_holds, filter_none, filter_pairwise, filter_push, first_where,
    first_where_facts, last_where_at,
};
use crate::text::{text_lt, text_lt_irreflexive};
use crate::time::{before_year_10000, instant_of, plain_year, written_at, UtcTime};
use crate::types::{GameMode, UserStats, UserStatsSnapshot};
use vstd::prelude::*;

verus! {

/// The row that saving statistics adds.
pub open spec fn saved_row(
    user_id: i64,
    mode: GameMode,
    stats: UserStatsSnapshot,
    now: UtcTime,
) -> HistoryView {
    HistoryView { user_id, mode: mode.code(), recorded_at: now.text(), stats }
}

/// A snapshot later than all others of its player and mode is the latest once it is saved.
pub proof fn saved_stats_are_latest(
    t: TablesView,
    user_id: i64,
    mode: GameMode,
    stats: UserStatsSnapshot,
    now: UtcTime,
)
    requires
        forall|h: HistoryView| #[trigger]
            t.history.contains(h) && of_player(user_id, mode)(h) ==> text_lt(
                h.recorded_at,
                now.text(),
            ),
    ensures
        t.with_stats(user_id, mode, stats, now).latest(user_id, mode) == Some(stats),
{
    let row = saved_row(user_id, mode, stats, now);
    let p = of_player(user_id, mode);
    let s = t.history;
    first_where_facts(s, taken_at(user_id, mode, now.text()));
    text_lt_irreflexive(now.text());
    if first_where(s, taken_at(user_id, mode, now.text())) is Some {
        let h = first_where(s, taken_at(user_id, mode, now.text()))->0;
        assert(s.contains(h) && p(h));
        assert(false);
    }
    let head = s.filter(below_row(row));
    let tail = s.filter(above_row(row));
    let all = head.push(row) + tail;
    filter_holds(s, above_row(row));
    assert forall|j: int| head.len() < j < all.len() implies !p(#[trigger] all[j]) by {
        let h = tail[j - head.len() - 1];
        assert(all[j] == h && s.contains(h) && history_lt(row, h));
        if p(h) {
            crate::text::text_lt_transitive(row.recorded_at, h.recorded_at, row.recorded_at);
        }
    }
    assert(all[head.len() as int] == row && p(row));
    last_where_at(all, head.len() as int, p);
}

/// Saving a snapshot leaves the latest of every other player and mode alone.
pub proof fn save_leaves_others(
    t: TablesView,
    user_id: i64,
    mode: GameMode,
    stats: UserStatsSnapshot,
    now: UtcTime,
    other_id: i64,
    other_mode: GameMode,
)
    requires
        other_id != user_id || other_mode != mode,
    ensures
        t.with_stats(user_id, mode, stats, now).history.filter(of_player(other_id, other_mode))
            == t.history.filter(of_player(other_id, other_mode)),
        t.with_stats(user_id, mode, stats, now).latest(other_id, other_mode) == t.latest(
            other_id,
            other_mode,
        ),
{
    let row = saved_row(user_id, mode, stats, now);
    let p = of_player(other_id, other_mode);
    let s = t.history;
    let head = s.filter(below_row(row));
    let tail = s.filter(above_row(row));
    assert(mode.code() != other_mode.code() || other_id != user_id);
    if first_where(s, taken_at(user_id, mode, now.text())) is None {
        Seq::filter_distributes_over_add(head.push(row), tail, p);
        filter_push(head, row, p);
        filter_holds(s, below_row(row));
        filter_holds(s, above_row(row));
        if other_id < user_id || (other_id == user_id && other_mode.code() < mode.code()) {
            filter_filter(s, below_row(row), p);
            assert forall|j: int| 0 <= j < tail.len() implies !p(#[trigger] tail[j]) by {
                assert(history_lt(row, tail[j]));
            }
            filter_none(tail, p);
            assert(head.filter(p) + Seq::<HistoryView>::empty() =~= head.filter(p));
        } else {
            filter_filter(s, above_row(row), p);
            assert forall|j: int| 0 <= j < head.len() implies !p(#[trigger] head[j]) by {
                assert(history_lt(head[j], row));
            }
            filter_none(head, p);
            assert(Seq::<HistoryView>::empty() + tail.filter(p) =~= tail.filter(p));
        }
    }
}

/// Of two snapshots of one player, mode and instant the first stays.
pub proof fn first_snapshot_of_an_instant_stays(
    t: TablesView,
    user_id: i64,
    mode: GameMode,
    first: UserStatsSnapshot,
    second: UserStatsSnapshot,
    now: UtcTime,
)
    ensures
        t.with_stats(user_id, mode, first, now).with_stats(user_id, mode, second, now)
            == t.with_stats(user_id, mode, first, now),
{
    let row = saved_row(user_id, mode, first, now);
    let after = t.with_stats(user_id, mode, first, now);
    let p = taken_at(user_id, mode, now.text());
    if first_where(t.history, p) is None {
        let head = t.history.filter(below_row(row));
        assert(after.history[head.len() as int] == row && p(row));
        assert(after.history.contains(row));
        first_where_facts(after.history, p);
    }
}

/// The latest snapshot is one of the player in the mode, and none of them is later.
pub proof fn latest_is_newest(t: TablesView, user_id: i64, mode: GameMode)
    requires
        t.wf(),
    ensures
        t.latest(user_id, mode) is None ==> t.history.filter(of_player(user_id, mode)).len() == 0,
        t.latest(user_id, mode) matches Some(stats) ==> exists|h: HistoryView| #[trigger]
            t.history.contains(h) && of_player(user_id, mode)(h) && h.stats == stats && (forall|
                k: HistoryView,
            | #[trigger]
                t.history.contains(k) && of_player(user_id, mode)(k) ==> k == h || text_lt(
                    k.recorded_at,
                    h.recorded_at,
                )),
{
    let p = of_player(user_id, mode);
    let mine = t.history.filter(p);
    if mine.len() > 0 {
        let h = mine.last();
        filter_holds(t.history, p);
        assert(t.history.contains(h) && p(h));
        filter_pairwise(t.history, p, history_before());
        assert forall|k: HistoryView| #[trigger] t.history.contains(k) && p(k) implies k == h
            || text_lt(k.recorded_at, h.recorded_at) by {
            broadcast use Seq::lemma_filter_contains;

            let i = choose|i: int| 0 <= i < t.history.len() && t.history[i] == k;
            assert(p(t.history[i]));
            assert(mine.contains(k));
            let j = choose|j: int| 0 <= j < mine.len() && mine[j] == k;
            if j < mine.len() - 1 {
                assert(history_before()(mine[j], mine[mine.len() - 1]));
            }
        }
    }
}

/// Snapshots that are written as the library writes them stay so: a fresh storage has none, and one
/// that is saved in a year of four digits is written so.
pub proof fn snapshots_stay_recorded(
    t: TablesView,
    user_id: i64,
    mode: GameMode,
    stats: UserStatsSnapshot,
    now: UtcTime,
    other_id: i64,
    other_mode: GameMode,
)
    requires
        t.recorded_plainly(other_id, other_mode),
        now.valid(),
        plain_year(now.secs),
        now.reads_back(),
    ensures
        TablesView::empty().recorded_plainly(other_id, other_mode),
        t.with_stats(user_id, mode, stats, now).recorded_plainly(other_id, other_mode),
{
    let row = saved_row(user_id, mode, stats, now);
    let s = t.history;
    let head = s.filter(below_row(row));
    let tail = s.filter(above_row(row));
    let all = head.push(row) + tail;
    filter_holds(s, below_row(row));
    filter_holds(s, above_row(row));
    assert forall|h: HistoryView| #[trigger]
        all.contains(h) && of_player(other_id, other_mode)(h) implies instant_of(
        h.recorded_at,
    ) matches Some(t) && written_at(h.recorded_at, t) by {
        let i = choose|i: int| 0 <= i < all.len() && all[i] == h;
        if i < head.len() {
            assert(s.contains(head[i]));
        } else if i > head.len() {
            assert(s.contains(tail[i - head.len() - 1]));
        }
    }
}

/// There is one closest snapshot at most.
pub proof fn closest_is_unique(
    s: Seq<(UtcTime, UserStatsSnapshot)>,
    i: int,
    j: int,
    target: UtcTime,
)
    requires
        closest_at(s, i, target),
        closest_at(s, j, target),
    ensures
        i == j,
{
    let (a, b) = (s[i], s[j]);
}

/// The baseline of a player in a batch is the same in every batch that asks for the player, for
/// any hours: none where the player has none.
pub proof fn batch_is_each_alone(
    t: TablesView,
    a: Seq<i64>,
    b: Seq<i64>,
    mode: GameMode,
    target_hours_ago: i64,
    max_lookback: i64,
    now: UtcTime,
    of_a: Map<i64, UserStatsSnapshot>,
    of_b: Map<i64, UserStatsSnapshot>,
    user_id: i64,
)
    requires
        t.baselines(a, mode, target_hours_ago, max_lookback, now, of_a),
        t.baselines(b, mode, target_hours_ago, max_lookback, now, of_b),
        a.contains(user_id),
        b.contains(user_id),
    ensures
        of_a.contains_key(user_id) <==> of_b.contains_key(user_id),
        of_a.contains_key(user_id) ==> of_a[user_id] == of_b[user_id],
{
    let s = t.snapshots_since(user_id, mode, now.hours_back(max_lookback));
    let target = now.hours_back(target_hours_ago);
    assert(of_a.contains_key(user_id) <==> s.len() > 0);
    assert(of_b.contains_key(user_id) <==> s.len() > 0);
    if s.len() > 0 {
        let i = choose|i: int| #[trigger] closest_at(s, i, target) && of_a[user_id] == s[i].1;
        let j = choose|j: int| #[trigger] closest_at(s, j, target) && of_b[user_id] == s[j].1;
        closest_is_unique(s, i, j, target);
    }
}

/// The baseline of one player is that of any batch for 24 and 36 hours.
pub proof fn baseline_is_that_of_a_batch(
    t: TablesView,
    user_ids: Seq<i64>,
    mode: GameMode,
    now: UtcTime,
    batch: Map<i64, UserStatsSnapshot>,
    user_id: i64,
    alone: Option<UserStatsSnapshot>,
)
    requires
        t.baselines(user_ids, mode, 24, 36, now, batch),
        t.baseline(user_id, mode, now, alone),
        user_ids.contains(user_id),
    ensures
        alone == if batch.contains_key(user_id) {
            Some(batch[user_id])
        } else {
            None
        },
{
    let s = t.snapshots_since(user_id, mode, now.hours_back(36));
    assert(batch.contains_key(user_id) <==> s.len() > 0);
    if alone is Some {
        let i = choose|i: int| #[trigger]
            closest_at(s, i, now.hours_back(24)) && alone->0 == s[i].1;
        let j = choose|j: int| #[trigger]
            closest_at(s, j, now.hours_back(24)) && batch[user_id] == s[j].1;
        closest_is_unique(s, i, j, now.hours_back(24));
    }
}

/// The closest snapshot lies in the lookback, and it is the player's baseline for the same hours,
/// in any batch and alone, where the snapshots of the player are written as the library writes
/// them and the snapshots since the lookback are selected by time, as every look-up ensures.
pub proof fn closest_is_the_baseline(
    t: TablesView,
    user_id: i64,
    mode: GameMode,
    target_hours_ago: i64,
    max_lookback: i64,
    now: UtcTime,
    found: Option<(UtcTime, UserStatsSnapshot)>,
)
    requires
        t.closest_to(user_id, mode, target_hours_ago, max_lookback, now, found),
        t.selected_by_time(user_id, mode, now.hours_back(max_lookback)),
    ensures
        t.closest_agrees(user_id, mode, target_hours_ago, max_lookback, now, found),
{
    let earliest = now.hours_back(max_lookback);
    let target = now.hours_back(target_hours_ago);
    let s = t.snapshots_since(user_id, mode, earliest);
    let p = not_before(earliest);
    filter_holds(s, p);
    if found is Some {
        let i = choose|i: int| #[trigger] closest_at(s.filter(p), i, target) && found->0
            == s.filter(p)[i];
        assert(p(s.filter(p)[i]));
    }
    if t.recorded_plainly(user_id, mode) && before_year_10000(earliest.secs) {
        assert forall|i: int| 0 <= i < s.len() implies p(#[trigger] s[i]) by {}
        filter_all(s, p);
        assert forall|user_ids: Seq<i64>, batch: Map<i64, UserStatsSnapshot>|
            user_ids.contains(user_id) && #[trigger] t.baselines(
                user_ids,
                mode,
                target_hours_ago,
                max_lookback,
                now,
                batch,
            ) implies stats_of(found) == if batch.contains_key(user_id) {
            Some(batch[user_id])
        } else {
            None
        } by {
            assert(batch.contains_key(user_id) <==> s.len() > 0);
            if found is Some {
                let i = choose|i: int| #[trigger] closest_at(s, i, target) && found->0 == s[i];
                let j = choose|j: int| #[trigger]
                    closest_at(s, j, target) && batch[user_id] == s[j].1;
                closest_is_unique(s, i, j, target);
            }
        }
        assert forall|alone: Option<UserStatsSnapshot>|
            target_hours_ago == 24 && max_lookback == 36 && #[trigger] t.baseline(
                user_id,
                mode,
                now,
                alone,
            ) implies stats_of(found) == alone by {
            if found is Some {
                let i = choose|i: int| #[trigger] closest_at(s, i, target) && found->0 == s[i];
                let j = choose|j: int| #[trigger] closest_at(s, j, target) && alone->0 == s[j].1;
                closest_is_unique(s, i, j, target);
            }
        }
        if found is None {
            assert forall|h: HistoryView| #[trigger]
                t.history.contains(h) && of_player(user_id, mode)(h) implies (instant_of(
                h.recorded_at,
            )->0).before(earliest) by {
                let when = instant_of(h.recorded_at)->0;
                assert(written_at(h.recorded_at, when));
                if !when.before(earliest) {
                    assert(s.contains((when, h.stats)));
                }
            }
        } else {
            let f = dated(user_id, mode, earliest.text());
            assert(s.contains(s[0]));
            t.history.lemma_filter_map_contains(f, s[0]);
            let h = choose|h: HistoryView| #[trigger] t.history.contains(h) && f(h) == Some(s[0]);
            assert(of_player(user_id, mode)(h));
            assert(p(s[0]));
        }
    }
}

/// The baselines depend on which players are asked for, not on how often or in what order.
pub proof fn batch_ignores_repetition(
    t: TablesView,
    a: Seq<i64>,
    b: Seq<i64>,
    mode: GameMode,
    target_hours_ago: i64,
    max_lookback: i64,
    now: UtcTime,
    of_a: Map<i64, UserStatsSnapshot>,
    of_b: Map<i64, UserStatsSnapshot>,
)
    requires
        forall|u: i64| a.contains(u) <==> b.contains(u),
        t.baselines(a, mode, target_hours_ago, max_lookback, now, of_a),
        t.baselines(b, mode, target_hours_ago, max_lookback, now, of_b),
    ensures
        of_a == of_b,
{
    let target = now.hours_back(target_hours_ago);
    assert forall|u: i64| of_a.contains_key(u) <==> of_b.contains_key(u) by {
        assert(a.contains(u) <==> b.contains(u));
    }
    assert forall|u: i64| #[trigger] of_a.contains_key(u) implies of_a[u] == of_b[u] by {
        let s = t.snapshots_since(u, mode, now.hours_back(max_lookback));
        assert(of_b.contains_key(u));
        let i = choose|i: int| #[trigger] closest_at(s, i, target) && of_a[u] == s[i].1;
        let j = choose|j: int| #[trigger] closest_at(s, j, target) && of_b[u] == s[j].1;
        closest_is_unique(s, i, j, target);
    }
    assert(of_a =~= of_b);
}

/// Without a player to ask for there is no baseline.
pub proof fn empty_batch_is_empty(
    t: TablesView,
    mode: GameMode,
    target_hours_ago: i64,
    max_lookback: i64,
    now: UtcTime,
    res: Map<i64, UserStatsSnapshot>,
)
    requires
        t.baselines(Seq::empty(), mode, target_hours_ago, max_lookback, now, res),
    ensures
        res == Map::<i64, UserStatsSnapshot>::empty(),
{
    assert forall|u: i64| !res.contains_key(u) by {
        assert(!Seq::<i64>::empty().contains(u));
    }
    assert(res =~= Map::<i64, UserStatsSnapshot>::empty());
}

/// A better rank is a positive change, more plays are a positive change, and a count that is not
/// known now or was not known then has no change.
pub proof fn change_has_the_sign_of_progress(current: UserStats, past: UserStatsSnapshot)
    requires
        crate::snapshots::changes_fit(current, past),
    ensures
        ({
            let change = change_of(current, past);
            &&& both_known(current.rank, past.rank) ==> (change.rank_change matches Some(d) && (d
                > 0 <==> current.rank < past.rank->0))
            &&& both_known(current.playcount, past.playcount) ==> (change.playcount_change matches
                Some(d) && (d > 0 <==> current.playcount > past.playcount->0))
            &&& !both_known(current.rank, past.rank) ==> change.rank_change is None
            &&& !both_known(current.country_rank, past.country_rank)
                ==> change.country_rank_change is None
            &&& !both_known(current.playcount, past.playcount) ==> change.playcount_change is None
            &&& !both_known(current.hits, past.hits) ==> change.hits_change is None
            &&& !both_known(current.playtime, past.playtime) ==> change.playtime_change is None
        }),
{
}

} // verus!
