//! Plays, last and next updates, who is due, and pruning.
use crate::calls::plain::{
    comes_before, first_place, instants_are_texts, mode_number, read_instant,
    texts_are_compared_by_first_difference, written,
};
use crate::rows::{
    other_last, other_next, BindingView, HistoryView, LastUpdateView, NextUpdateRow, PlayRow,
    TablesView,
};
use crate::storage::Storage;
use crate::table::{filter_contains, not};
use crate::time::{UtcTime, MAX_SECS, MIN_SECS};
use crate::types::{GameMode, StorageError};
use crate::updates::{due_at, last_of, next_of, played_since, taken_before};
use vstd::prelude::*;

verus! {

broadcast use crate::storage::wf_tables;

/// The plays are those that were there and those of the player in the mode at the timestamps;
/// nothing else is changed.
pub open spec fn plays_are_saved(
    before: TablesView,
    after: TablesView,
    user_id: i64,
    mode: GameMode,
    timestamps: Seq<i64>,
) -> bool {
    &&& after == (TablesView { plays: after.plays, ..before })
    &&& forall|p: PlayRow| #[trigger]
        after.plays.contains(p) <==> before.plays.contains(p) || (p.user_id == user_id && p.mode
            == mode_number(mode) && timestamps.contains(p.played_at))
}

/// Saving plays adds exactly the plays of the player in the mode at the timestamps, and counts
/// those that were not there.
pub proof fn saved_plays_are_there(
    s: &mut Storage,
    user_id: i64,
    mode: GameMode,
    timestamps: &[i64],
    res: i64,
)
    requires
        call_ensures(Storage::save_play_records, (s, user_id, mode, timestamps), res),
    ensures
        plays_are_saved(old(s)@, final(s)@, user_id, mode, timestamps@),
        i64::MIN <= final(s)@.plays.len() - old(s)@.plays.len() <= i64::MAX ==> res
            == final(s)@.plays.len() - old(s)@.plays.len(),
{
}

/// The player has a play in the mode at the timestamp or later.
pub open spec fn play_is_there(t: TablesView, user_id: i64, mode: GameMode, since: i64) -> bool {
    exists|p: PlayRow| #[trigger]
        t.plays.contains(p) && p.user_id == user_id && p.mode == mode_number(mode) && since
            <= p.played_at
}

pub(crate) proof fn play_there(t: TablesView, user_id: i64, mode: GameMode, since: i64)
    ensures
        t.has_play(user_id, mode, since) == play_is_there(t, user_id, mode, since),
{
    if t.has_play(user_id, mode, since) {
        let p = choose|p: PlayRow| #[trigger]
            t.plays.contains(p) && played_since(user_id, mode, since)(p);
        assert(t.plays.contains(p) && since <= p.played_at);
    }
    if play_is_there(t, user_id, mode, since) {
        let p = choose|p: PlayRow| #[trigger]
            t.plays.contains(p) && p.user_id == user_id && p.mode == mode_number(mode) && since
                <= p.played_at;
        assert(t.plays.contains(p) && played_since(user_id, mode, since)(p));
    }
}

/// There is a play since a timestamp where one of the player in the mode is at it or later.
pub proof fn play_is_seen_from_its_timestamp_on(
    s: &Storage,
    user_id: i64,
    mode: GameMode,
    since: i64,
    res: bool,
)
    requires
        call_ensures(Storage::has_play_since, (s, user_id, mode, since), res),
    ensures
        res == play_is_there(s@, user_id, mode, since),
{
    play_there(s@, user_id, mode, since);
}

/// There is one row of the player and the mode, with the text of the instant; every other row
/// stays, and nothing else is changed.
pub open spec fn activity_is_noted(
    before: TablesView,
    after: TablesView,
    user_id: i64,
    mode: GameMode,
    time: UtcTime,
) -> bool {
    &&& after == (TablesView { last_updates: after.last_updates, ..before })
    &&& forall|l: LastUpdateView| #[trigger]
        after.last_updates.contains(l) <==> if l.user_id == user_id && l.mode == mode_number(mode) {
            l.last_update == written(time)
        } else {
            before.last_updates.contains(l)
        }
}

pub(crate) proof fn activity_noted(t: TablesView, user_id: i64, mode: GameMode, time: UtcTime)
    ensures
        activity_is_noted(t, t.with_last_update(user_id, mode, time), user_id, mode, time),
{
    let after = t.with_last_update(user_id, mode, time);
    let q = last_of(user_id, mode);
    let row = LastUpdateView { user_id, mode: mode.code(), last_update: time.text() };
    assert(after.last_updates == t.last_updates.filter(not(q)).push(row));
    assert forall|l: LastUpdateView| #[trigger]
        after.last_updates.contains(l) <==> if l.user_id == user_id && l.mode == mode_number(mode) {
            l.last_update == written(time)
        } else {
            t.last_updates.contains(l)
        } by {
        pushed_contains(t.last_updates.filter(not(q)), row, l);
        filter_contains(t.last_updates, not(q), l);
    }
}

/// Setting when a player was last active notes the instant of the player and the mode.
pub proof fn last_activity_is_noted(s: &mut Storage, user_id: i64, mode: GameMode, time: UtcTime)
    requires
        call_ensures(Storage::set_last_update, (s, user_id, mode, time), ()),
    ensures
        activity_is_noted(old(s)@, final(s)@, user_id, mode, time),
{
    activity_noted(old(s)@, user_id, mode, time);
}

/// A sequence with one more row has that row and those it had.
pub(crate) proof fn pushed_contains<V>(s: Seq<V>, row: V, v: V)
    ensures
        s.push(row).contains(v) <==> v == row || s.contains(v),
{
    let all = s.push(row);
    if all.contains(v) {
        let i = choose|i: int| 0 <= i < all.len() && all[i] == v;
        if i < s.len() {
            assert(s[i] == v);
        }
    }
    if v == row {
        assert(all[s.len() as int] == v);
    } else if s.contains(v) {
        let i = choose|i: int| 0 <= i < s.len() && s[i] == v;
        assert(all[i] == v);
    }
}

/// `res` is what the text of the row of the player and the mode says, and unknown where there is no
/// row or its text names no instant.
pub open spec fn activity_is_read(
    t: TablesView,
    user_id: i64,
    mode: GameMode,
    res: Option<UtcTime>,
) -> bool {
    &&& forall|i: int|
        0 <= i < t.last_updates.len() && (#[trigger] t.last_updates[i]).user_id == user_id
            && t.last_updates[i].mode == mode_number(mode) ==> res == read_instant(
            t.last_updates[i].last_update,
        )
    &&& res is Some ==> exists|i: int|
        0 <= i < t.last_updates.len() && (#[trigger] t.last_updates[i]).user_id == user_id
            && t.last_updates[i].mode == mode_number(mode)
}

/// When a player was last active is read from the row of the player and the mode.
pub proof fn last_activity_is_read(
    s: &Storage,
    user_id: i64,
    mode: GameMode,
    res: Option<UtcTime>,
)
    requires
        s.wf(),
        call_ensures(Storage::get_last_update, (s, user_id, mode), res),
    ensures
        activity_is_read(s@, user_id, mode, res),
{
    last_activity_of(s@, user_id, mode);
}

pub(crate) proof fn last_activity_of(t: TablesView, user_id: i64, mode: GameMode)
    requires
        t.wf(),
    ensures
        activity_is_read(t, user_id, mode, t.last_update(user_id, mode)),
{
    let rows = t.last_updates;
    let k = first_place(rows, last_of(user_id, mode));
    assert forall|i: int|
        0 <= i < rows.len() && (#[trigger] rows[i]).user_id == user_id && rows[i].mode
            == mode_number(mode) implies t.last_update(user_id, mode) == read_instant(
        rows[i].last_update,
    ) by {
        assert(last_of(user_id, mode)(rows[i]));
        if k < i {
            assert(other_last()(rows[k], rows[i]));
        }
        instants_are_texts(UtcTime { secs: 0, nanos: 0 }, rows[i].last_update, UtcTime {
            secs: 0,
            nanos: 0,
        });
    }
    if t.last_update(user_id, mode) is Some {
        assert(rows[k].user_id == user_id);
    }
}

/// An activity that was set is the one that is read, in a year of four digits.
pub proof fn set_activity_is_read(
    s: &mut Storage,
    user_id: i64,
    mode: GameMode,
    time: UtcTime,
    after: &Storage,
    read: Option<UtcTime>,
)
    requires
        time.valid(),
        -62_167_219_200 <= time.secs <= 253_402_300_799,
        call_ensures(Storage::set_last_update, (s, user_id, mode, time), ()),
        after@ == final(s)@,
        call_ensures(Storage::get_last_update, (after, user_id, mode), read),
    ensures
        read == Some(time),
{
}

/// Setting when a player is due notes the second of the instant for the player and the mode.
pub proof fn next_look_is_noted(s: &mut Storage, user_id: i64, mode: GameMode, time: UtcTime)
    requires
        call_ensures(Storage::set_next_update, (s, user_id, mode, time), ()),
    ensures
        next_is_set(old(s)@, final(s)@, user_id, mode, time.secs),
{
    next_set(old(s)@, user_id, mode, time);
}

/// There is one row of the player and the mode, with the timestamp, as the last; every other row
/// stays in its order, and nothing else is changed.
pub open spec fn next_is_set(
    before: TablesView,
    after: TablesView,
    user_id: i64,
    mode: GameMode,
    ts: i64,
) -> bool {
    &&& after == (TablesView { next_updates: after.next_updates, ..before })
    &&& forall|n: NextUpdateRow| #[trigger]
        after.next_updates.contains(n) <==> if n.user_id == user_id && n.mode == mode_number(mode) {
            n.next_update == ts
        } else {
            before.next_updates.contains(n)
        }
    &&& after.next_updates.drop_last() == before.next_updates.filter(
        |n: NextUpdateRow| n.user_id != user_id || n.mode != mode_number(mode),
    )
}

pub(crate) proof fn next_set(t: TablesView, user_id: i64, mode: GameMode, time: UtcTime)
    ensures
        next_is_set(t, t.with_next_update(user_id, mode, time), user_id, mode, time.secs),
{
    let after = t.with_next_update(user_id, mode, time);
    let q = next_of(user_id, mode);
    let row = NextUpdateRow { user_id, mode: mode.code(), next_update: time.secs };
    assert(after.next_updates == t.next_updates.filter(not(q)).push(row));
    assert(not(q) =~= (|n: NextUpdateRow| n.user_id != user_id || n.mode != mode_number(mode)));
    assert(after.next_updates.drop_last() =~= t.next_updates.filter(not(q)));
    assert forall|n: NextUpdateRow| #[trigger]
        after.next_updates.contains(n) <==> if n.user_id == user_id && n.mode == mode_number(mode) {
            n.next_update == time.secs
        } else {
            t.next_updates.contains(n)
        } by {
        pushed_contains(t.next_updates.filter(not(q)), row, n);
        filter_contains(t.next_updates, not(q), n);
    }
}

/// When a player is due is the second of its row and mode, or `now` where the calendar does not
/// have that second; it is unknown exactly where there is no row.
pub open spec fn next_is_read(
    t: TablesView,
    user_id: i64,
    mode: GameMode,
    now: UtcTime,
    res: Option<UtcTime>,
) -> bool {
    &&& forall|i: int|
        0 <= i < t.next_updates.len() && (#[trigger] t.next_updates[i]).user_id == user_id
            && t.next_updates[i].mode == mode_number(mode) ==> {
            let ts = t.next_updates[i].next_update;
            &&& MIN_SECS <= ts <= MAX_SECS ==> res == Some(UtcTime { secs: ts, nanos: 0 })
            &&& !(MIN_SECS <= ts <= MAX_SECS) ==> res == Some(now)
        }
    &&& res is Some ==> exists|i: int|
        0 <= i < t.next_updates.len() && (#[trigger] t.next_updates[i]).user_id == user_id
            && t.next_updates[i].mode == mode_number(mode)
}

/// When a player is due is read from its row, at an instant that is given or that the clock shows.
pub proof fn next_look_is_read(
    s: &Storage,
    user_id: i64,
    mode: GameMode,
    now: UtcTime,
    res: Option<UtcTime>,
    by_clock: Option<UtcTime>,
)
    requires
        s.wf(),
        call_ensures(Storage::get_next_update_at, (s, user_id, mode, now), res),
        call_ensures(Storage::get_next_update, (s, user_id, mode), by_clock),
    ensures
        next_is_read(s@, user_id, mode, now, res),
        exists|read: UtcTime| #[trigger]
            read.shown_by_clock() && next_is_read(s@, user_id, mode, read, by_clock),
{
    next_of_player(s@, user_id, mode, now);
    let read = choose|read: UtcTime|
        read.shown_by_clock() && by_clock == #[trigger] s@.next_update(user_id, mode, read);
    next_of_player(s@, user_id, mode, read);
    assert(read.shown_by_clock() && next_is_read(s@, user_id, mode, read, by_clock));
}

proof fn next_of_player(t: TablesView, user_id: i64, mode: GameMode, now: UtcTime)
    requires
        t.wf(),
    ensures
        next_is_read(t, user_id, mode, now, t.next_update(user_id, mode, now)),
{
    let rows = t.next_updates;
    let k = first_place(rows, next_of(user_id, mode));
    assert forall|i: int|
        0 <= i < rows.len() && (#[trigger] rows[i]).user_id == user_id && rows[i].mode
            == mode_number(mode) implies i == k && t.next_update(user_id, mode, now) is Some by {
        assert(next_of(user_id, mode)(rows[i]));
        if k < i {
            assert(other_next()(rows[k], rows[i]));
        }
    }
    if t.next_update(user_id, mode, now) is Some {
        assert(rows[k].user_id == user_id);
    }
}

/// Every next update has the timestamp, of the player and mode it was of; nothing else is changed.
pub open spec fn all_are_due(before: TablesView, after: TablesView, ts: i64) -> bool {
    &&& after == (TablesView { next_updates: after.next_updates, ..before })
    &&& after.next_updates.len() == before.next_updates.len()
    &&& forall|i: int|
        0 <= i < after.next_updates.len() ==> {
            let (a, b) = (before.next_updates[i], #[trigger] after.next_updates[i]);
            b.user_id == a.user_id && b.mode == a.mode && b.next_update == ts
        }
}

/// A reset makes every next update due at the timestamp that is given, or that the clock shows, and
/// counts them.
pub proof fn reset_moves_every_next_update(s: &mut Storage, now: i64, res: u64)
    requires
        call_ensures(Storage::reset_all_next_updates_at, (s, now), res),
    ensures
        all_are_due(old(s)@, final(s)@, now),
        res == old(s)@.next_updates.len(),
{
}

/// The same by the clock.
pub proof fn reset_moves_every_next_update_to_now(s: &mut Storage, res: u64)
    requires
        call_ensures(Storage::reset_all_next_updates, (s,), res),
    ensures
        exists|now: UtcTime| #[trigger]
            now.shown_by_clock() && all_are_due(old(s)@, final(s)@, now.secs),
        res == old(s)@.next_updates.len(),
{
    let now = choose|now: UtcTime|
        now.shown_by_clock() && final(s)@ == #[trigger] old(s)@.all_due(now.secs);
    assert(now.shown_by_clock() && all_are_due(old(s)@, final(s)@, now.secs));
}

/// The mode whose number it is; the first mode where it is no mode's.
pub open spec fn mode_or_first(number: i32, mode: GameMode) -> bool {
    if 0 <= number <= 3 {
        mode_number(mode) == number
    } else {
        mode_number(mode) == 0
    }
}

/// `due` are the players and modes whose next update is at the timestamp or earlier, in the order
/// of the next updates, and then, in the first mode, the player of every binding that has no next
/// update in any mode, in the order of the bindings.
pub open spec fn due_rightly(t: TablesView, ts: i64, due: Seq<(i64, GameMode)>) -> bool {
    let come = t.next_updates.filter(|n: NextUpdateRow| n.next_update <= ts);
    let new = t.bindings.filter(
        |b: BindingView|
            forall|i: int|
                0 <= i < t.next_updates.len() ==> (#[trigger] t.next_updates[i]).user_id
                    != b.user_id,
    );
    &&& due.len() == come.len() + new.len()
    &&& forall|i: int|
        0 <= i < come.len() ==> (#[trigger] due[i]).0 == come[i].user_id && mode_or_first(
            come[i].mode,
            due[i].1,
        )
    &&& forall|i: int|
        come.len() <= i < due.len() ==> (#[trigger] due[i]).0 == new[i - come.len()].user_id
            && mode_number(due[i].1) == 0
}

/// Those are due whose time has come, at a timestamp that is given or that the clock shows.
pub proof fn those_are_due_whose_time_has_come(
    s: &Storage,
    now: i64,
    res: Vec<(i64, GameMode)>,
    by_clock: Vec<(i64, GameMode)>,
)
    requires
        call_ensures(Storage::get_due_users_at, (s, now), res),
        call_ensures(Storage::get_due_users, (s,), by_clock),
    ensures
        due_rightly(s@, now, res@),
        exists|read: UtcTime| #[trigger]
            read.shown_by_clock() && due_rightly(s@, read.secs, by_clock@),
{
    due_of(s@, now);
    let read = choose|read: UtcTime|
        read.shown_by_clock() && by_clock@ == #[trigger] s@.due(read.secs);
    due_of(s@, read.secs);
    assert(read.shown_by_clock() && due_rightly(s@, read.secs, by_clock@));
}

proof fn due_of(t: TablesView, ts: i64)
    ensures
        due_rightly(t, ts, t.due(ts)),
{
    assert(due_at(ts) =~= (|n: NextUpdateRow| n.next_update <= ts));
    let p = |b: BindingView|
        forall|i: int|
            0 <= i < t.next_updates.len() ==> (#[trigger] t.next_updates[i]).user_id != b.user_id;
    assert forall|b: BindingView| #[trigger] p(b) == t.never_updated()(b) by {
        let q = crate::bindings::next_of_user(b.user_id);
        let k = first_place(t.next_updates, q);
        if t.never_updated()(b) {
            assert forall|i: int| 0 <= i < t.next_updates.len() implies (
            #[trigger] t.next_updates[i]).user_id != b.user_id by {
                assert(!q(t.next_updates[i]));
            }
        } else {
            assert(t.next_updates[k].user_id == b.user_id);
        }
    }
    assert(p =~= t.never_updated());
}

/// What is pruned: the plays before `second`, the snapshots whose text comes before `text`, where
/// there is such a limit, and the next updates of players whom no account has. All else stays.
pub open spec fn pruned_rightly(
    before: TablesView,
    after: TablesView,
    limit: Option<UtcTime>,
) -> bool {
    &&& after == (TablesView {
        history: after.history,
        plays: after.plays,
        next_updates: after.next_updates,
        ..before
    })
    &&& forall|h: HistoryView| #[trigger]
        after.history.contains(h) <==> before.history.contains(h) && !(limit matches Some(l)
            && comes_before(h.recorded_at, written(l)))
    &&& forall|p: PlayRow| #[trigger]
        after.plays.contains(p) <==> before.plays.contains(p) && !(limit matches Some(l)
            && p.played_at < l.secs)
    &&& forall|n: NextUpdateRow| #[trigger]
        after.next_updates.contains(n) <==> before.next_updates.contains(n) && is_bound(
            before,
            n.user_id,
        )
    &&& after.next_updates == before.next_updates.filter(
        |n: NextUpdateRow| is_bound(before, n.user_id),
    )
}

/// Some account is bound to the player.
pub open spec fn is_bound(t: TablesView, user_id: i64) -> bool {
    exists|i: int| 0 <= i < t.bindings.len() && (#[trigger] t.bindings[i]).user_id == user_id
}

/// The instant `days` days before another, where the calendar has it.
pub open spec fn days_before(now: UtcTime, days: u64, limit: Option<UtcTime>) -> bool {
    let secs = now.secs - 86_400 * days;
    &&& MIN_SECS <= secs <= MAX_SECS ==> (limit matches Some(l) && l.secs == secs && l.nanos
        == now.nanos)
    &&& secs < MIN_SECS || secs > MAX_SECS ==> limit is None
}

/// The result counts what went.
pub open spec fn counted(
    before: TablesView,
    after: TablesView,
    res: Result<(u64, u64, u64), StorageError>,
) -> bool {
    res matches Ok((history, plays, next)) && {
        &&& history == before.history.len() - after.history.len()
        &&& plays == before.plays.len() - after.plays.len()
        &&& next == before.next_updates.len() - after.next_updates.len()
    }
}

/// Pruning takes away what is older than so many days before the instant that is given, and counts
/// it.
pub proof fn pruning_goes_by_days(
    s: &mut Storage,
    days: u64,
    now: UtcTime,
    res: Result<(u64, u64, u64), StorageError>,
)
    requires
        call_ensures(Storage::prune_old_records_at, (s, days, now), res),
    ensures
        exists|limit: Option<UtcTime>| #[trigger]
            days_before(now, days, limit) && pruned_rightly(old(s)@, final(s)@, limit),
        counted(old(s)@, final(s)@, res),
{
    pruned_by_days(old(s)@, days, now);
}

/// The same by the clock.
pub proof fn pruning_goes_by_days_before_now(
    s: &mut Storage,
    days: u64,
    res: Result<(u64, u64, u64), StorageError>,
)
    requires
        call_ensures(Storage::prune_old_records, (s, days), res),
    ensures
        exists|now: UtcTime, limit: Option<UtcTime>|
            #![trigger days_before(now, days, limit)]
            now.shown_by_clock() && days_before(now, days, limit) && pruned_rightly(
                old(s)@,
                final(s)@,
                limit,
            ),
        counted(old(s)@, final(s)@, res),
{
    let now = choose|now: UtcTime|
        now.shown_by_clock() && final(s)@ == #[trigger] old(s)@.pruned_back(days, now);
    pruned_by_days(old(s)@, days, now);
    let limit = choose|limit: Option<UtcTime>| #[trigger]
        days_before(now, days, limit) && pruned_rightly(old(s)@, final(s)@, limit);
    assert(days_before(now, days, limit));
}

proof fn pruned_by_days(t: TablesView, days: u64, now: UtcTime)
    ensures
        exists|limit: Option<UtcTime>| #[trigger]
            days_before(now, days, limit) && pruned_rightly(t, t.pruned_back(days, now), limit),
{
    let after = t.pruned_back(days, now);
    let back = -(days * 86_400);
    let limit = if now.can_shift(back) {
        Some(now.plus_seconds(back))
    } else {
        None
    };
    let bound = |n: NextUpdateRow| is_bound(t, n.user_id);
    assert forall|n: NextUpdateRow| #[trigger] bound(n) == not(t.orphaned())(n) by {
        let p = crate::bindings::of_user(n.user_id);
        let k = first_place(t.bindings, p);
        if t.holder(n.user_id) is Some {
            assert(t.bindings[k].user_id == n.user_id);
        } else {
            assert forall|i: int| 0 <= i < t.bindings.len() implies (#[trigger] t.bindings[i]).user_id
                != n.user_id by {
                assert(!p(t.bindings[i]));
            }
        }
    }
    assert(bound =~= not(t.orphaned()));
    assert forall|n: NextUpdateRow| #[trigger]
        after.next_updates.contains(n) <==> t.next_updates.contains(n) && is_bound(
            t,
            n.user_id,
        ) by {
        filter_contains(t.next_updates, bound, n);
    }
    assert forall|h: HistoryView| #[trigger]
        after.history.contains(h) <==> t.history.contains(h) && !(limit matches Some(l)
            && comes_before(h.recorded_at, written(l))) by {
        if limit is Some {
            let l = limit->0;
            filter_contains(t.history, not(taken_before(l.text())), h);
            instants_are_texts(l, h.recorded_at, l);
            texts_are_compared_by_first_difference(h.recorded_at, written(l));
        }
    }
    assert(days_before(now, days, limit));
    assert(pruned_rightly(t, after, limit));
}

} // verus!
