//! Laws of the plays and of the last and the next updates.
use crate::bindings::next_of_user;
use crate::rows::{LastUpdateView, NextUpdateRow, PlayRow, TablesView};
use crate::table::{
    filter_holds, first_where, first_where_facts, first_where_replaced, first_where_replaced_other,
    not,
};
use crate::time::UtcTime;
use crate::types::GameMode;
use crate::updates::{
    due_at, every_next, last_of, moved_to, new_player_of, next_of, played_since, player_of,
    plays_of,
};
use vstd::prelude::*;

verus! {

/// A play that was saved is found from its timestamp on, and saving plays takes none away.
pub proof fn saved_play_is_found(
    t: TablesView,
    user_id: i64,
    mode: GameMode,
    timestamps: Seq<i64>,
    i: int,
    since: i64,
)
    requires
        0 <= i < timestamps.len(),
        since <= timestamps[i],
    ensures
        t.with_plays(user_id, mode, timestamps).has_play(user_id, mode, since),
        t.plays.subset_of(t.with_plays(user_id, mode, timestamps).plays),
{
    let p = PlayRow { user_id, mode: mode.code(), played_at: timestamps[i] };
    assert(timestamps.contains(p.played_at));
    assert(t.with_plays(user_id, mode, timestamps).plays.contains(p));
    assert(played_since(user_id, mode, since)(p));
}

/// Saving plays has no part in what is found of another player or mode.
pub proof fn saved_plays_leave_others(
    t: TablesView,
    user_id: i64,
    mode: GameMode,
    timestamps: Seq<i64>,
    other_id: i64,
    other_mode: GameMode,
    since: i64,
)
    requires
        other_id != user_id || other_mode != mode,
    ensures
        t.with_plays(user_id, mode, timestamps).has_play(other_id, other_mode, since) == t.has_play(
            other_id,
            other_mode,
            since,
        ),
{
    let after = t.with_plays(user_id, mode, timestamps);
    let q = played_since(other_id, other_mode, since);
    assert(mode.code() != other_mode.code() || other_id != user_id);
    if after.has_play(other_id, other_mode, since) {
        let p = choose|p: PlayRow| #[trigger] after.plays.contains(p) && q(p);
        assert(t.plays.contains(p));
    }
    if t.has_play(other_id, other_mode, since) {
        let p = choose|p: PlayRow| #[trigger] t.plays.contains(p) && q(p);
        assert(after.plays.contains(p));
    }
}

/// Saving the same plays again adds none.
pub proof fn saving_plays_again_adds_none(
    t: TablesView,
    user_id: i64,
    mode: GameMode,
    timestamps: Seq<i64>,
)
    ensures
        t.with_plays(user_id, mode, timestamps).with_plays(user_id, mode, timestamps)
            == t.with_plays(user_id, mode, timestamps),
        t.with_plays(user_id, mode, Seq::empty()) == t,
{
    let once = t.with_plays(user_id, mode, timestamps);
    assert(once.with_plays(user_id, mode, timestamps).plays =~= once.plays);
    assert forall|p: PlayRow| !plays_of(user_id, mode, Seq::empty()).contains(p) by {
        assert(!Seq::<i64>::empty().contains(p.played_at));
    }
    assert(t.with_plays(user_id, mode, Seq::empty()).plays =~= t.plays);
}

/// A play that is found from a timestamp on is found from every earlier one on.
pub proof fn has_play_looks_forward(
    t: TablesView,
    user_id: i64,
    mode: GameMode,
    earlier: i64,
    later: i64,
)
    requires
        earlier <= later,
        t.has_play(user_id, mode, later),
    ensures
        t.has_play(user_id, mode, earlier),
{
    let p = choose|p: PlayRow| #[trigger]
        t.plays.contains(p) && played_since(user_id, mode, later)(p);
    assert(played_since(user_id, mode, earlier)(p));
}

/// The next update that was set is the one that is known, to the second; that of every other
/// player and mode is as it was.
pub proof fn next_update_is_found(
    t: TablesView,
    user_id: i64,
    mode: GameMode,
    time: UtcTime,
    now: UtcTime,
    other_id: i64,
    other_mode: GameMode,
)
    requires
        time.valid(),
        other_id != user_id || other_mode != mode,
    ensures
        t.with_next_update(user_id, mode, time).next_update(user_id, mode, now) == Some(
            UtcTime { secs: time.secs, nanos: 0 },
        ),
        t.with_next_update(user_id, mode, time).next_update(other_id, other_mode, now)
            == t.next_update(other_id, other_mode, now),
{
    let row = NextUpdateRow { user_id, mode: mode.code(), next_update: time.secs };
    assert(mode.code() != other_mode.code() || other_id != user_id);
    first_where_replaced(t.next_updates, next_of(user_id, mode), row);
    first_where_replaced_other(
        t.next_updates,
        next_of(user_id, mode),
        row,
        next_of(other_id, other_mode),
    );
}

/// Setting a last update leaves that of every other player and mode as it was.
pub proof fn last_update_leaves_others(
    t: TablesView,
    user_id: i64,
    mode: GameMode,
    time: UtcTime,
    other_id: i64,
    other_mode: GameMode,
)
    requires
        other_id != user_id || other_mode != mode,
    ensures
        t.with_last_update(user_id, mode, time).last_update(other_id, other_mode)
            == t.last_update(other_id, other_mode),
{
    let row = LastUpdateView { user_id, mode: mode.code(), last_update: time.text() };
    assert(mode.code() != other_mode.code() || other_id != user_id);
    first_where_replaced_other(
        t.last_updates,
        last_of(user_id, mode),
        row,
        last_of(other_id, other_mode),
    );
}

/// A next update is due when its time has come.
proof fn due_row(t: TablesView, i: int, now: i64)
    requires
        0 <= i < t.next_updates.len(),
        t.next_updates[i].next_update <= now,
    ensures
        t.due(now).contains(player_of()(t.next_updates[i])),
{
    broadcast use Seq::lemma_filter_contains;

    let n = t.next_updates[i];
    let due = t.next_updates.filter(due_at(now));
    assert(due_at(now)(n));
    assert(due.contains(n));
    let k = choose|k: int| 0 <= k < due.len() && due[k] == n;
    assert(due.map_values(player_of())[k] == player_of()(n));
    assert(t.due(now)[k] == player_of()(n));
}

/// A player whose next update is set to an instant is due from that second on.
pub proof fn scheduled_player_is_due(
    t: TablesView,
    user_id: i64,
    mode: GameMode,
    time: UtcTime,
    now: i64,
)
    requires
        time.secs <= now,
    ensures
        t.with_next_update(user_id, mode, time).due(now).contains((user_id, mode)),
{
    let after = t.with_next_update(user_id, mode, time);
    let last = after.next_updates.len() - 1;
    assert(after.next_updates[last] == (NextUpdateRow {
        user_id,
        mode: mode.code(),
        next_update: time.secs,
    }));
    due_row(after, last, now);
}

/// A player whose next update is set to a later second is not due in that mode before it, where
/// every mode in the table is one.
pub proof fn scheduled_player_is_not_due_early(
    t: TablesView,
    user_id: i64,
    mode: GameMode,
    time: UtcTime,
    now: i64,
)
    requires
        now < time.secs,
        forall|n: NextUpdateRow| #[trigger]
            t.next_updates.contains(n) ==> GameMode::of_code(n.mode) is Some,
    ensures
        !t.with_next_update(user_id, mode, time).due(now).contains((user_id, mode)),
{
    let after = t.with_next_update(user_id, mode, time);
    let row = NextUpdateRow { user_id, mode: mode.code(), next_update: time.secs };
    let kept = t.next_updates.filter(not(next_of(user_id, mode)));
    let due = after.next_updates.filter(due_at(now));
    let new = after.bindings.filter(after.never_updated());
    filter_holds(t.next_updates, not(next_of(user_id, mode)));
    filter_holds(after.next_updates, due_at(now));
    filter_holds(after.bindings, after.never_updated());
    if after.due(now).contains((user_id, mode)) {
        let k = choose|k: int| 0 <= k < after.due(now).len() && after.due(now)[k] == (user_id, mode);
        if k < due.len() {
            let n = due[k];
            assert(after.due(now)[k] == player_of()(n));
            assert(after.next_updates.contains(n) && due_at(now)(n));
            let i = choose|i: int| 0 <= i < after.next_updates.len() && after.next_updates[i] == n;
            if i < kept.len() {
                assert(kept[i] == n);
                assert(t.next_updates.contains(n));
                assert(not(next_of(user_id, mode))(n));
            } else {
                assert(n == row);
            }
            assert(false);
        } else {
            let b = new[k - due.len()];
            assert(after.due(now)[k] == new_player_of()(b));
            assert(after.never_updated()(b) && b.user_id == user_id);
            first_where_facts(after.next_updates, next_of_user(user_id));
            assert(after.next_updates.last() == row);
            assert(after.next_updates.contains(row) && next_of_user(user_id)(row));
            assert(false);
        }
    }
}

/// A bound player without any next update is due at once, in the mode of new players.
pub proof fn new_player_is_due(t: TablesView, qq: i64, now: i64)
    requires
        t.binding(qq) is Some,
        first_where(t.next_updates, next_of_user(t.binding(qq)->0.user_id)) is None,
    ensures
        t.due(now).contains((t.binding(qq)->0.user_id, GameMode::Osu)),
{
    broadcast use Seq::lemma_filter_contains;

    let b = t.binding(qq)->0;
    first_where_facts(t.bindings, crate::bindings::of_qq(qq));
    let i = choose|i: int| 0 <= i < t.bindings.len() && t.bindings[i] == b;
    let new = t.bindings.filter(t.never_updated());
    let old = t.next_updates.filter(due_at(now)).map_values(player_of());
    assert(t.never_updated()(t.bindings[i]));
    assert(new.contains(b));
    let k = choose|k: int| 0 <= k < new.len() && new[k] == b;
    assert(new.map_values(new_player_of())[k] == (b.user_id, GameMode::Osu));
    assert(t.due(now)[old.len() + k] == (b.user_id, GameMode::Osu));
}

/// After a reset every player that has a next update is due.
pub proof fn reset_makes_all_due(t: TablesView, i: int, now: i64, later: i64)
    requires
        0 <= i < t.next_updates.len(),
        now <= later,
    ensures
        t.all_due(now).due(later).contains(player_of()(t.next_updates[i])),
        t.all_due(now).next_updates.len() == t.next_updates.len(),
{
    assert(every_next()(t.next_updates[i]));
    assert(t.all_due(now).next_updates[i] == moved_to(now)(t.next_updates[i]));
    due_row(t.all_due(now), i, later);
}

/// After pruning every next update is one of a bound player, every play is from the cutoff on,
/// and what a bound player had is as it was; pruning again at the same cutoff removes nothing.
pub proof fn pruning_keeps_what_is_wanted(t: TablesView, cutoff: UtcTime)
    ensures
        ({
            let after = t.pruned(cutoff);
            &&& forall|n: NextUpdateRow| #[trigger]
                after.next_updates.contains(n) <==> t.next_updates.contains(n) && t.holder(
                    n.user_id,
                ) is Some
            &&& forall|p: PlayRow| #[trigger]
                after.plays.contains(p) <==> t.plays.contains(p) && p.played_at >= cutoff.secs
            &&& after.bindings == t.bindings
            &&& after.last_updates == t.last_updates
            &&& after.listeners == t.listeners
        }),
        t.pruned(cutoff).pruned(cutoff) == t.pruned(cutoff),
{
    let after = t.pruned(cutoff);
    let p = not(t.orphaned());
    assert forall|n: NextUpdateRow| #[trigger]
        after.next_updates.contains(n) <==> t.next_updates.contains(n) && t.holder(
            n.user_id,
        ) is Some by {
        broadcast use Seq::lemma_filter_contains, Seq::lemma_filter_contains_rev, Seq::lemma_filter_pred;

        if t.next_updates.contains(n) && t.holder(n.user_id) is Some {
            let i = choose|i: int| 0 <= i < t.next_updates.len() && t.next_updates[i] == n;
            assert(p(t.next_updates[i]));
        }
        if after.next_updates.contains(n) {
            filter_holds(t.next_updates, p);
            let i = choose|i: int| 0 <= i < after.next_updates.len() && after.next_updates[i] == n;
            assert(p(after.next_updates[i]));
        }
    }
    let again = after.pruned(cutoff);
    assert(after.orphaned() =~= t.orphaned());
    crate::table::filter_filter(t.next_updates, p, p);
    let q = not(crate::updates::taken_before(cutoff.text()));
    crate::table::filter_filter(t.history, q, q);
    assert(again.plays =~= after.plays);
    assert(again =~= after);
}

/// A retention that reaches back beyond the calendar keeps every snapshot and every play.
pub proof fn endless_retention_keeps_all(t: TablesView, days: u64, now: UtcTime)
    requires
        !now.can_shift(-(days * 86_400)),
    ensures
        t.pruned_back(days, now).history == t.history,
        t.pruned_back(days, now).plays == t.plays,
        t.pruned_back(days, now).bindings == t.bindings,
{
}

} // verus!
