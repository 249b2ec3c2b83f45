//! Rows, how they are seen, which of them make a storage, and which have changed.
use crate::calls::plain::{comes_before, texts_are_compared_by_first_difference};
use crate::journal::{changes, Changes, TableChanges};
use crate::listeners::MatchListener;
use crate::rows::{
    BindingRow, HistoryRow, HistoryView, LastUpdateRow, ListenerRow, NextUpdateRow, PendingBindRow,
    PendingUnbindRow, PlayRow, Tables, TablesView, UserIdRow,
};
use crate::storage::Storage;
use crate::table::views;
use crate::types::StorageError;
use vstd::prelude::*;

verus! {

/// A row is seen by its columns, each under its own name, and a table by its rows, in order.
pub proof fn rows_are_seen_as_they_are(
    b: BindingRow,
    u: UserIdRow,
    h: HistoryRow,
    p: PlayRow,
    n: NextUpdateRow,
    a: LastUpdateRow,
    r: PendingUnbindRow,
    q: PendingBindRow,
    t: Tables,
)
    ensures
        b@.qq == b.qq && b@.user_id == b.user_id && b@.current_username == b.current_username@
            && b@.default_mode == b.default_mode,
        u@.username == u.username@ && u@.user_id == u.user_id,
        h@.user_id == h.user_id && h@.mode == h.mode && h@.recorded_at == h.recorded_at@ && h@.stats
            == h.stats,
        p@ == p && n@ == n,
        a@.user_id == a.user_id && a@.mode == a.mode && a@.last_update == a.last_update@,
        r@.qq == r.qq && r@.created_at == r.created_at@,
        q@.code == q.code@ && q@.qq_user_id == q.qq_user_id && q@.group_id == q.group_id,
        q@.target_username == q.target_username@ && q@.created_at == q.created_at@ && q@.expires_at
            == q.expires_at,
        t@.bindings == views(t.bindings@) && t@.user_ids == views(t.user_ids@) && t@.history
            == views(t.history@) && t@.plays == t.plays@.to_set(),
        t@.next_updates == views(t.next_updates@) && t@.last_updates == views(t.last_updates@),
        t@.pending_unbinds == views(t.pending_unbinds@) && t@.pending_binds == views(
            t.pending_binds@,
        ) && t@.listeners == views(t.listeners@),
{
}

/// The same of a listener's row, and of what is shown of it.
pub proof fn listeners_are_seen_as_they_are(l: ListenerRow, m: MatchListener)
    ensures
        l@.match_id == l.match_id && l@.group_id == l.group_id && l@.creator_qq == l.creator_qq
            && l@.match_name == l.match_name@,
        l@.last_event_id == l.last_event_id && l@.last_notified_event_id
            == l.last_notified_event_id && l@.pending_game_event_id == l.pending_game_event_id,
        l@.created_at == l.created_at@ && l@.expires_at == l.expires_at && l@.active == l.active,
        l@.user_id == l.user_id && l@.notification_type == l.notification_type@,
        l.last_notified_at matches Some(x) ==> l@.last_notified_at == Some(x@),
        l.last_notified_at is None ==> l@.last_notified_at is None,
        m@.match_id == m.match_id && m@.group_id == m.group_id && m@.user_id == m.user_id,
        m@.notification_type == m.notification_type@ && m@.creator_qq == m.creator_qq
            && m@.match_name == m.match_name@,
        m@.last_event_id == m.last_event_id && m@.last_notified_event_id
            == m.last_notified_event_id && m@.pending_game_event_id == m.pending_game_event_id,
        m@.created_at == m.created_at && m@.expires_at == m.expires_at && m@.active == m.active
            && m@.last_notified_at == m.last_notified_at,
{
}

/// A snapshot's row comes before another: by player, then by mode, then by the text of its instant.
pub open spec fn row_before(a: HistoryView, b: HistoryView) -> bool {
    a.user_id < b.user_id || (a.user_id == b.user_id && a.mode < b.mode) || (a.user_id == b.user_id
        && a.mode == b.mode && comes_before(a.recorded_at, b.recorded_at))
}

/// A play comes before another: by player, then by mode, then by timestamp.
pub open spec fn play_earlier(a: PlayRow, b: PlayRow) -> bool {
    a.user_id < b.user_id || (a.user_id == b.user_id && a.mode < b.mode) || (a.user_id == b.user_id
        && a.mode == b.mode && a.played_at < b.played_at)
}

/// No key occurs twice, and bindings, snapshots and plays are in order.
pub open spec fn keys_are_kept(t: TablesView, plays: Seq<PlayRow>) -> bool {
    &&& forall|i: int, j: int|
        #![trigger t.bindings[i], t.bindings[j]]
        0 <= i < j < t.bindings.len() ==> t.bindings[i].qq < t.bindings[j].qq
    &&& forall|i: int, j: int|
        #![trigger t.user_ids[i], t.user_ids[j]]
        0 <= i < j < t.user_ids.len() ==> t.user_ids[i].username != t.user_ids[j].username
    &&& forall|i: int, j: int|
        #![trigger t.history[i], t.history[j]]
        0 <= i < j < t.history.len() ==> row_before(t.history[i], t.history[j])
    &&& forall|i: int, j: int|
        #![trigger plays[i], plays[j]]
        0 <= i < j < plays.len() ==> play_earlier(plays[i], plays[j])
    &&& forall|i: int, j: int|
        #![trigger t.next_updates[i], t.next_updates[j]]
        0 <= i < j < t.next_updates.len() ==> t.next_updates[i].user_id
            != t.next_updates[j].user_id || t.next_updates[i].mode != t.next_updates[j].mode
    &&& forall|i: int, j: int|
        #![trigger t.last_updates[i], t.last_updates[j]]
        0 <= i < j < t.last_updates.len() ==> t.last_updates[i].user_id
            != t.last_updates[j].user_id || t.last_updates[i].mode != t.last_updates[j].mode
    &&& forall|i: int, j: int|
        #![trigger t.pending_unbinds[i], t.pending_unbinds[j]]
        0 <= i < j < t.pending_unbinds.len() ==> t.pending_unbinds[i].qq != t.pending_unbinds[j].qq
    &&& forall|i: int, j: int|
        #![trigger t.pending_binds[i], t.pending_binds[j]]
        0 <= i < j < t.pending_binds.len() ==> t.pending_binds[i].code != t.pending_binds[j].code
    &&& forall|i: int, j: int|
        #![trigger t.listeners[i], t.listeners[j]]
        0 <= i < j < t.listeners.len() ==> t.listeners[i].match_id != t.listeners[j].match_id
            || t.listeners[i].group_id != t.listeners[j].group_id
}

proof fn kept(t: Tables)
    ensures
        t@.wf() && crate::rows::plays_ok(t.plays@) <==> keys_are_kept(t@, t.plays@),
{
    assert forall|a: HistoryView, b: HistoryView| #[trigger]
        crate::rows::history_lt(a, b) == row_before(a, b) by {
        texts_are_compared_by_first_difference(a.recorded_at, b.recorded_at);
    }
    vstd::seq_lib::seq_to_set_is_finite(t.plays@);
    if t@.wf() && crate::rows::plays_ok(t.plays@) {
        let v = t@;
        assert forall|i: int, j: int|
            #![trigger v.history[i], v.history[j]]
            0 <= i < j < v.history.len() implies row_before(v.history[i], v.history[j]) by {
            assert(crate::rows::history_before()(v.history[i], v.history[j]));
        }
        assert forall|i: int, j: int|
            #![trigger v.bindings[i], v.bindings[j]]
            0 <= i < j < v.bindings.len() implies v.bindings[i].qq < v.bindings[j].qq by {
            assert(crate::rows::qq_before()(v.bindings[i], v.bindings[j]));
        }
        assert forall|i: int, j: int|
            #![trigger v.user_ids[i], v.user_ids[j]]
            0 <= i < j < v.user_ids.len() implies v.user_ids[i].username
            != v.user_ids[j].username by {
            assert(crate::rows::other_username()(v.user_ids[i], v.user_ids[j]));
        }
        assert forall|i: int, j: int|
            #![trigger t.plays@[i], t.plays@[j]]
            0 <= i < j < t.plays@.len() implies play_earlier(t.plays@[i], t.plays@[j]) by {
            assert(crate::rows::play_before()(t.plays@[i], t.plays@[j]));
        }
    }
}

/// Rows make a storage exactly where they keep their keys and orders, whatever else they hold, and
/// the storage has them as they are; so it has when they are looked at or handed back.
pub proof fn rows_make_a_storage(
    tables: Tables,
    res: Result<Storage, StorageError>,
    s: &Storage,
    owned: Storage,
    seen: &Tables,
    back: Tables,
)
    requires
        call_ensures(Storage::from_tables, (tables,), res),
        call_ensures(Storage::tables, (s,), seen),
        call_ensures(Storage::into_tables, (owned,), back),
    ensures
        res is Ok <==> keys_are_kept(tables@, tables.plays@),
        res matches Ok(storage) ==> storage.wf() && storage@ == tables@,
        res matches Err(e) ==> e == StorageError::BrokenConstraint,
        seen@ == s@,
        back@ == owned@,
{
    kept(tables);
}

/// A well-formed storage keeps its keys and orders.
pub proof fn storages_keep_their_keys(s: &Storage, seen: &Tables)
    requires
        s.wf(),
        call_ensures(Storage::tables, (s,), seen),
    ensures
        keys_are_kept(s@, seen.plays@),
{
    kept(*seen);
}

/// A new storage has no row.
pub proof fn new_storage_is_empty(res: Storage)
    requires
        call_ensures(Storage::new, (), res),
    ensures
        res.wf(),
        res@.bindings.len() == 0 && res@.user_ids.len() == 0 && res@.history.len() == 0,
        forall|p: PlayRow| !res@.plays.contains(p),
        res@.next_updates.len() == 0 && res@.last_updates.len() == 0,
        res@.pending_unbinds.len() == 0 && res@.pending_binds.len() == 0 && res@.listeners.len()
            == 0,
{
}

/// The places are, in order and each once, those of the rows of one table that the other does not
/// have.
pub open spec fn places_of_missing<V>(places: Seq<usize>, from: Seq<V>, to: Seq<V>) -> bool {
    &&& forall|k: int, l: int|
        #![trigger places[k], places[l]]
        0 <= k < l < places.len() ==> places[k] < places[l]
    &&& forall|k: int| 0 <= k < places.len() ==> (#[trigger] places[k]) < from.len()
    &&& forall|i: int|
        0 <= i < from.len() ==> (is_among(places, i) <==> is_not_in(#[trigger] from[i], to))
}

/// One of the places is this one.
pub open spec fn is_among(places: Seq<usize>, i: int) -> bool {
    exists|k: int| 0 <= k < places.len() && (#[trigger] places[k]) == i
}

/// No row of the table is this one.
pub open spec fn is_not_in<V>(v: V, rows: Seq<V>) -> bool {
    forall|j: int| 0 <= j < rows.len() ==> (#[trigger] rows[j]) != v
}

/// What is to be deleted is what is gone, and what is to be inserted is what is new.
pub open spec fn tells_changes<V>(c: TableChanges, before: Seq<V>, after: Seq<V>) -> bool {
    places_of_missing(c.deleted@, before, after) && places_of_missing(c.inserted@, after, before)
}

proof fn missing<V>(places: Seq<usize>, from: Seq<V>, to: Seq<V>)
    requires
        crate::journal::missing_from(places, from, to),
    ensures
        places_of_missing(places, from, to),
{
    assert forall|i: int| 0 <= i < from.len() implies (is_among(places, i) <==> is_not_in(
        #[trigger] from[i],
        to,
    )) by {
        if is_among(places, i) {
            let k = choose|k: int| 0 <= k < places.len() && (#[trigger] places[k]) == i;
            assert(!to.contains(from[places[k] as int]));
        }
        if is_not_in(from[i], to) {
            assert(!to.contains(from[i]));
            assert(crate::journal::has_place(places, i));
        }
    }
}

/// The changes of each table are the rows that are gone and those that are new.
pub proof fn changes_are_told(before: &Tables, after: &Tables, c: Changes)
    requires
        call_ensures(changes, (before, after), c),
    ensures
        tells_changes(c.bindings, before@.bindings, after@.bindings),
        tells_changes(c.user_ids, before@.user_ids, after@.user_ids),
        tells_changes(c.history, before@.history, after@.history),
        tells_changes(c.plays, before.plays@, after.plays@),
        tells_changes(c.next_updates, before@.next_updates, after@.next_updates),
        tells_changes(c.last_updates, before@.last_updates, after@.last_updates),
        tells_changes(c.pending_unbinds, before@.pending_unbinds, after@.pending_unbinds),
        tells_changes(c.pending_binds, before@.pending_binds, after@.pending_binds),
        tells_changes(c.listeners, before@.listeners, after@.listeners),
{
    missing(c.bindings.deleted@, before@.bindings, after@.bindings);
    missing(c.bindings.inserted@, after@.bindings, before@.bindings);
    missing(c.user_ids.deleted@, before@.user_ids, after@.user_ids);
    missing(c.user_ids.inserted@, after@.user_ids, before@.user_ids);
    missing(c.history.deleted@, before@.history, after@.history);
    missing(c.history.inserted@, after@.history, before@.history);
    missing(c.plays.deleted@, before.plays@, after.plays@);
    missing(c.plays.inserted@, after.plays@, before.plays@);
    missing(c.next_updates.deleted@, before@.next_updates, after@.next_updates);
    missing(c.next_updates.inserted@, after@.next_updates, before@.next_updates);
    missing(c.last_updates.deleted@, before@.last_updates, after@.last_updates);
    missing(c.last_updates.inserted@, after@.last_updates, before@.last_updates);
    missing(c.pending_unbinds.deleted@, before@.pending_unbinds, after@.pending_unbinds);
    missing(c.pending_unbinds.inserted@, after@.pending_unbinds, before@.pending_unbinds);
    missing(c.pending_binds.deleted@, before@.pending_binds, after@.pending_binds);
    missing(c.pending_binds.inserted@, after@.pending_binds, before@.pending_binds);
    missing(c.listeners.deleted@, before@.listeners, after@.listeners);
    missing(c.listeners.inserted@, after@.listeners, before@.listeners);
}

} // verus!
