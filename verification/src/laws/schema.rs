//! Laws of opening an older database.
use crate::bindings::of_qq;
use crate::listeners::listens;
use crate::rows::{
    history_before, other_code, other_last, other_listener, other_next, other_qq, other_username,
    qq_before, BindingView, ListenerView, TablesView,
};
use crate::schema::{
    full_binding, full_listener, lacking, missing, AddedColumn, OlderBindingView, OlderListenerView,
    OlderTablesView,
};
use crate::table::{first_where_at, pairwise};
use crate::types::GameMode;
use vstd::prelude::*;

verus! {

/// Completing loses no row and changes no value that is there.
pub proof fn completing_keeps_what_is_there(t: OlderTablesView)
    ensures
        t.full().bindings.len() == t.bindings.len(),
        t.full().listeners.len() == t.listeners.len(),
        forall|i: int|
            0 <= i < t.bindings.len() ==> binding_kept(
                t.bindings[i],
                #[trigger] t.full().bindings[i],
            ),
        forall|i: int|
            0 <= i < t.listeners.len() ==> listener_kept(
                t.listeners[i],
                #[trigger] t.full().listeners[i],
            ),
        t.full().user_ids == t.user_ids,
        t.full().history == t.history,
        t.full().plays == t.plays,
        t.full().next_updates == t.next_updates,
        t.full().last_updates == t.last_updates,
        t.full().pending_unbinds == t.pending_unbinds,
        t.full().pending_binds == t.pending_binds,
{
}

/// The rows obey the keys and the orders of their tables. Nothing else is asked of them: any texts
/// and numbers will do.
pub open spec fn older_keys_hold(t: OlderTablesView) -> bool {
    &&& pairwise(t.bindings, |a: OlderBindingView, b: OlderBindingView| a.qq < b.qq)
    &&& pairwise(t.user_ids, other_username())
    &&& pairwise(t.history, history_before())
    &&& t.plays.finite()
    &&& pairwise(t.next_updates, other_next())
    &&& pairwise(t.last_updates, other_last())
    &&& pairwise(t.pending_unbinds, other_qq())
    &&& pairwise(t.pending_binds, other_code())
    &&& pairwise(
        t.listeners,
        |a: OlderListenerView, b: OlderListenerView|
            a.match_id != b.match_id || a.group_id != b.group_id,
    )
}

/// An older database whose rows obey their keys opens: completed, they obey them too.
pub proof fn older_database_opens(t: OlderTablesView)
    requires
        older_keys_hold(t),
    ensures
        t.full().wf(),
{
    let (bindings, listeners) = (t.full().bindings, t.full().listeners);
    let p = |a: OlderBindingView, b: OlderBindingView| a.qq < b.qq;
    let q = |a: OlderListenerView, b: OlderListenerView|
        a.match_id != b.match_id || a.group_id != b.group_id;
    assert forall|i: int, j: int| 0 <= i < j < bindings.len() implies #[trigger] qq_before()(
        bindings[i],
        bindings[j],
    ) by {
        assert(p(t.bindings[i], t.bindings[j]));
    }
    assert forall|i: int, j: int| 0 <= i < j < listeners.len() implies #[trigger] other_listener()(
        listeners[i],
        listeners[j],
    ) by {
        assert(q(t.listeners[i], t.listeners[j]));
    }
}

/// What the older binding has is in the binding.
pub open spec fn binding_kept(older: OlderBindingView, b: BindingView) -> bool {
    &&& b.qq == older.qq
    &&& b.user_id == older.user_id
    &&& b.current_username == older.current_username
    &&& older.default_mode matches Some(code) ==> b.default_mode == code
}

/// What the older listener has is in the listener.
pub open spec fn listener_kept(older: OlderListenerView, l: ListenerView) -> bool {
    &&& l.match_id == older.match_id
    &&& l.group_id == older.group_id
    &&& l.creator_qq == older.creator_qq
    &&& older.match_name matches Some(name) ==> l.match_name == name
    &&& l.last_event_id == older.last_event_id
    &&& l.last_notified_event_id == older.last_notified_event_id
    &&& l.pending_game_event_id == older.pending_game_event_id
    &&& l.created_at == older.created_at
    &&& l.expires_at == older.expires_at
    &&& l.active == older.active
    &&& l.last_notified_at == older.last_notified_at
    &&& older.user_id matches Some(user_id) ==> l.user_id == user_id
    &&& older.notification_type matches Some(channel) ==> l.notification_type == channel
}

/// A binding that is older than the default mode has the default mode of new players.
pub proof fn older_binding_has_the_first_mode(t: OlderTablesView, i: int)
    requires
        0 <= i < t.bindings.len(),
        t.bindings[i].default_mode is None,
        t.full().wf(),
    ensures
        t.full().binding(t.bindings[i].qq) matches Some(b) && b.user_id == t.bindings[i].user_id
            && b.current_username == t.bindings[i].current_username && GameMode::of_code(
            b.default_mode,
        ) == Some(GameMode::Osu),
{
    let s = t.full().bindings;
    let qq = t.bindings[i].qq;
    assert(s[i] == full_binding()(t.bindings[i]));
    assert forall|j: int| 0 <= j < i implies !of_qq(qq)(#[trigger] s[j]) by {
        assert(qq_before()(s[j], s[i]));
    }
    first_where_at(s, i, of_qq(qq));
}

/// A listener that is older than the columns follows a match without a name, for no user, and
/// tells its group.
pub proof fn older_listener_tells_its_group(t: OlderTablesView, i: int)
    requires
        0 <= i < t.listeners.len(),
        t.full().wf(),
    ensures
        ({
            let older = t.listeners[i];
            t.full().listener(older.match_id, older.group_id) matches Some(l) && {
                &&& listener_kept(older, l)
                &&& older.match_name is None ==> l.match_name == ""@
                &&& older.user_id is None ==> l.user_id is None
                &&& older.notification_type is None ==> l.notification_type == "group"@
            }
        }),
{
    let s = t.full().listeners;
    let older = t.listeners[i];
    let p = listens(older.match_id, older.group_id);
    assert(s[i] == full_listener()(older));
    assert forall|j: int| 0 <= j < i implies !p(#[trigger] s[j]) by {
        assert(other_listener()(s[j], s[i]));
    }
    first_where_at(s, i, p);
}

/// The tables as a database that lacks no column has them.
pub open spec fn with_all_columns(t: TablesView) -> OlderTablesView {
    OlderTablesView {
        bindings: t.bindings.map_values(
            |b: BindingView|
                OlderBindingView {
                    qq: b.qq,
                    user_id: b.user_id,
                    current_username: b.current_username,
                    default_mode: Some(b.default_mode),
                },
        ),
        user_ids: t.user_ids,
        history: t.history,
        plays: t.plays,
        next_updates: t.next_updates,
        last_updates: t.last_updates,
        pending_unbinds: t.pending_unbinds,
        pending_binds: t.pending_binds,
        listeners: t.listeners.map_values(
            |l: ListenerView|
                OlderListenerView {
                    match_id: l.match_id,
                    group_id: l.group_id,
                    creator_qq: l.creator_qq,
                    match_name: Some(l.match_name),
                    last_event_id: l.last_event_id,
                    last_notified_event_id: l.last_notified_event_id,
                    pending_game_event_id: l.pending_game_event_id,
                    created_at: l.created_at,
                    expires_at: l.expires_at,
                    active: l.active,
                    last_notified_at: l.last_notified_at,
                    user_id: Some(l.user_id),
                    notification_type: Some(l.notification_type),
                },
        ),
    }
}

/// Opening a database that lacks no column changes no row, and so does opening any database a
/// second time.
pub proof fn opening_again_changes_no_row(t: TablesView, older: OlderTablesView)
    ensures
        with_all_columns(t).full() == t,
        with_all_columns(older.full()).full() == older.full(),
{
    completing_all_columns(t);
    completing_all_columns(older.full());
}

proof fn completing_all_columns(t: TablesView)
    ensures
        with_all_columns(t).full() == t,
{
    assert(with_all_columns(t).full().bindings =~= t.bindings);
    assert(with_all_columns(t).full().listeners =~= t.listeners);
}

/// The names of the columns that are added to a table.
pub open spec fn added_to(table: Seq<char>, added: Seq<AddedColumn>) -> Seq<Seq<char>> {
    added.filter(|c: AddedColumn| c.table_name() == table).map_values(
        |c: AddedColumn| c.column_name(),
    )
}

/// Once the missing columns have been added, none is missing.
pub proof fn adding_columns_settles(
    user_bindings: Seq<Seq<char>>,
    match_listeners: Seq<Seq<char>>,
)
    ensures
        ({
            let added = missing(user_bindings, match_listeners);
            missing(
                user_bindings + added_to("user_bindings"@, added),
                match_listeners + added_to("match_listeners"@, added),
            ).len() == 0
        }),
{
    let added = missing(user_bindings, match_listeners);
    let first = lacking(AddedColumn::DefaultMode, user_bindings);
    let second = first + lacking(AddedColumn::MatchName, match_listeners);
    let third = second + lacking(AddedColumn::UserId, match_listeners);
    assert(first.len() > 0 ==> added[0] == AddedColumn::DefaultMode);
    assert(second.len() > first.len() ==> added[first.len() as int] == AddedColumn::MatchName);
    assert(third.len() > second.len() ==> added[second.len() as int] == AddedColumn::UserId);
    assert(added.len() > third.len() ==> added[third.len() as int]
        == AddedColumn::NotificationType);
    added_column_is_there(AddedColumn::DefaultMode, user_bindings, added);
    added_column_is_there(AddedColumn::MatchName, match_listeners, added);
    added_column_is_there(AddedColumn::UserId, match_listeners, added);
    added_column_is_there(AddedColumn::NotificationType, match_listeners, added);
}

proof fn added_column_is_there(c: AddedColumn, columns: Seq<Seq<char>>, added: Seq<AddedColumn>)
    requires
        lacking(c, columns).len() > 0 ==> added.contains(c),
    ensures
        lacking(c, columns + added_to(c.table_name(), added)).len() == 0,
{
    broadcast use Seq::lemma_filter_contains;

    let here = added_to(c.table_name(), added);
    let after = columns + here;
    let p = |c2: AddedColumn| c2.table_name() == c.table_name();
    if columns.contains(c.column_name()) {
        let i = choose|i: int| 0 <= i < columns.len() && columns[i] == c.column_name();
        assert(after[i] == c.column_name());
    } else {
        let i = choose|i: int| 0 <= i < added.len() && added[i] == c;
        assert(p(added[i]));
        let kept = added.filter(p);
        assert(kept.contains(c));
        let k = choose|k: int| 0 <= k < kept.len() && kept[k] == c;
        assert(here[k] == c.column_name());
        assert(after[columns.len() + k] == c.column_name());
    }
}

} // verus!
