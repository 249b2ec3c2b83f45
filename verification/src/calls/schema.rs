//! Columns that an older database lacks, and its rows.
use crate::rows::{BindingRow, BindingView, ListenerRow, ListenerView, Tables};
use crate::schema::{
    has_column, missing_columns, table_info_query, AddedColumn, InitialValue, OlderBinding,
    OlderBindingView, OlderListener, OlderListenerView, OlderTables,
};
use crate::table::views;
use crate::types::StorageError;
use vstd::prelude::*;

verus! {

/// The columns of two tables are looked up, and those of no other: the query names the table.
pub proof fn two_tables_are_looked_up(table: &str, res: Result<String, StorageError>)
    requires
        call_ensures(table_info_query, (table,), res),
    ensures
        res is Ok <==> table@ == "user_bindings"@ || table@ == "match_listeners"@,
        res matches Ok(query) ==> query@ == "PRAGMA table_info(\""@ + table@ + "\")"@,
        res matches Err(e) ==> (e matches StorageError::TableNotAllowed(name) && name@ == table@),
{
}

/// A column is there where one of the names is its name, letter by letter.
pub proof fn columns_are_found_by_name(columns: &Vec<String>, column: &str, res: bool)
    requires
        call_ensures(has_column, (columns, column), res),
    ensures
        res <==> exists|i: int| 0 <= i < columns@.len() && (#[trigger] columns@[i])@ == column@,
{
    named(columns@, column@);
}

proof fn named(columns: Seq<String>, name: Seq<char>)
    ensures
        views(columns).contains(name) <==> exists|i: int|
            0 <= i < columns.len() && (#[trigger] columns[i])@ == name,
{
    let names = views(columns);
    if names.contains(name) {
        let i = choose|i: int| 0 <= i < names.len() && names[i] == name;
        assert(columns[i]@ == name);
    }
    if exists|i: int| 0 <= i < columns.len() && (#[trigger] columns[i])@ == name {
        let i = choose|i: int| 0 <= i < columns.len() && (#[trigger] columns[i])@ == name;
        assert(names[i] == name);
    }
}

/// None of the names is this one.
pub open spec fn lacks(columns: Seq<String>, name: Seq<char>) -> bool {
    forall|i: int| 0 <= i < columns.len() ==> (#[trigger] columns[i])@ != name
}

/// The column if it is lacking.
pub open spec fn if_lacking(c: AddedColumn, columns: Seq<String>, name: Seq<char>) -> Seq<
    AddedColumn,
> {
    if lacks(columns, name) {
        seq![c]
    } else {
        seq![]
    }
}

/// The columns that are missing are the default mode of the bindings, and the name, the user and
/// the channel of the listeners, each where its table has no column of its name, in this order.
pub proof fn missing_columns_are_those_not_there(
    bindings: &Vec<String>,
    listeners: &Vec<String>,
    res: Vec<AddedColumn>,
)
    requires
        call_ensures(missing_columns, (bindings, listeners), res),
    ensures
        res@ == if_lacking(AddedColumn::DefaultMode, bindings@, "default_mode"@) + if_lacking(
            AddedColumn::MatchName,
            listeners@,
            "match_name"@,
        ) + if_lacking(AddedColumn::UserId, listeners@, "user_id"@) + if_lacking(
            AddedColumn::NotificationType,
            listeners@,
            "notification_type"@,
        ),
{
    named(bindings@, "default_mode"@);
    named(listeners@, "match_name"@);
    named(listeners@, "user_id"@);
    named(listeners@, "notification_type"@);
}

/// Each column has its table, its name and its initial value, and is added with them.
pub proof fn columns_are_as_they_are_added(
    c: AddedColumn,
    table: &'static str,
    name: &'static str,
    initial: InitialValue,
    statement: String,
)
    requires
        call_ensures(AddedColumn::table, (c,), table),
        call_ensures(AddedColumn::name, (c,), name),
        call_ensures(AddedColumn::initial, (c,), initial),
        call_ensures(AddedColumn::add_statement, (c,), statement),
    ensures
        c == AddedColumn::DefaultMode ==> table@ == "user_bindings"@ && name@ == "default_mode"@
            && initial == InitialValue::Zero,
        c == AddedColumn::MatchName ==> table@ == "match_listeners"@ && name@ == "match_name"@ && (
        initial matches InitialValue::Text(text) && text@ == ""@),
        c == AddedColumn::UserId ==> table@ == "match_listeners"@ && name@ == "user_id"@ && initial
            == InitialValue::Nothing,
        c == AddedColumn::NotificationType ==> table@ == "match_listeners"@ && name@
            == "notification_type"@ && (initial matches InitialValue::Text(text) && text@
            == "group"@),
        initial == InitialValue::Zero ==> statement@ == "ALTER TABLE "@ + table@ + " ADD COLUMN "@
            + name@ + " "@ + "INTEGER NOT NULL DEFAULT 0"@,
        initial == InitialValue::Nothing ==> statement@ == "ALTER TABLE "@ + table@
            + " ADD COLUMN "@ + name@ + " "@ + "INTEGER"@,
        initial matches InitialValue::Text(text) ==> statement@ == "ALTER TABLE "@ + table@
            + " ADD COLUMN "@ + name@ + " "@ + ("TEXT NOT NULL DEFAULT '"@ + text@ + "'"@),
{
}

/// The binding has what the older one has, and the mode of number zero where that lacks it.
pub open spec fn binding_completed(b: BindingView, older: OlderBindingView) -> bool {
    &&& b.qq == older.qq
    &&& b.user_id == older.user_id
    &&& b.current_username == older.current_username
    &&& older.default_mode matches Some(code) ==> b.default_mode == code
    &&& older.default_mode is None ==> b.default_mode == 0
}

/// The listener has what the older one has, and where that lacks it no name, no user and the
/// channel of the group.
pub open spec fn listener_completed(l: ListenerView, older: OlderListenerView) -> bool {
    &&& l.match_id == older.match_id
    &&& l.group_id == older.group_id
    &&& l.creator_qq == older.creator_qq
    &&& l.last_event_id == older.last_event_id
    &&& l.last_notified_event_id == older.last_notified_event_id
    &&& l.pending_game_event_id == older.pending_game_event_id
    &&& l.created_at == older.created_at
    &&& l.expires_at == older.expires_at
    &&& l.active == older.active
    &&& l.last_notified_at == older.last_notified_at
    &&& older.match_name matches Some(name) ==> l.match_name == name
    &&& older.match_name is None ==> l.match_name == ""@
    &&& older.user_id matches Some(user_id) ==> l.user_id == user_id
    &&& older.user_id is None ==> l.user_id is None
    &&& older.notification_type matches Some(channel) ==> l.notification_type == channel
    &&& older.notification_type is None ==> l.notification_type == "group"@
}

/// Older rows are completed one by one; all other tables are as they were.
pub proof fn older_rows_are_completed(
    b: &OlderBinding,
    l: &OlderListener,
    older: OlderTables,
    binding: BindingRow,
    listener: ListenerRow,
    res: Tables,
)
    requires
        call_ensures(OlderBinding::complete, (b,), binding),
        call_ensures(OlderListener::complete, (l,), listener),
        call_ensures(OlderTables::complete, (older,), res),
    ensures
        binding_completed(binding@, b@),
        listener_completed(listener@, l@),
        res@.bindings.len() == older@.bindings.len(),
        forall|i: int|
            0 <= i < res@.bindings.len() ==> binding_completed(
                #[trigger] res@.bindings[i],
                older@.bindings[i],
            ),
        res@.listeners.len() == older@.listeners.len(),
        forall|i: int|
            0 <= i < res@.listeners.len() ==> listener_completed(
                #[trigger] res@.listeners[i],
                older@.listeners[i],
            ),
        res@.user_ids == older@.user_ids,
        res@.history == older@.history,
        res@.plays == older@.plays,
        res@.next_updates == older@.next_updates,
        res@.last_updates == older@.last_updates,
        res@.pending_unbinds == older@.pending_unbinds,
        res@.pending_binds == older@.pending_binds,
{
}

/// What is shown of older rows is each of their columns under its own name.
pub proof fn older_rows_are_seen_as_they_are(
    b: OlderBinding,
    l: OlderListener,
    t: OlderTables,
)
    ensures
        b@.qq == b.qq && b@.user_id == b.user_id && b@.current_username == b.current_username@
            && b@.default_mode == b.default_mode,
        l@.match_id == l.match_id && l@.group_id == l.group_id && l@.creator_qq == l.creator_qq,
        l@.last_event_id == l.last_event_id && l@.last_notified_event_id
            == l.last_notified_event_id && l@.pending_game_event_id == l.pending_game_event_id,
        l@.created_at == l.created_at@ && l@.expires_at == l.expires_at && l@.active == l.active,
        l@.user_id == l.user_id,
        l.match_name matches Some(x) ==> l@.match_name == Some(x@),
        l.match_name is None ==> l@.match_name is None,
        l.last_notified_at matches Some(x) ==> l@.last_notified_at == Some(x@),
        l.last_notified_at is None ==> l@.last_notified_at is None,
        l.notification_type matches Some(x) ==> l@.notification_type == Some(x@),
        l.notification_type is None ==> l@.notification_type is None,
        t@.bindings == views(t.bindings@) && t@.user_ids == views(t.user_ids@) && t@.history
            == views(t.history@) && t@.plays == t.plays@.to_set(),
        t@.next_updates == views(t.next_updates@) && t@.last_updates == views(t.last_updates@),
        t@.pending_unbinds == views(t.pending_unbinds@) && t@.pending_binds == views(
            t.pending_binds@,
        ) && t@.listeners == views(t.listeners@),
{
}

} // verus!
