//! Which columns an older database lacks, and what its rows have in them.
use crate::rows::{
    opt_text, BindingRow, BindingView, HistoryRow, HistoryView, LastUpdateRow, LastUpdateView,
    ListenerRow, ListenerView, NextUpdateRow, PendingBindRow, PendingBindView, PendingUnbindRow,
    PendingUnbindView, PlayRow, Tables, TablesView, UserIdRow, UserIdView,
};
use crate::table::{exists_where, map_rows, views};
use crate::text::text_eq;
use crate::types::StorageError;
use vstd::prelude::*;
use vstd::string::StringExecFns;

verus! {

/// A column that an older database may lack.
#[derive(Clone, Copy, Debug, PartialEq, Eq, Structural)]
pub enum AddedColumn {
    /// The default mode of a binding.
    DefaultMode,
    /// The name of a listener's match.
    MatchName,
    /// The user that a listener tells in private.
    UserId,
    /// The channel on which a listener tells.
    NotificationType,
}

impl View for AddedColumn {
    type V = AddedColumn;

    open spec fn view(&self) -> AddedColumn {
        *self
    }
}

/// What a row has in a column that was added after it.
#[derive(Clone, Copy, Debug, PartialEq, Eq)]
pub enum InitialValue {
    /// The number zero.
    Zero,
    /// A text.
    Text(&'static str),
    /// No number.
    Nothing,
}

impl InitialValue {
    /// How a column with this initial value is declared.
    pub open spec fn declared(self) -> Seq<char> {
        match self {
            InitialValue::Zero => "INTEGER NOT NULL DEFAULT 0"@,
            InitialValue::Text(text) => "TEXT NOT NULL DEFAULT '"@ + text@ + "'"@,
            InitialValue::Nothing => "INTEGER"@,
        }
    }

    /// The text, where there is one.
    pub open spec fn text(self) -> Seq<char> {
        match self {
            InitialValue::Text(text) => text@,
            _ => Seq::empty(),
        }
    }
}

impl AddedColumn {
    /// What a row has in the column that is older than it.
    pub open spec fn initial_value(self) -> InitialValue {
        match self {
            AddedColumn::DefaultMode => InitialValue::Zero,
            AddedColumn::MatchName => InitialValue::Text(""),
            AddedColumn::UserId => InitialValue::Nothing,
            AddedColumn::NotificationType => InitialValue::Text("group"),
        }
    }

    /// What a row has in the column that is older than it.
    pub fn initial(self) -> (res: InitialValue)
        ensures
            res == self.initial_value(),
    {
        match self {
            AddedColumn::DefaultMode => InitialValue::Zero,
            AddedColumn::MatchName => InitialValue::Text(""),
            AddedColumn::UserId => InitialValue::Nothing,
            AddedColumn::NotificationType => InitialValue::Text("group"),
        }
    }

    /// The statement that adds the column to its table, with its initial value.
    pub fn add_statement(self) -> (res: String)
        ensures
            res@ == "ALTER TABLE "@ + self.table_name() + " ADD COLUMN "@ + self.column_name()
                + " "@ + self.initial_value().declared(),
    {
        let mut text = "ALTER TABLE ".to_owned();
        text.append(self.table());
        text.append(" ADD COLUMN ");
        text.append(self.name());
        text.append(" ");
        let ghost head = text@;
        match self.initial() {
            InitialValue::Zero => {
                text.append("INTEGER NOT NULL DEFAULT 0");
            },
            InitialValue::Text(value) => {
                text.append("TEXT NOT NULL DEFAULT '");
                text.append(value);
                text.append("'");
            },
            InitialValue::Nothing => {
                text.append("INTEGER");
            },
        }
        assert(text@ =~= head + self.initial_value().declared());
        text
    }

    /// The table of the column.
    pub open spec fn table_name(self) -> Seq<char> {
        match self {
            AddedColumn::DefaultMode => "user_bindings"@,
            _ => "match_listeners"@,
        }
    }

    /// The name of the column.
    pub open spec fn column_name(self) -> Seq<char> {
        match self {
            AddedColumn::DefaultMode => "default_mode"@,
            AddedColumn::MatchName => "match_name"@,
            AddedColumn::UserId => "user_id"@,
            AddedColumn::NotificationType => "notification_type"@,
        }
    }

    /// The table of the column.
    pub fn table(self) -> (res: &'static str)
        ensures
            res@ == self.table_name(),
            allowed(res@),
    {
        match self {
            AddedColumn::DefaultMode => "user_bindings",
            _ => "match_listeners",
        }
    }

    /// The name of the column.
    pub fn name(self) -> (res: &'static str)
        ensures
            res@ == self.column_name(),
    {
        match self {
            AddedColumn::DefaultMode => "default_mode",
            AddedColumn::MatchName => "match_name",
            AddedColumn::UserId => "user_id",
            AddedColumn::NotificationType => "notification_type",
        }
    }
}

/// The tables whose columns may be looked up.
pub open spec fn allowed(table: Seq<char>) -> bool {
    table == "user_bindings"@ || table == "match_listeners"@
}

/// The query for the columns of a table. Only tables that are known to need it are looked up, so
/// that no other text gets into a query.
pub fn table_info_query(table: &str) -> (res: Result<String, StorageError>)
    ensures
        match res {
            Ok(query) => allowed(table@) && query@ == "PRAGMA table_info(\""@ + table@ + "\")"@,
            Err(e) => !allowed(table@) && (e matches StorageError::TableNotAllowed(name) && name@
                == table@),
        },
{
    if !text_eq(table, "user_bindings") && !text_eq(table, "match_listeners") {
        return Err(StorageError::TableNotAllowed(table.to_owned()));
    }
    let mut query = "PRAGMA table_info(\"".to_owned();
    query.append(table);
    query.append("\")");
    Ok(query)
}

/// The name is this one.
pub open spec fn is_name(name: Seq<char>) -> spec_fn(Seq<char>) -> bool {
    |n: Seq<char>| n == name
}

/// Whether the column is among the columns of a table.
pub fn has_column(columns: &Vec<String>, column: &str) -> (res: bool)
    ensures
        res == views(columns@).contains(column@),
{
    let res = exists_where(
        columns,
        |n: &String| -> (r: bool) ensures r == (n@ == column@) { text_eq(n.as_str(), column) },
        Ghost(is_name(column@)),
    );
    proof {
        assert(is_name(column@)(column@));
    }
    res
}

/// The column if its table lacks it.
pub open spec fn lacking(c: AddedColumn, columns: Seq<Seq<char>>) -> Seq<AddedColumn> {
    if columns.contains(c.column_name()) {
        Seq::empty()
    } else {
        seq![c]
    }
}

/// The columns to add, in order, where the two tables have these columns.
pub open spec fn missing(
    user_bindings: Seq<Seq<char>>,
    match_listeners: Seq<Seq<char>>,
) -> Seq<AddedColumn> {
    lacking(AddedColumn::DefaultMode, user_bindings) + lacking(
        AddedColumn::MatchName,
        match_listeners,
    ) + lacking(AddedColumn::UserId, match_listeners) + lacking(
        AddedColumn::NotificationType,
        match_listeners,
    )
}

/// The columns to add, in order, where the two tables have these columns.
pub fn missing_columns(user_bindings: &Vec<String>, match_listeners: &Vec<String>) -> (res: Vec<
    AddedColumn,
>)
    ensures
        res@ == missing(views(user_bindings@), views(match_listeners@)),
{
    let mut res: Vec<AddedColumn> = Vec::new();
    if !has_column(user_bindings, AddedColumn::DefaultMode.name()) {
        res.push(AddedColumn::DefaultMode);
    }
    if !has_column(match_listeners, AddedColumn::MatchName.name()) {
        res.push(AddedColumn::MatchName);
    }
    if !has_column(match_listeners, AddedColumn::UserId.name()) {
        res.push(AddedColumn::UserId);
    }
    if !has_column(match_listeners, AddedColumn::NotificationType.name()) {
        res.push(AddedColumn::NotificationType);
    }
    res
}

/// A binding of a database that may lack the default mode: it is `None` where the column is not
/// there.
#[derive(Clone, Debug, PartialEq, Eq)]
pub struct OlderBinding {
    pub qq: i64,
    pub user_id: i64,
    pub current_username: String,
    pub default_mode: Option<i32>,
}

pub struct OlderBindingView {
    pub qq: i64,
    pub user_id: i64,
    pub current_username: Seq<char>,
    pub default_mode: Option<i32>,
}

impl View for OlderBinding {
    type V = OlderBindingView;

    open spec fn view(&self) -> OlderBindingView {
        OlderBindingView {
            qq: self.qq,
            user_id: self.user_id,
            current_username: self.current_username@,
            default_mode: self.default_mode,
        }
    }
}

/// A listener of a database that may lack some of the columns: what they hold is `None` where the
/// column is not there.
#[derive(Clone, Debug, PartialEq, Eq)]
pub struct OlderListener {
    pub match_id: i64,
    pub group_id: i64,
    pub creator_qq: i64,
    pub match_name: Option<String>,
    pub last_event_id: Option<i64>,
    pub last_notified_event_id: Option<i64>,
    pub pending_game_event_id: Option<i64>,
    pub created_at: String,
    pub expires_at: i64,
    pub active: i64,
    pub last_notified_at: Option<String>,
    pub user_id: Option<Option<i64>>,
    pub notification_type: Option<String>,
}

pub struct OlderListenerView {
    pub match_id: i64,
    pub group_id: i64,
    pub creator_qq: i64,
    pub match_name: Option<Seq<char>>,
    pub last_event_id: Option<i64>,
    pub last_notified_event_id: Option<i64>,
    pub pending_game_event_id: Option<i64>,
    pub created_at: Seq<char>,
    pub expires_at: i64,
    pub active: i64,
    pub last_notified_at: Option<Seq<char>>,
    pub user_id: Option<Option<i64>>,
    pub notification_type: Option<Seq<char>>,
}

impl View for OlderListener {
    type V = OlderListenerView;

    open spec fn view(&self) -> OlderListenerView {
        OlderListenerView {
            match_id: self.match_id,
            group_id: self.group_id,
            creator_qq: self.creator_qq,
            match_name: opt_text(self.match_name),
            last_event_id: self.last_event_id,
            last_notified_event_id: self.last_notified_event_id,
            pending_game_event_id: self.pending_game_event_id,
            created_at: self.created_at@,
            expires_at: self.expires_at,
            active: self.active,
            last_notified_at: opt_text(self.last_notified_at),
            user_id: self.user_id,
            notification_type: opt_text(self.notification_type),
        }
    }
}

/// All the rows of a database that may lack some of the columns.
#[derive(Clone, Debug, PartialEq, Eq)]
pub struct OlderTables {
    pub bindings: Vec<OlderBinding>,
    pub user_ids: Vec<UserIdRow>,
    pub history: Vec<HistoryRow>,
    pub plays: Vec<PlayRow>,
    pub next_updates: Vec<NextUpdateRow>,
    pub last_updates: Vec<LastUpdateRow>,
    pub pending_unbinds: Vec<PendingUnbindRow>,
    pub pending_binds: Vec<PendingBindRow>,
    pub listeners: Vec<OlderListener>,
}

/// The rows of such a database as mathematics.
#[verifier::ext_equal]
pub struct OlderTablesView {
    pub bindings: Seq<OlderBindingView>,
    pub user_ids: Seq<UserIdView>,
    pub history: Seq<HistoryView>,
    pub plays: Set<PlayRow>,
    pub next_updates: Seq<NextUpdateRow>,
    pub last_updates: Seq<LastUpdateView>,
    pub pending_unbinds: Seq<PendingUnbindView>,
    pub pending_binds: Seq<PendingBindView>,
    pub listeners: Seq<OlderListenerView>,
}

impl View for OlderTables {
    type V = OlderTablesView;

    open spec fn view(&self) -> OlderTablesView {
        OlderTablesView {
            bindings: views(self.bindings@),
            user_ids: views(self.user_ids@),
            history: views(self.history@),
            plays: self.plays@.to_set(),
            next_updates: views(self.next_updates@),
            last_updates: views(self.last_updates@),
            pending_unbinds: views(self.pending_unbinds@),
            pending_binds: views(self.pending_binds@),
            listeners: views(self.listeners@),
        }
    }
}

/// What is in a column of text, or its initial value where it is not there.
pub open spec fn text_in(text: Option<Seq<char>>, column: AddedColumn) -> Seq<char> {
    match text {
        Some(text) => text,
        None => column.initial_value().text(),
    }
}

/// The binding with all its columns.
pub open spec fn full_binding() -> spec_fn(OlderBindingView) -> BindingView {
    |b: OlderBindingView|
        BindingView {
            qq: b.qq,
            user_id: b.user_id,
            current_username: b.current_username,
            default_mode: match b.default_mode {
                Some(code) => code,
                None => 0,
            },
        }
}

/// The listener with all its columns.
pub open spec fn full_listener() -> spec_fn(OlderListenerView) -> ListenerView {
    |l: OlderListenerView|
        ListenerView {
            match_id: l.match_id,
            group_id: l.group_id,
            creator_qq: l.creator_qq,
            match_name: text_in(l.match_name, AddedColumn::MatchName),
            last_event_id: l.last_event_id,
            last_notified_event_id: l.last_notified_event_id,
            pending_game_event_id: l.pending_game_event_id,
            created_at: l.created_at,
            expires_at: l.expires_at,
            active: l.active,
            last_notified_at: l.last_notified_at,
            user_id: match l.user_id {
                Some(user_id) => user_id,
                None => None,
            },
            notification_type: text_in(l.notification_type, AddedColumn::NotificationType),
        }
}

impl OlderTablesView {
    /// The tables with all their columns.
    pub open spec fn full(self) -> TablesView {
        TablesView {
            bindings: self.bindings.map_values(full_binding()),
            user_ids: self.user_ids,
            history: self.history,
            plays: self.plays,
            next_updates: self.next_updates,
            last_updates: self.last_updates,
            pending_unbinds: self.pending_unbinds,
            pending_binds: self.pending_binds,
            listeners: self.listeners.map_values(full_listener()),
        }
    }
}

/// What is in a column of text, or its initial value where it is not there.
fn text_or_initial(text: &Option<String>, column: AddedColumn) -> (res: String)
    ensures
        res@ == text_in(opt_text(*text), column),
{
    match text {
        Some(text) => text.clone(),
        None => match column.initial() {
            InitialValue::Text(value) => value.to_owned(),
            _ => String::new(),
        },
    }
}

impl OlderBinding {
    /// The binding with all its columns.
    pub fn complete(&self) -> (res: BindingRow)
        ensures
            res@ == full_binding()(self@),
    {
        BindingRow {
            qq: self.qq,
            user_id: self.user_id,
            current_username: self.current_username.clone(),
            default_mode: match self.default_mode {
                Some(code) => code,
                None => 0,
            },
        }
    }
}

impl OlderListener {
    /// The listener with all its columns.
    pub fn complete(&self) -> (res: ListenerRow)
        ensures
            res@ == full_listener()(self@),
    {
        ListenerRow {
            match_id: self.match_id,
            group_id: self.group_id,
            creator_qq: self.creator_qq,
            match_name: text_or_initial(&self.match_name, AddedColumn::MatchName),
            last_event_id: self.last_event_id,
            last_notified_event_id: self.last_notified_event_id,
            pending_game_event_id: self.pending_game_event_id,
            created_at: self.created_at.clone(),
            expires_at: self.expires_at,
            active: self.active,
            last_notified_at: match &self.last_notified_at {
                Some(text) => Some(text.clone()),
                None => None,
            },
            user_id: match self.user_id {
                Some(user_id) => user_id,
                None => None,
            },
            notification_type: text_or_initial(
                &self.notification_type,
                AddedColumn::NotificationType,
            ),
        }
    }
}

impl OlderTables {
    /// The tables with all their columns.
    pub fn complete(self) -> (res: Tables)
        ensures
            res@ == self@.full(),
            res.plays@ == self.plays@,
    {
        let bindings = map_rows(
            &self.bindings,
            |b: &OlderBinding| -> (r: BindingRow) ensures r@ == full_binding()(b@) { b.complete() },
            Ghost(full_binding()),
        );
        let listeners = map_rows(
            &self.listeners,
            |l: &OlderListener| -> (r: ListenerRow)
                ensures r@ == full_listener()(l@) { l.complete() },
            Ghost(full_listener()),
        );
        Tables {
            bindings,
            user_ids: self.user_ids,
            history: self.history,
            plays: self.plays,
            next_updates: self.next_updates,
            last_updates: self.last_updates,
            pending_unbinds: self.pending_unbinds,
            pending_binds: self.pending_binds,
            listeners,
        }
    }
}

} // verus!
