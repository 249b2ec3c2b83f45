//! The rows of the tables, their mathematical views, and the constraints that tables obey.
use crate::table::{pairwise, views};
use crate::text::{lower, text_lt};
use crate::types::UserStatsSnapshot;
use vstd::prelude::*;

verus! {

/// A chat account and the player it is bound to.
#[derive(Clone, Debug, PartialEq, Eq)]
pub struct BindingRow {
    pub qq: i64,
    pub user_id: i64,
    pub current_username: String,
    pub default_mode: i32,
}

pub struct BindingView {
    pub qq: i64,
    pub user_id: i64,
    pub current_username: Seq<char>,
    pub default_mode: i32,
}

impl View for BindingRow {
    type V = BindingView;

    open spec fn view(&self) -> BindingView {
        BindingView {
            qq: self.qq,
            user_id: self.user_id,
            current_username: self.current_username@,
            default_mode: self.default_mode,
        }
    }
}

/// The player number that a username was last seen with. New names are written in lower case.
#[derive(Clone, Debug, PartialEq, Eq)]
pub struct UserIdRow {
    pub username: String,
    pub user_id: i64,
}

pub struct UserIdView {
    pub username: Seq<char>,
    pub user_id: i64,
}

impl View for UserIdRow {
    type V = UserIdView;

    open spec fn view(&self) -> UserIdView {
        UserIdView { username: self.username@, user_id: self.user_id }
    }
}

/// The statistics of a player in one mode at an instant, which is kept as RFC 3339 text.
#[derive(Clone, Debug, PartialEq, Eq)]
pub struct HistoryRow {
    pub user_id: i64,
    pub mode: i32,
    pub recorded_at: String,
    pub stats: UserStatsSnapshot,
}

pub struct HistoryView {
    pub user_id: i64,
    pub mode: i32,
    pub recorded_at: Seq<char>,
    pub stats: UserStatsSnapshot,
}

impl View for HistoryRow {
    type V = HistoryView;

    open spec fn view(&self) -> HistoryView {
        HistoryView {
            user_id: self.user_id,
            mode: self.mode,
            recorded_at: self.recorded_at@,
            stats: self.stats,
        }
    }
}

/// The timestamp of one play.
#[derive(Clone, Copy, Debug, PartialEq, Eq, Structural)]
pub struct PlayRow {
    pub user_id: i64,
    pub mode: i32,
    pub played_at: i64,
}

impl View for PlayRow {
    type V = PlayRow;

    open spec fn view(&self) -> PlayRow {
        *self
    }
}

/// The timestamp from which a player is due for an update in one mode.
#[derive(Clone, Copy, Debug, PartialEq, Eq, Structural)]
pub struct NextUpdateRow {
    pub user_id: i64,
    pub mode: i32,
    pub next_update: i64,
}

impl View for NextUpdateRow {
    type V = NextUpdateRow;

    open spec fn view(&self) -> NextUpdateRow {
        *self
    }
}

/// The instant, as RFC 3339 text, at which a player was last seen active in one mode.
#[derive(Clone, Debug, PartialEq, Eq)]
pub struct LastUpdateRow {
    pub user_id: i64,
    pub mode: i32,
    pub last_update: String,
}

pub struct LastUpdateView {
    pub user_id: i64,
    pub mode: i32,
    pub last_update: Seq<char>,
}

impl View for LastUpdateRow {
    type V = LastUpdateView;

    open spec fn view(&self) -> LastUpdateView {
        LastUpdateView {
            user_id: self.user_id,
            mode: self.mode,
            last_update: self.last_update@,
        }
    }
}

/// A request to unbind that waits for its confirmation.
#[derive(Clone, Debug, PartialEq, Eq)]
pub struct PendingUnbindRow {
    pub qq: i64,
    pub created_at: String,
}

pub struct PendingUnbindView {
    pub qq: i64,
    pub created_at: Seq<char>,
}

impl View for PendingUnbindRow {
    type V = PendingUnbindView;

    open spec fn view(&self) -> PendingUnbindView {
        PendingUnbindView { qq: self.qq, created_at: self.created_at@ }
    }
}

/// A request to bind that waits for its code.
#[derive(Clone, Debug, PartialEq, Eq)]
pub struct PendingBindRow {
    pub code: String,
    pub qq_user_id: i64,
    pub group_id: i64,
    pub target_username: String,
    pub created_at: String,
    pub expires_at: i64,
}

pub struct PendingBindView {
    pub code: Seq<char>,
    pub qq_user_id: i64,
    pub group_id: i64,
    pub target_username: Seq<char>,
    pub created_at: Seq<char>,
    pub expires_at: i64,
}

impl View for PendingBindRow {
    type V = PendingBindView;

    open spec fn view(&self) -> PendingBindView {
        PendingBindView {
            code: self.code@,
            qq_user_id: self.qq_user_id,
            group_id: self.group_id,
            target_username: self.target_username@,
            created_at: self.created_at@,
            expires_at: self.expires_at,
        }
    }
}

/// A listener of a multiplayer match, and how far it has told of the match's events.
#[derive(Clone, Debug, PartialEq, Eq)]
pub struct ListenerRow {
    pub match_id: i64,
    pub group_id: i64,
    pub creator_qq: i64,
    pub match_name: String,
    pub last_event_id: Option<i64>,
    pub last_notified_event_id: Option<i64>,
    pub pending_game_event_id: Option<i64>,
    pub created_at: String,
    pub expires_at: i64,
    pub active: i64,
    pub last_notified_at: Option<String>,
    pub user_id: Option<i64>,
    pub notification_type: String,
}

pub struct ListenerView {
    pub match_id: i64,
    pub group_id: i64,
    pub creator_qq: i64,
    pub match_name: Seq<char>,
    pub last_event_id: Option<i64>,
    pub last_notified_event_id: Option<i64>,
    pub pending_game_event_id: Option<i64>,
    pub created_at: Seq<char>,
    pub expires_at: i64,
    pub active: i64,
    pub last_notified_at: Option<Seq<char>>,
    pub user_id: Option<i64>,
    pub notification_type: Seq<char>,
}

/// The characters of a text that may be missing.
pub open spec fn opt_text(o: Option<String>) -> Option<Seq<char>> {
    match o {
        Some(s) => Some(s@),
        None => None,
    }
}

impl View for ListenerRow {
    type V = ListenerView;

    open spec fn view(&self) -> ListenerView {
        ListenerView {
            match_id: self.match_id,
            group_id: self.group_id,
            creator_qq: self.creator_qq,
            match_name: self.match_name@,
            last_event_id: self.last_event_id,
            last_notified_event_id: self.last_notified_event_id,
            pending_game_event_id: self.pending_game_event_id,
            created_at: self.created_at@,
            expires_at: self.expires_at,
            active: self.active,
            last_notified_at: opt_text(self.last_notified_at),
            user_id: self.user_id,
            notification_type: self.notification_type@,
        }
    }
}

/// The order of the history: by player, mode and text of the instant.
pub open spec fn history_lt(a: HistoryView, b: HistoryView) -> bool {
    a.user_id < b.user_id || (a.user_id == b.user_id && (a.mode < b.mode || (a.mode == b.mode
        && text_lt(a.recorded_at, b.recorded_at))))
}

/// The order of the plays: by player, mode and timestamp.
pub open spec fn play_lt(a: PlayRow, b: PlayRow) -> bool {
    a.user_id < b.user_id || (a.user_id == b.user_id && (a.mode < b.mode || (a.mode == b.mode
        && a.played_at < b.played_at)))
}

/// All the tables, as plain rows.
#[derive(Clone, Debug, PartialEq, Eq)]
pub struct Tables {
    pub bindings: Vec<BindingRow>,
    pub user_ids: Vec<UserIdRow>,
    pub history: Vec<HistoryRow>,
    pub plays: Vec<PlayRow>,
    pub next_updates: Vec<NextUpdateRow>,
    pub last_updates: Vec<LastUpdateRow>,
    pub pending_unbinds: Vec<PendingUnbindRow>,
    pub pending_binds: Vec<PendingBindRow>,
    pub listeners: Vec<ListenerRow>,
}

/// The tables as mathematics: sequences of rows in the order in which they are scanned, and the
/// set of the plays.
#[verifier::ext_equal]
pub struct TablesView {
    pub bindings: Seq<BindingView>,
    pub user_ids: Seq<UserIdView>,
    pub history: Seq<HistoryView>,
    pub plays: Set<PlayRow>,
    pub next_updates: Seq<NextUpdateRow>,
    pub last_updates: Seq<LastUpdateView>,
    pub pending_unbinds: Seq<PendingUnbindView>,
    pub pending_binds: Seq<PendingBindView>,
    pub listeners: Seq<ListenerView>,
}

/// The bindings are in the order of the chat accounts, and no account occurs twice.
pub open spec fn bindings_ok(s: Seq<BindingView>) -> bool {
    pairwise(s, qq_before())
}

pub open spec fn qq_before() -> spec_fn(BindingView, BindingView) -> bool {
    |a: BindingView, b: BindingView| a.qq < b.qq
}

/// No username has two numbers.
pub open spec fn user_ids_ok(s: Seq<UserIdView>) -> bool {
    pairwise(s, other_username())
}

/// Every username is in lower case.
pub open spec fn names_lowered(s: Seq<UserIdView>) -> bool {
    forall|i: int| 0 <= i < s.len() ==> lower((#[trigger] s[i]).username) == s[i].username
}

pub open spec fn other_username() -> spec_fn(UserIdView, UserIdView) -> bool {
    |a: UserIdView, b: UserIdView| a.username != b.username
}

/// The history is in its order, and no player has two snapshots of one mode and instant.
pub open spec fn history_ok(s: Seq<HistoryView>) -> bool {
    pairwise(s, history_before())
}

pub open spec fn history_before() -> spec_fn(HistoryView, HistoryView) -> bool {
    |a: HistoryView, b: HistoryView| history_lt(a, b)
}

/// The plays are in their order, and none occurs twice.
pub open spec fn plays_ok(s: Seq<PlayRow>) -> bool {
    pairwise(s, play_before())
}

pub open spec fn play_before() -> spec_fn(PlayRow, PlayRow) -> bool {
    |a: PlayRow, b: PlayRow| play_lt(a, b)
}

/// No player has two next updates in one mode.
pub open spec fn next_updates_ok(s: Seq<NextUpdateRow>) -> bool {
    pairwise(s, other_next())
}

pub open spec fn other_next() -> spec_fn(NextUpdateRow, NextUpdateRow) -> bool {
    |a: NextUpdateRow, b: NextUpdateRow| a.user_id != b.user_id || a.mode != b.mode
}

/// No player has two last updates in one mode.
pub open spec fn last_updates_ok(s: Seq<LastUpdateView>) -> bool {
    pairwise(s, other_last())
}

pub open spec fn other_last() -> spec_fn(LastUpdateView, LastUpdateView) -> bool {
    |a: LastUpdateView, b: LastUpdateView| a.user_id != b.user_id || a.mode != b.mode
}

/// No chat account waits for two confirmations.
pub open spec fn pending_unbinds_ok(s: Seq<PendingUnbindView>) -> bool {
    pairwise(s, other_qq())
}

pub open spec fn other_qq() -> spec_fn(PendingUnbindView, PendingUnbindView) -> bool {
    |a: PendingUnbindView, b: PendingUnbindView| a.qq != b.qq
}

/// No code stands for two requests.
pub open spec fn pending_binds_ok(s: Seq<PendingBindView>) -> bool {
    pairwise(s, other_code())
}

pub open spec fn other_code() -> spec_fn(PendingBindView, PendingBindView) -> bool {
    |a: PendingBindView, b: PendingBindView| a.code != b.code
}

/// No group has two listeners of one match.
pub open spec fn listeners_ok(s: Seq<ListenerView>) -> bool {
    pairwise(s, other_listener())
}

pub open spec fn other_listener() -> spec_fn(ListenerView, ListenerView) -> bool {
    |a: ListenerView, b: ListenerView| a.match_id != b.match_id || a.group_id != b.group_id
}

impl TablesView {
    /// Every table obeys its key.
    pub open spec fn wf(self) -> bool {
        &&& bindings_ok(self.bindings)
        &&& user_ids_ok(self.user_ids)
        &&& history_ok(self.history)
        &&& self.plays.finite()
        &&& next_updates_ok(self.next_updates)
        &&& last_updates_ok(self.last_updates)
        &&& pending_unbinds_ok(self.pending_unbinds)
        &&& pending_binds_ok(self.pending_binds)
        &&& listeners_ok(self.listeners)
    }

    /// No table has a row.
    pub open spec fn empty() -> TablesView {
        TablesView {
            bindings: Seq::empty(),
            user_ids: Seq::empty(),
            history: Seq::empty(),
            plays: Set::empty(),
            next_updates: Seq::empty(),
            last_updates: Seq::empty(),
            pending_unbinds: Seq::empty(),
            pending_binds: Seq::empty(),
            listeners: Seq::empty(),
        }
    }
}

impl View for Tables {
    type V = TablesView;

    open spec fn view(&self) -> TablesView {
        TablesView {
            bindings: views(self.bindings@),
            user_ids: views(self.user_ids@),
            history: views(self.history@),
            plays: self.plays@.to_set(),
            next_updates: views(self.next_updates@),
            last_updates: views(self.last_updates@),
            pending_unbinds: views(self.pending_unbinds@),
            pending_binds: views(self.pending_binds@),
            listeners: views(self.listeners@),
        }
    }
}

} // verus!
