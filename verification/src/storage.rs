//! The storage: all the tables, with the constraints that every operation keeps.
use crate::rows::{
    history_before, other_code, other_last, other_listener, other_next, other_qq, other_username,
    play_before, plays_ok, qq_before, BindingRow, HistoryRow, HistoryView, LastUpdateRow,
    ListenerRow, NextUpdateRow, PendingBindRow, PendingUnbindRow, PlayRow, Tables, TablesView,
    UserIdRow,
};
use crate::snapshots::{history_less, history_lt_transitive};
use crate::table::{is_pairwise, is_sorted, views};
use crate::text::text_eq;
use crate::types::StorageError;
use crate::updates::play_less;
use vstd::prelude::*;

verus! {

/// The tables of the bot. Every operation keeps their keys.
pub struct Storage {
    pub(crate) tables: Tables,
}

impl View for Storage {
    type V = TablesView;

    closed spec fn view(&self) -> TablesView {
        self.tables@
    }
}

impl Storage {
    /// The tables obey their keys, and the plays are kept in order.
    pub closed spec fn wf(&self) -> bool {
        &&& self.tables@.wf()
        &&& plays_ok(self.tables.plays@)
    }

    /// A storage without a row.
    pub fn new() -> (res: Storage)
        ensures
            res.wf(),
            res@ == TablesView::empty(),
    {
        let tables = Tables {
            bindings: Vec::new(),
            user_ids: Vec::new(),
            history: Vec::new(),
            plays: Vec::new(),
            next_updates: Vec::new(),
            last_updates: Vec::new(),
            pending_unbinds: Vec::new(),
            pending_binds: Vec::new(),
            listeners: Vec::new(),
        };
        assert(tables@ =~= TablesView::empty());
        Storage { tables }
    }

    /// A storage of the given rows. Refuses rows that break a key or an order.
    pub fn from_tables(tables: Tables) -> (res: Result<Storage, StorageError>)
        ensures
            match res {
                Ok(storage) => storage.wf() && storage@ == tables@ && tables@.wf() && plays_ok(
                    tables.plays@,
                ),
                Err(e) => e == StorageError::BrokenConstraint && !(tables@.wf() && plays_ok(
                    tables.plays@,
                )),
            },
    {
        if keys_hold(&tables) {
            Ok(Storage { tables })
        } else {
            Err(StorageError::BrokenConstraint)
        }
    }

    /// The rows of all the tables.
    pub fn tables(&self) -> (res: &Tables)
        ensures
            res@ == self@,
            self.wf() ==> res@.wf() && plays_ok(res.plays@),
    {
        &self.tables
    }

    /// The rows of all the tables.
    pub fn into_tables(self) -> (res: Tables)
        ensures
            res@ == self@,
            self.wf() ==> res@.wf() && plays_ok(res.plays@),
    {
        self.tables
    }
}

/// Whether the rows obey the keys and the orders of their tables.
fn keys_hold(t: &Tables) -> (res: bool)
    ensures
        res == (t@.wf() && plays_ok(t.plays@)),
{
    proof {
        assert forall|a: HistoryView, b: HistoryView, c: HistoryView| #[trigger]
            history_before()(a, b) && #[trigger] history_before()(b, c) implies history_before()(
            a,
            c,
        ) by {
            history_lt_transitive(a, b, c);
        }
        assert(views(t.plays@) =~= t.plays@);
        vstd::seq_lib::seq_to_set_is_finite(t.plays@);
    }
    is_sorted(
        &t.bindings,
        |a: &BindingRow, b: &BindingRow| -> (r: bool) ensures r == (a.qq < b.qq) { a.qq < b.qq },
        Ghost(qq_before()),
    ) && is_pairwise(
        &t.user_ids,
        |a: &UserIdRow, b: &UserIdRow| -> (r: bool)
            ensures r == (a.username@ != b.username@) {
            !text_eq(a.username.as_str(), b.username.as_str())
        },
        Ghost(other_username()),
    ) && is_sorted(
        &t.history,
        |a: &HistoryRow, b: &HistoryRow| -> (r: bool)
            ensures r == history_before()(a@, b@) { history_less(a, b) },
        Ghost(history_before()),
    ) && is_sorted(
        &t.plays,
        |a: &PlayRow, b: &PlayRow| -> (r: bool)
            ensures r == play_before()(*a, *b) { play_less(a, b) },
        Ghost(play_before()),
    ) && is_pairwise(
        &t.next_updates,
        |a: &NextUpdateRow, b: &NextUpdateRow| -> (r: bool)
            ensures r == (a.user_id != b.user_id || a.mode != b.mode) {
            a.user_id != b.user_id || a.mode != b.mode
        },
        Ghost(other_next()),
    ) && is_pairwise(
        &t.last_updates,
        |a: &LastUpdateRow, b: &LastUpdateRow| -> (r: bool)
            ensures r == (a.user_id != b.user_id || a.mode != b.mode) {
            a.user_id != b.user_id || a.mode != b.mode
        },
        Ghost(other_last()),
    ) && is_pairwise(
        &t.pending_unbinds,
        |a: &PendingUnbindRow, b: &PendingUnbindRow| -> (r: bool)
            ensures r == (a.qq != b.qq) { a.qq != b.qq },
        Ghost(other_qq()),
    ) && is_pairwise(
        &t.pending_binds,
        |a: &PendingBindRow, b: &PendingBindRow| -> (r: bool)
            ensures r == (a.code@ != b.code@) { !text_eq(a.code.as_str(), b.code.as_str()) },
        Ghost(other_code()),
    ) && is_pairwise(
        &t.listeners,
        |a: &ListenerRow, b: &ListenerRow| -> (r: bool)
            ensures r == (a.match_id != b.match_id || a.group_id != b.group_id) {
            a.match_id != b.match_id || a.group_id != b.group_id
        },
        Ghost(other_listener()),
    )
}

/// What the modules that work on the tables know of a storage's view.
pub(crate) broadcast proof fn view_is_tables(s: &Storage)
    ensures
        #[trigger] s@ == s.tables@,
{
}

/// What the modules that work on the tables know of a storage's invariant.
pub(crate) broadcast proof fn wf_is_tables_wf(s: &Storage)
    ensures
        #[trigger] s.wf() == (s.tables@.wf() && plays_ok(s.tables.plays@)),
{
}

pub(crate) broadcast group group_storage {
    view_is_tables,
    wf_is_tables_wf,
}

/// A well-formed storage shows well-formed tables.
pub broadcast proof fn wf_tables(s: &Storage)
    requires
        #[trigger] s.wf(),
    ensures
        s@.wf(),
{
}

} // verus!
