//! Which rows of the tables an operation took away and which it brought, so that a database can
//! be brought up to date.
use crate::rows::{
    opt_text, plays_ok, BindingRow, HistoryRow, LastUpdateRow, ListenerRow, NextUpdateRow,
    PendingBindRow, PendingUnbindRow, PlayRow, Tables, UserIdRow,
};
use crate::snapshots::history_lt_asymmetric;
use crate::table::views;
use crate::text::text_eq;
use crate::types::{Real, UserStatsSnapshot};
use vstd::prelude::*;

verus! {

/// The places of the rows of one table that are to be deleted, and of those that are to be
/// inserted.
#[derive(Clone, Debug, PartialEq, Eq)]
pub struct TableChanges {
    /// Places in the table as it was.
    pub deleted: Vec<usize>,
    /// Places in the table as it is.
    pub inserted: Vec<usize>,
}

/// The changes of all the tables.
#[derive(Clone, Debug, PartialEq, Eq)]
pub struct Changes {
    pub bindings: TableChanges,
    pub user_ids: TableChanges,
    pub history: TableChanges,
    pub plays: TableChanges,
    pub next_updates: TableChanges,
    pub last_updates: TableChanges,
    pub pending_unbinds: TableChanges,
    pub pending_binds: TableChanges,
    pub listeners: TableChanges,
}

/// The place is among the places.
pub open spec fn has_place(places: Seq<usize>, i: int) -> bool {
    exists|k: int| 0 <= k < places.len() && (#[trigger] places[k]) == i
}

/// `places` are those of the rows of `from` that are not in `to`, in order.
pub open spec fn missing_from<V>(places: Seq<usize>, from: Seq<V>, to: Seq<V>) -> bool {
    &&& forall|k: int|
        0 <= k < places.len() ==> (#[trigger] places[k]) < from.len() && !to.contains(
            from[places[k] as int],
        )
    &&& forall|i: int|
        0 <= i < from.len() && !to.contains(#[trigger] from[i]) ==> has_place(places, i)
    &&& forall|k: int, l: int| 0 <= k < l < places.len() ==> places[k] < places[l]
}

/// The changes lead from one table to another.
pub open spec fn lead<V>(c: TableChanges, before: Seq<V>, after: Seq<V>) -> bool {
    missing_from(c.deleted@, before, after) && missing_from(c.inserted@, after, before)
}

/// The rows at some places.
pub open spec fn rows_at<V>(places: Seq<usize>, s: Seq<V>) -> Set<V> {
    Set::new(|v: V| exists|k: int| 0 <= k < places.len() && s[(#[trigger] places[k]) as int] == v)
}

/// A table whose deleted rows were taken away and whose inserted rows were brought has the rows
/// that it is to have.
pub proof fn changes_bring_up_to_date<V>(c: TableChanges, before: Seq<V>, after: Seq<V>)
    requires
        lead(c, before, after),
    ensures
        before.to_set().difference(rows_at(c.deleted@, before)).union(rows_at(c.inserted@, after))
            == after.to_set(),
{
    let (gone, new) = (rows_at(c.deleted@, before), rows_at(c.inserted@, after));
    assert forall|v: V|
        before.to_set().difference(gone).union(new).contains(v) <==> after.contains(v) by {
        if before.contains(v) && !gone.contains(v) && !after.contains(v) {
            let i = choose|i: int| 0 <= i < before.len() && before[i] == v;
            assert(has_place(c.deleted@, i));
            let k = choose|k: int| 0 <= k < c.deleted@.len() && (#[trigger] c.deleted@[k]) == i;
            assert(before[c.deleted@[k] as int] == v);
        }
        if new.contains(v) {
            let k = choose|k: int|
                0 <= k < c.inserted@.len() && after[(#[trigger] c.inserted@[k]) as int] == v;
            assert(after.contains(after[c.inserted@[k] as int]));
        }
        if after.contains(v) {
            let i = choose|i: int| 0 <= i < after.len() && after[i] == v;
            if before.contains(v) {
                if gone.contains(v) {
                    let k = choose|k: int|
                        0 <= k < c.deleted@.len() && before[(#[trigger] c.deleted@[k]) as int] == v;
                    assert(!after.contains(before[c.deleted@[k] as int]));
                }
            } else {
                assert(has_place(c.inserted@, i));
                let k = choose|k: int| 0 <= k < c.inserted@.len() && (#[trigger] c.inserted@[k]) == i;
                assert(after[c.inserted@[k] as int] == v);
            }
        }
    }
    assert(before.to_set().difference(gone).union(new) =~= after.to_set());
}

/// No row occurs twice.
pub open spec fn distinct<V>(s: Seq<V>) -> bool {
    forall|i: int, j: int| #![trigger s[i], s[j]] 0 <= i < j < s.len() ==> s[i] != s[j]
}

/// `same` tells whether two rows have the same view.
pub open spec fn tells_same<R: View, F: Fn(&R, &R) -> bool>(same: F) -> bool {
    &&& forall|a: &R, b: &R| #[trigger] call_requires(same, (a, b))
    &&& forall|a: &R, b: &R, r: bool| #[trigger] call_ensures(same, (a, b), r) ==> r == (a@ == b@)
}

/// Finds the rows of `from` that are not in `to`. Rows that both begin or end with are not
/// compared with others, so that few changes are found in short time.
fn missing<R: View, F: Fn(&R, &R) -> bool>(from: &Vec<R>, to: &Vec<R>, same: F) -> (res: Vec<usize>)
    requires
        tells_same(same),
        distinct(views(from@)),
    ensures
        missing_from(res@, views(from@), views(to@)),
{
    let ghost (a, b) = (views(from@), views(to@));
    let n: usize = from.len();
    let m: usize = to.len();
    let mut p: usize = 0;
    while p < n && p < m && same(&from[p], &to[p])
        invariant
            tells_same(same),
            a == views(from@),
            b == views(to@),
            n == a.len(),
            m == b.len(),
            p <= n,
            p <= m,
            forall|i: int| 0 <= i < p ==> #[trigger] a[i] == b[i],
        decreases n - p,
    {
        p += 1;
    }
    let mut q: usize = 0;
    while q < n - p && q < m - p && same(&from[n - 1 - q], &to[m - 1 - q])
        invariant
            tells_same(same),
            a == views(from@),
            b == views(to@),
            n == a.len(),
            m == b.len(),
            p <= n,
            p <= m,
            q <= n - p,
            q <= m - p,
            forall|j: int| m - q <= j < m ==> #[trigger] b[j] == a[j - m + n],
        decreases n - q,
    {
        q += 1;
    }
    let mut res: Vec<usize> = Vec::new();
    let mut i: usize = p;
    while i < n - q
        invariant
            tells_same(same),
            distinct(a),
            a == views(from@),
            b == views(to@),
            n == a.len(),
            m == b.len(),
            p <= i <= n - q,
            p <= m,
            q <= m - p,
            forall|k: int| 0 <= k < p ==> #[trigger] a[k] == b[k],
            forall|j: int| m - q <= j < m ==> #[trigger] b[j] == a[j - m + n],
            forall|k: int| 0 <= k < res@.len() ==> p <= (#[trigger] res@[k]) < i,
            forall|k: int| 0 <= k < res@.len() ==> !b.contains(a[(#[trigger] res@[k]) as int]),
            forall|k: int| p <= k < i && !b.contains(#[trigger] a[k]) ==> has_place(res@, k),
            forall|k: int, l: int| 0 <= k < l < res@.len() ==> res@[k] < res@[l],
        decreases n - i,
    {
        let mut found: bool = false;
        let mut j: usize = p;
        while j < m - q && !found
            invariant
                tells_same(same),
                a == views(from@),
                b == views(to@),
                n == a.len(),
                m == b.len(),
                i < n,
                p <= j <= m - q,
                q <= m,
                found ==> b.contains(a[i as int]),
                !found ==> forall|k: int| p <= k < j ==> #[trigger] b[k] != a[i as int],
            decreases m - j,
        {
            assert(b[j as int] == to@[j as int]@);
            if same(&from[i], &to[j]) {
                found = true;
            }
            j += 1;
        }
        let ghost before = res@;
        if !found {
            proof {
                if b.contains(a[i as int]) {
                    let k = choose|k: int| 0 <= k < b.len() && b[k] == a[i as int];
                    if k < p {
                        assert(a[k] == b[k]);
                        assert(a[k] != a[i as int]);
                    } else if k >= m - q {
                        assert(b[k] == a[k - m + n]);
                        assert(a[i as int] != a[k - m + n]);
                    }
                    assert(false);
                }
            }
            res.push(i);
        }
        proof {
            assert forall|k: int| p <= k < i + 1 && !b.contains(#[trigger] a[k]) implies has_place(
                res@,
                k,
            ) by {
                if k < i {
                    let l = choose|l: int| 0 <= l < before.len() && (#[trigger] before[l]) == k;
                    assert(res@[l] == k);
                } else {
                    assert(res@[res@.len() - 1] == k);
                }
            }
        }
        i += 1;
    }
    proof {
        assert forall|k: int| 0 <= k < a.len() && !b.contains(#[trigger] a[k]) implies has_place(
            res@,
            k,
        ) by {
            if k < p {
                assert(b[k] == a[k]);
            } else if k >= n - q {
                assert(b[k - n + m] == a[k - n + m - m + n]);
            }
        }
    }
    res
}

/// Finds what leads from one table to another.
fn compared<R: View, F: Fn(&R, &R) -> bool + Copy>(
    before: &Vec<R>,
    after: &Vec<R>,
    same: F,
) -> (res: TableChanges)
    requires
        tells_same(same),
        distinct(views(before@)),
        distinct(views(after@)),
    ensures
        lead(res, views(before@), views(after@)),
{
    TableChanges {
        deleted: missing(before, after, same),
        inserted: missing(after, before, same),
    }
}

/// The tables obey their keys, so that no table has a row twice.
proof fn rows_distinct(t: Tables)
    requires
        t@.wf(),
        plays_ok(t.plays@),
    ensures
        distinct(t@.bindings),
        distinct(t@.user_ids),
        distinct(t@.history),
        distinct(views(t.plays@)),
        distinct(t@.next_updates),
        distinct(t@.last_updates),
        distinct(t@.pending_unbinds),
        distinct(t@.pending_binds),
        distinct(t@.listeners),
{
    assert forall|i: int, j: int|
        #![trigger t@.history[i], t@.history[j]]
        0 <= i < j < t@.history.len() implies t@.history[i] != t@.history[j] by {
        history_lt_asymmetric(t@.history[i], t@.history[j]);
    }
    assert(views(t.plays@) =~= t.plays@);
}

/// Two texts that may be missing are the same.
fn same_opt_text(a: &Option<String>, b: &Option<String>) -> (res: bool)
    ensures
        res == (opt_text(*a) == opt_text(*b)),
{
    match (a, b) {
        (Some(x), Some(y)) => text_eq(x.as_str(), y.as_str()),
        (None, None) => true,
        _ => false,
    }
}

/// Two numbers that may be missing are the same.
fn same_opt(a: Option<i64>, b: Option<i64>) -> (res: bool)
    ensures
        res == (a == b),
{
    match (a, b) {
        (Some(x), Some(y)) => x == y,
        (None, None) => true,
        _ => false,
    }
}

/// Two values that may be missing are the same.
fn same_opt_real(a: Option<Real>, b: Option<Real>) -> (res: bool)
    ensures
        res == (a == b),
{
    match (a, b) {
        (Some(x), Some(y)) => x.bits == y.bits,
        (None, None) => true,
        _ => false,
    }
}

fn same_stats(a: &UserStatsSnapshot, b: &UserStatsSnapshot) -> (res: bool)
    ensures
        res == (a == b),
{
    same_opt_real(a.pp, b.pp) && same_opt(a.rank, b.rank) && same_opt(
        a.country_rank,
        b.country_rank,
    ) && same_opt(a.ranked_score, b.ranked_score) && same_opt_real(a.accuracy, b.accuracy)
        && same_opt(a.playcount, b.playcount) && same_opt(a.hits, b.hits) && same_opt(
        a.playtime,
        b.playtime,
    )
}

fn same_binding(a: &BindingRow, b: &BindingRow) -> (res: bool)
    ensures
        res == (a@ == b@),
{
    a.qq == b.qq && a.user_id == b.user_id && text_eq(
        a.current_username.as_str(),
        b.current_username.as_str(),
    ) && a.default_mode == b.default_mode
}

fn same_user_id(a: &UserIdRow, b: &UserIdRow) -> (res: bool)
    ensures
        res == (a@ == b@),
{
    text_eq(a.username.as_str(), b.username.as_str()) && a.user_id == b.user_id
}

fn same_snapshot(a: &HistoryRow, b: &HistoryRow) -> (res: bool)
    ensures
        res == (a@ == b@),
{
    a.user_id == b.user_id && a.mode == b.mode && text_eq(
        a.recorded_at.as_str(),
        b.recorded_at.as_str(),
    ) && same_stats(&a.stats, &b.stats)
}

fn same_play(a: &PlayRow, b: &PlayRow) -> (res: bool)
    ensures
        res == (a == b),
{
    a.user_id == b.user_id && a.mode == b.mode && a.played_at == b.played_at
}

fn same_next(a: &NextUpdateRow, b: &NextUpdateRow) -> (res: bool)
    ensures
        res == (a == b),
{
    a.user_id == b.user_id && a.mode == b.mode && a.next_update == b.next_update
}

fn same_last(a: &LastUpdateRow, b: &LastUpdateRow) -> (res: bool)
    ensures
        res == (a@ == b@),
{
    a.user_id == b.user_id && a.mode == b.mode && text_eq(
        a.last_update.as_str(),
        b.last_update.as_str(),
    )
}

fn same_unbind(a: &PendingUnbindRow, b: &PendingUnbindRow) -> (res: bool)
    ensures
        res == (a@ == b@),
{
    a.qq == b.qq && text_eq(a.created_at.as_str(), b.created_at.as_str())
}

fn same_bind(a: &PendingBindRow, b: &PendingBindRow) -> (res: bool)
    ensures
        res == (a@ == b@),
{
    text_eq(a.code.as_str(), b.code.as_str()) && a.qq_user_id == b.qq_user_id && a.group_id
        == b.group_id && text_eq(a.target_username.as_str(), b.target_username.as_str())
        && text_eq(a.created_at.as_str(), b.created_at.as_str()) && a.expires_at == b.expires_at
}

fn same_listener(a: &ListenerRow, b: &ListenerRow) -> (res: bool)
    ensures
        res == (a@ == b@),
{
    a.match_id == b.match_id && a.group_id == b.group_id && a.creator_qq == b.creator_qq && text_eq(
        a.match_name.as_str(),
        b.match_name.as_str(),
    ) && same_opt(a.last_event_id, b.last_event_id) && same_opt(
        a.last_notified_event_id,
        b.last_notified_event_id,
    ) && same_opt(a.pending_game_event_id, b.pending_game_event_id) && text_eq(
        a.created_at.as_str(),
        b.created_at.as_str(),
    ) && a.expires_at == b.expires_at && a.active == b.active && same_opt_text(
        &a.last_notified_at,
        &b.last_notified_at,
    ) && same_opt(a.user_id, b.user_id) && text_eq(
        a.notification_type.as_str(),
        b.notification_type.as_str(),
    )
}

/// The changes that lead from the tables as they were to the tables as they are.
pub fn changes(before: &Tables, after: &Tables) -> (res: Changes)
    requires
        before@.wf(),
        plays_ok(before.plays@),
        after@.wf(),
        plays_ok(after.plays@),
    ensures
        lead(res.bindings, before@.bindings, after@.bindings),
        lead(res.user_ids, before@.user_ids, after@.user_ids),
        lead(res.history, before@.history, after@.history),
        lead(res.plays, before.plays@, after.plays@),
        lead(res.next_updates, before@.next_updates, after@.next_updates),
        lead(res.last_updates, before@.last_updates, after@.last_updates),
        lead(res.pending_unbinds, before@.pending_unbinds, after@.pending_unbinds),
        lead(res.pending_binds, before@.pending_binds, after@.pending_binds),
        lead(res.listeners, before@.listeners, after@.listeners),
{
    proof {
        rows_distinct(*before);
        rows_distinct(*after);
        assert(views(before.plays@) =~= before.plays@);
        assert(views(after.plays@) =~= after.plays@);
    }
    Changes {
        bindings: compared(&before.bindings, &after.bindings, same_binding),
        user_ids: compared(&before.user_ids, &after.user_ids, same_user_id),
        history: compared(&before.history, &after.history, same_snapshot),
        plays: compared(&before.plays, &after.plays, same_play),
        next_updates: compared(&before.next_updates, &after.next_updates, same_next),
        last_updates: compared(&before.last_updates, &after.last_updates, same_last),
        pending_unbinds: compared(&before.pending_unbinds, &after.pending_unbinds, same_unbind),
        pending_binds: compared(&before.pending_binds, &after.pending_binds, same_bind),
        listeners: compared(&before.listeners, &after.listeners, same_listener),
    }
}

} // verus!
