//! Laws of the requests that wait.
use crate::pending::{
    bind_expired, bind_waiting, made_before, unbind_of, waits_for, BIND_SECONDS, UNBIND_SECONDS,
};
use crate::rows::{other_code, PendingBindView, PendingUnbindView, TablesView};
use crate::table::{
    filter_filter, filter_holds, first_where, first_where_facts, first_where_filter,
    first_where_gone, first_where_kept, first_where_replaced, first_where_replaced_other, not,
};
use crate::time::{instant_of, plain_year, written_at, UtcTime};
use vstd::prelude::*;

verus! {

/// The row that a request to bind adds.
pub open spec fn bind_row(
    code: Seq<char>,
    qq_user_id: i64,
    group_id: i64,
    target_username: Seq<char>,
    now: UtcTime,
) -> PendingBindView {
    PendingBindView {
        code,
        qq_user_id,
        group_id,
        target_username,
        created_at: now.text(),
        expires_at: (now.secs + BIND_SECONDS) as i64,
    }
}

/// A request to bind is found under its code for two minutes and not after; the requests that wait
/// for other codes are as they were.
pub proof fn pending_bind_is_found(
    t: TablesView,
    code: Seq<char>,
    qq_user_id: i64,
    group_id: i64,
    target_username: Seq<char>,
    now: UtcTime,
    asked_at: i64,
    other: Seq<char>,
)
    requires
        now.valid(),
        other != code,
    ensures
        ({
            let after = t.with_pending_bind(code, qq_user_id, group_id, target_username, now);
            &&& after.pending_bind(code, asked_at) == if asked_at <= now.secs + 120 {
                Some(bind_row(code, qq_user_id, group_id, target_username, now))
            } else {
                None
            }
            &&& after.pending_bind(other, asked_at) == t.pending_bind(other, asked_at)
        }),
{
    let row = bind_row(code, qq_user_id, group_id, target_username, now);
    first_where_replaced(t.pending_binds, waits_for(code), row);
    first_where_replaced_other(t.pending_binds, waits_for(code), row, waits_for(other));
}

/// An account that asked to bind has a waiting request for two minutes.
pub proof fn pending_bind_is_waiting(
    t: TablesView,
    code: Seq<char>,
    qq_user_id: i64,
    group_id: i64,
    target_username: Seq<char>,
    now: UtcTime,
    asked_at: i64,
)
    requires
        now.valid(),
        asked_at <= now.secs + 120,
    ensures
        first_where(
            t.with_pending_bind(code, qq_user_id, group_id, target_username, now).pending_binds,
            bind_waiting(qq_user_id, asked_at),
        ) is Some,
{
    let after = t.with_pending_bind(code, qq_user_id, group_id, target_username, now);
    let row = bind_row(code, qq_user_id, group_id, target_username, now);
    assert(after.pending_binds.last() == row);
    assert(after.pending_binds.contains(row) && bind_waiting(qq_user_id, asked_at)(row));
    first_where_facts(after.pending_binds, bind_waiting(qq_user_id, asked_at));
}

/// A request to bind that was removed is not found; the others are as they were.
pub proof fn removed_bind_is_gone(t: TablesView, code: Seq<char>, asked_at: i64, other: Seq<char>)
    requires
        other != code,
    ensures
        t.without_pending_binds(waits_for(code)).pending_bind(code, asked_at) is None,
        t.without_pending_binds(waits_for(code)).pending_bind(other, asked_at) == t.pending_bind(
            other,
            asked_at,
        ),
{
    first_where_gone(t.pending_binds, waits_for(code));
    first_where_filter(t.pending_binds, not(waits_for(code)), waits_for(other));
}

/// Pruning the requests to bind changes nothing of what is found from then on.
pub proof fn pruning_binds_is_not_seen(
    t: TablesView,
    now: i64,
    code: Seq<char>,
    qq_user_id: i64,
    asked_at: i64,
)
    requires
        t.wf(),
        now <= asked_at,
    ensures
        t.without_pending_binds(bind_expired(now)).pending_bind(code, asked_at) == t.pending_bind(
            code,
            asked_at,
        ),
        first_where(
            t.without_pending_binds(bind_expired(now)).pending_binds,
            bind_waiting(qq_user_id, asked_at),
        ) == first_where(t.pending_binds, bind_waiting(qq_user_id, asked_at)),
{
    let s = t.pending_binds;
    assert forall|i: int, j: int| #![trigger s[i], s[j]] 0 <= i < j < s.len() implies !(waits_for(
        code,
    )(s[i]) && waits_for(code)(s[j])) by {
        assert(other_code()(s[i], s[j]));
    }
    first_where_kept(s, not(bind_expired(now)), waits_for(code));
    first_where_filter(s, not(bind_expired(now)), bind_waiting(qq_user_id, asked_at));
}

/// Pruning the requests to unbind twice at the same instant removes no more than once, and changes
/// no other table.
pub proof fn pruning_unbinds_settles(t: TablesView, now: UtcTime)
    ensures
        t.unbinds_pruned(now).unbinds_pruned(now) == t.unbinds_pruned(now),
        t.unbinds_pruned(now) == (TablesView {
            pending_unbinds: t.unbinds_pruned(now).pending_unbinds,
            ..t
        }),
{
    let p = not(made_before(now.plus_seconds(-UNBIND_SECONDS).text()));
    filter_filter(t.pending_unbinds, p, p);
}

/// Requests to unbind that are written as the library writes them stay so: a fresh storage has
/// none, a request that the clock dates in a year of four digits is written so, and removing and
/// pruning leave the others as they are.
pub proof fn unbinds_stay_recorded(t: TablesView, qq: i64, now: UtcTime)
    requires
        t.unbinds_recorded(),
        now.from_clock(),
        plain_year(now.secs),
        now.reads_back(),
    ensures
        TablesView::empty().unbinds_recorded(),
        t.with_pending_unbind(qq, now).unbinds_recorded(),
        t.without_pending_unbinds(unbind_of(qq)).unbinds_recorded(),
        t.unbinds_pruned(now).unbinds_recorded(),
{
    let s = t.pending_unbinds;
    let kept = s.filter(not(unbind_of(qq)));
    filter_holds(s, not(unbind_of(qq)));
    filter_holds(s, not(made_before(now.plus_seconds(-UNBIND_SECONDS).text())));
    let row = PendingUnbindView { qq, created_at: now.text() };
    assert forall|u: PendingUnbindView| #[trigger]
        kept.push(row).contains(u) implies instant_of(u.created_at) matches Some(t) && written_at(
        u.created_at,
        t,
    ) && t.nanos < 1_000_000_000 by {
        let i = choose|i: int| 0 <= i < kept.push(row).len() && kept.push(row)[i] == u;
        if i < kept.len() {
            assert(s.contains(kept[i]));
        }
    }
    assert forall|u: PendingUnbindView| #[trigger] kept.contains(u) implies s.contains(u) by {}
}

/// A request to unbind that was removed is not found; those of other accounts are as they were,
/// and so they are after a new request.
pub proof fn removed_unbind_is_gone(t: TablesView, qq: i64, now: UtcTime, at: UtcTime, other: i64)
    requires
        other != qq,
    ensures
        t.without_pending_unbinds(unbind_of(qq)).pending_unbind(qq, now) is None,
        t.without_pending_unbinds(unbind_of(qq)).pending_unbind(other, now) == t.pending_unbind(
            other,
            now,
        ),
        t.with_pending_unbind(qq, at).pending_unbind(other, now) == t.pending_unbind(other, now),
{
    let row = PendingUnbindView { qq, created_at: at.text() };
    first_where_gone(t.pending_unbinds, unbind_of(qq));
    first_where_filter(t.pending_unbinds, not(unbind_of(qq)), unbind_of(other));
    first_where_replaced_other(t.pending_unbinds, unbind_of(qq), row, unbind_of(other));
}

} // verus!
