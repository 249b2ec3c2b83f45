//! Laws of the match listeners.
use crate::listeners::{
    active_in_group, active_listens, expired, fresh, last_told, listens, live, live_at,
    live_for_user, live_in_group, older, polled_before, progressed, restarted, shown, stopped,
    MatchListenerStartParams, MatchListenerView,
};
use crate::rows::{ListenerView, TablesView};
use crate::table::{
    filter_holds, filter_none, filter_push, filter_update_apart, first_where_facts,
    first_where_updated, sorts_unique, update_where,
};
use crate::text::{text_lt, text_lt_irreflexive, text_lt_transitive};
use crate::time::UtcTime;
use vstd::prelude::*;

verus! {

/// A listener that was started is found, active and with what it was started with: as a new one
/// where there was none, started again where there was one. Every other listener is as it was.
pub proof fn started_listener_is_found(
    t: TablesView,
    params: MatchListenerStartParams,
    group_id: i64,
    now: UtcTime,
    other_match: i64,
    other_group: i64,
)
    requires
        other_match != params.match_id || other_group != group_id,
    ensures
        ({
            let after = t.started(params, group_id, now);
            &&& after.listener(params.match_id, group_id) == Some(
                match t.listener(params.match_id, group_id) {
                    Some(l) => restarted(params, group_id, now)(l),
                    None => fresh(params, group_id, now),
                },
            )
            &&& after.listener(other_match, other_group) == t.listener(other_match, other_group)
        }),
{
    let p = listens(params.match_id, group_id);
    let o = listens(other_match, other_group);
    let f = restarted(params, group_id, now);
    first_where_facts(t.listeners, p);
    first_where_facts(t.listeners, o);
    if t.listener(params.match_id, group_id) is Some {
        first_where_updated(t.listeners, p, f, p);
        filter_update_apart(t.listeners, p, f, o);
    } else {
        let row = fresh(params, group_id, now);
        filter_push(t.listeners, row, p);
        filter_push(t.listeners, row, o);
    }
}

/// A live listener that is started again keeps since when it runs and how far it has told; the
/// rest is as given, and it stays active.
pub proof fn restart_keeps_a_live_listener(
    l: ListenerView,
    params: MatchListenerStartParams,
    group_id: i64,
    now: UtcTime,
)
    requires
        live(l, now.secs),
    ensures
        ({
            let new = restarted(params, group_id, now)(l);
            &&& new.created_at == l.created_at
            &&& new.last_event_id == l.last_event_id
            &&& new.last_notified_event_id == l.last_notified_event_id
            &&& new.pending_game_event_id == l.pending_game_event_id
            &&& new.last_notified_at == l.last_notified_at
            &&& new.active == 1
            &&& new.creator_qq == params.creator_qq
            &&& new.match_name == params.match_name@
            &&& new.expires_at == params.expires_at
            &&& new.user_id == params.user_id
            &&& new.notification_type == params.notification_type@
        }),
{
}

/// A listener that was stopped or has expired starts afresh: nothing of how far it had told is
/// left.
pub proof fn restart_resets_any_other_listener(
    l: ListenerView,
    params: MatchListenerStartParams,
    group_id: i64,
    now: UtcTime,
)
    requires
        l.active != 1 || l.expires_at < now.secs,
    ensures
        restarted(params, group_id, now)(l) == fresh(params, group_id, now),
        fresh(params, group_id, now).active == 1,
        fresh(params, group_id, now).pending_game_event_id is None,
        fresh(params, group_id, now).last_notified_at is None,
        fresh(params, group_id, now).last_event_id == params.initial_last_event_id,
        fresh(params, group_id, now).last_notified_event_id
            == params.initial_last_notified_event_id,
{
}

/// A listener that was stopped is not active, and keeps the rest; every other listener is as it
/// was.
pub proof fn stopped_listener_is_not_active(
    t: TablesView,
    match_id: i64,
    group_id: i64,
    other_match: i64,
    other_group: i64,
)
    requires
        other_match != match_id || other_group != group_id,
    ensures
        ({
            let after = t.listeners_updated(active_listens(match_id, group_id), stopped());
            &&& after.listener(match_id, group_id) == match t.listener(match_id, group_id) {
                Some(l) => Some(
                    if l.active == 1 {
                        ListenerView { active: 0, ..l }
                    } else {
                        l
                    },
                ),
                None => None,
            }
            &&& after.listener(other_match, other_group) == t.listener(other_match, other_group)
        }),
{
    let q = active_listens(match_id, group_id);
    first_where_updated(t.listeners, q, stopped(), listens(match_id, group_id));
    first_where_facts(t.listeners, listens(match_id, group_id));
    filter_update_apart(t.listeners, q, stopped(), listens(other_match, other_group));
}

/// After all listeners of a group were stopped the group has no live one, and every other group
/// has those that it had.
pub proof fn stopped_group_is_silent(t: TablesView, group_id: i64, other: i64, now: i64)
    requires
        other != group_id,
    ensures
        ({
            let after = t.listeners_updated(active_in_group(group_id), stopped());
            &&& after.listeners.filter(live_in_group(group_id, now)).len() == 0
            &&& after.listeners.filter(live_in_group(other, now)) == t.listeners.filter(
                live_in_group(other, now),
            )
        }),
{
    let q = active_in_group(group_id);
    let after = update_where(t.listeners, q, stopped());
    let p = live_in_group(group_id, now);
    assert forall|i: int| 0 <= i < after.len() implies !p(#[trigger] after[i]) by {
        let l = t.listeners[i];
        assert(after[i] == if q(l) {
            stopped()(l)
        } else {
            l
        });
    }
    filter_none(after, p);
    filter_update_apart(t.listeners, q, stopped(), live_in_group(other, now));
}

/// The progress that was recorded is what is found, all of it at once; when it last told stays as
/// it was where no instant is given. Every other listener is as it was.
pub proof fn progress_is_found(
    t: TablesView,
    match_id: i64,
    group_id: i64,
    last_event_id: Option<i64>,
    last_notified_event_id: Option<i64>,
    pending_game_event_id: Option<i64>,
    notified_at: Option<Seq<char>>,
    other_match: i64,
    other_group: i64,
)
    requires
        other_match != match_id || other_group != group_id,
    ensures
        ({
            let after = t.with_progress(
                match_id,
                group_id,
                last_event_id,
                last_notified_event_id,
                pending_game_event_id,
                notified_at,
            );
            &&& after.listener(match_id, group_id) == match t.listener(match_id, group_id) {
                Some(l) => Some(
                    ListenerView {
                        last_event_id,
                        last_notified_event_id,
                        pending_game_event_id,
                        last_notified_at: if notified_at is Some {
                            notified_at
                        } else {
                            l.last_notified_at
                        },
                        ..l
                    },
                ),
                None => None,
            }
            &&& after.listener(other_match, other_group) == t.listener(other_match, other_group)
        }),
{
    let q = listens(match_id, group_id);
    let f = progressed(
        last_event_id,
        last_notified_event_id,
        pending_game_event_id,
        notified_at,
    );
    first_where_updated(t.listeners, q, f, q);
    first_where_facts(t.listeners, q);
    filter_update_apart(t.listeners, q, f, listens(other_match, other_group));
}

/// Expiring leaves no active listener that has expired, and changes nothing of what is live from
/// then on.
pub proof fn expiring_is_not_seen(t: TablesView, now: i64, later: i64, group_id: i64, user_id: i64)
    requires
        now <= later,
    ensures
        ({
            let after = t.listeners_updated(expired(now), stopped());
            &&& after.listeners.filter(expired(now)).len() == 0
            &&& after.listeners.filter(live_at(later)) == t.listeners.filter(live_at(later))
            &&& after.listeners.filter(live_in_group(group_id, later)) == t.listeners.filter(
                live_in_group(group_id, later),
            )
            &&& after.listeners.filter(live_for_user(user_id, later)) == t.listeners.filter(
                live_for_user(user_id, later),
            )
        }),
{
    let q = expired(now);
    let after = update_where(t.listeners, q, stopped());
    assert forall|i: int| 0 <= i < after.len() implies !q(#[trigger] after[i]) by {
        let l = t.listeners[i];
        assert(after[i] == if q(l) {
            stopped()(l)
        } else {
            l
        });
    }
    filter_none(after, q);
    filter_update_apart(t.listeners, q, stopped(), live_at(later));
    filter_update_apart(t.listeners, q, stopped(), live_in_group(group_id, later));
    filter_update_apart(t.listeners, q, stopped(), live_for_user(user_id, later));
}

/// A group is shown as many listeners as are counted for it.
pub proof fn listing_has_the_counted_length(
    t: TablesView,
    res: Seq<MatchListenerView>,
    group_id: i64,
    now: UtcTime,
)
    requires
        t.shows_group(res, group_id, now),
    ensures
        res.len() == t.listeners.filter(live_in_group(group_id, now.secs)).len(),
{
    broadcast use vstd::seq_lib::group_to_multiset_ensures;

    let live = t.listeners.filter(live_in_group(group_id, now.secs));
    let out = choose|out: Seq<ListenerView>| #[trigger]
        t.lists_group(out, group_id, now.secs) && res == out.map_values(shown(now));
    assert(out.to_multiset().len() == live.to_multiset().len());
    assert(out.len() == live.len());
}

/// Every listener that is shown for a group is one of the group, active and not expired.
pub proof fn listed_listeners_are_live(
    t: TablesView,
    res: Seq<MatchListenerView>,
    group_id: i64,
    now: UtcTime,
    i: int,
)
    requires
        t.shows_group(res, group_id, now),
        0 <= i < res.len(),
    ensures
        res[i].group_id == Some(group_id),
        res[i].active,
        res[i].expires_at >= now.secs,
{
    let p = live_in_group(group_id, now.secs);
    let out = choose|out: Seq<ListenerView>| #[trigger]
        t.lists_group(out, group_id, now.secs) && res == out.map_values(shown(now));
    filtered_row(out, t.listeners, p, i);
}

/// Every listener that is to be polled is active and not expired.
pub proof fn polled_listeners_are_live(
    t: TablesView,
    res: Seq<MatchListenerView>,
    now: UtcTime,
    i: int,
)
    requires
        t.shows_polling(res, now),
        0 <= i < res.len(),
    ensures
        res[i].active,
        res[i].expires_at >= now.secs,
{
    let p = live_at(now.secs);
    let out = choose|out: Seq<ListenerView>| #[trigger]
        t.lists_polling(out, now.secs) && res == out.map_values(shown(now));
    filtered_row(out, t.listeners, p, i);
}

/// A row of a reordered selection satisfies the selection.
proof fn filtered_row(
    out: Seq<ListenerView>,
    s: Seq<ListenerView>,
    p: spec_fn(ListenerView) -> bool,
    i: int,
)
    requires
        out.to_multiset() == s.filter(p).to_multiset(),
        0 <= i < out.len(),
    ensures
        p(out[i]),
{
    broadcast use vstd::seq_lib::group_to_multiset_ensures;

    assert(out.contains(out[i]));
    assert(s.filter(p).to_multiset().count(out[i]) > 0);
    assert(s.filter(p).contains(out[i]));
    filter_holds(s, p);
    let k = choose|k: int| 0 <= k < s.filter(p).len() && s.filter(p)[k] == out[i];
    assert(p(s.filter(p)[k]));
}

/// What is shown of a group at an instant, and what is to be polled, is determined: no two lists
/// fit.
pub proof fn listings_are_determined(
    t: TablesView,
    a: Seq<MatchListenerView>,
    b: Seq<MatchListenerView>,
    group_id: i64,
    now: UtcTime,
)
    ensures
        t.shows_group(a, group_id, now) && t.shows_group(b, group_id, now) ==> a == b,
        t.shows_polling(a, now) && t.shows_polling(b, now) ==> a == b,
{
    if t.shows_group(a, group_id, now) && t.shows_group(b, group_id, now) {
        let x = choose|x: Seq<ListenerView>| #[trigger]
            t.lists_group(x, group_id, now.secs) && a == x.map_values(shown(now));
        let y = choose|y: Seq<ListenerView>| #[trigger]
            t.lists_group(y, group_id, now.secs) && b == y.map_values(shown(now));
        assert forall|l: ListenerView, m: ListenerView| #[trigger] older()(l, m) implies !older()(
            m,
            l,
        ) by {
            text_lt_asymmetric(l.created_at, m.created_at);
        }
        sorts_unique(x, y, t.listeners.filter(live_in_group(group_id, now.secs)), older());
    }
    if t.shows_polling(a, now) && t.shows_polling(b, now) {
        let x = choose|x: Seq<ListenerView>| #[trigger]
            t.lists_polling(x, now.secs) && a == x.map_values(shown(now));
        let y = choose|y: Seq<ListenerView>| #[trigger]
            t.lists_polling(y, now.secs) && b == y.map_values(shown(now));
        assert forall|l: ListenerView, m: ListenerView| #[trigger]
            polled_before()(l, m) implies !polled_before()(m, l) by {
            text_lt_asymmetric(last_told(l), last_told(m));
        }
        sorts_unique(x, y, t.listeners.filter(live_at(now.secs)), polled_before());
    }
}

/// Of two texts at most one comes before the other, and of equal texts none.
proof fn text_lt_asymmetric(a: Seq<char>, b: Seq<char>)
    ensures
        !(text_lt(a, b) && text_lt(b, a)),
        a == b ==> !text_lt(a, b),
{
    text_lt_irreflexive(a);
    if text_lt(a, b) && text_lt(b, a) {
        text_lt_transitive(a, b, a);
    }
}

/// A new listener that has not expired is one more for its group, and none more for any other.
pub proof fn new_listener_counts_once(
    t: TablesView,
    params: MatchListenerStartParams,
    group_id: i64,
    now: UtcTime,
    other: i64,
)
    requires
        t.listener(params.match_id, group_id) is None,
        params.expires_at >= now.secs,
        other != group_id,
    ensures
        t.started(params, group_id, now).listeners.filter(live_in_group(group_id, now.secs)).len()
            == t.listeners.filter(live_in_group(group_id, now.secs)).len() + 1,
        t.started(params, group_id, now).listeners.filter(live_in_group(other, now.secs))
            == t.listeners.filter(live_in_group(other, now.secs)),
{
    let row = fresh(params, group_id, now);
    filter_push(t.listeners, row, live_in_group(group_id, now.secs));
    filter_push(t.listeners, row, live_in_group(other, now.secs));
}

} // verus!
