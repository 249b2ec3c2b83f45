//! Match listeners: starting, stopping, listing, counting, and how far they have told.
use crate::calls::plain::{
    comes_before, first_place, instants_are_texts, read_instant,
    texts_are_compared_by_first_difference, written,
};
use crate::listeners::{
    active_in_group, active_listens, expired, last_told, listens, live_at, live_for_user,
    live_in_group, older, polled_before, row_to_match_listener, shown, MatchListener,
    MatchListenerStartParams,
};
use crate::rows::{ListenerRow, ListenerView, TablesView};
use crate::storage::Storage;
use crate::table::{filter_contains, first_where, pairwise, views};
use crate::time::UtcTime;
use crate::types::{NotificationChannel, StorageError};
use vstd::prelude::*;

verus! {

broadcast use crate::storage::wf_tables;

/// The row is that of the match in the group.
pub open spec fn is_for(l: ListenerView, match_id: i64, group_id: i64) -> bool {
    l.match_id == match_id && l.group_id == group_id
}

/// The row is active, and its last second is the timestamp or later.
pub open spec fn runs(l: ListenerView, ts: i64) -> bool {
    l.active == 1 && ts <= l.expires_at
}

/// The row is as the listener was started.
pub open spec fn as_started(
    l: ListenerView,
    params: MatchListenerStartParams,
    group_id: i64,
) -> bool {
    &&& is_for(l, params.match_id, group_id)
    &&& l.creator_qq == params.creator_qq
    &&& l.match_name == params.match_name@
    &&& l.expires_at == params.expires_at
    &&& l.active == 1
    &&& l.user_id == params.user_id
    &&& l.notification_type == params.notification_type@
}

/// The row has told nothing yet and runs since the instant.
pub open spec fn starts_afresh(
    l: ListenerView,
    params: MatchListenerStartParams,
    now: UtcTime,
) -> bool {
    &&& l.created_at == written(now)
    &&& l.last_event_id == params.initial_last_event_id
    &&& l.last_notified_event_id == params.initial_last_notified_event_id
    &&& l.pending_game_event_id is None
    &&& l.last_notified_at is None
}

/// The row has told as far as another, and runs since when the other did.
pub open spec fn goes_on(l: ListenerView, was: ListenerView) -> bool {
    &&& l.created_at == was.created_at
    &&& l.last_event_id == was.last_event_id
    &&& l.last_notified_event_id == was.last_notified_event_id
    &&& l.pending_game_event_id == was.pending_game_event_id
    &&& l.last_notified_at == was.last_notified_at
}

/// The row of the match in the group is as started; one that was running goes on, any other starts
/// afresh, and where there was none it is added. Every other row stays in its place, and so does all
/// else.
pub open spec fn started_rightly(
    before: TablesView,
    after: TablesView,
    params: MatchListenerStartParams,
    group_id: i64,
    now: UtcTime,
) -> bool {
    let (a, b) = (before.listeners, after.listeners);
    let there = exists|i: int|
        0 <= i < a.len() && is_for(#[trigger] a[i], params.match_id, group_id);
    &&& after == (TablesView { listeners: b, ..before })
    &&& there ==> b.len() == a.len()
    &&& !there ==> b.len() == a.len() + 1 && as_started(b.last(), params, group_id)
        && starts_afresh(b.last(), params, now)
    &&& forall|i: int|
        0 <= i < a.len() ==> if is_for(a[i], params.match_id, group_id) {
            &&& as_started(#[trigger] b[i], params, group_id)
            &&& runs(a[i], now.secs) ==> goes_on(b[i], a[i])
            &&& !runs(a[i], now.secs) ==> starts_afresh(b[i], params, now)
        } else {
            b[i] == a[i]
        }
}

proof fn started(t: TablesView, params: MatchListenerStartParams, group_id: i64, now: UtcTime)
    ensures
        started_rightly(t, t.started(params, group_id, now), params, group_id, now),
{
    let a = t.listeners;
    let p = listens(params.match_id, group_id);
    let k = first_place(a, p);
    assert forall|i: int|
        0 <= i < a.len() && is_for(#[trigger] a[i], params.match_id, group_id) implies t.listener(
        params.match_id,
        group_id,
    ) is Some by {
        assert(p(a[i]));
    }
    if t.listener(params.match_id, group_id) is Some {
        assert(is_for(a[k], params.match_id, group_id));
    }
}

/// A listener is started at the instant that is given, and refused without a group.
pub proof fn listener_is_started(
    s: &mut Storage,
    params: MatchListenerStartParams,
    now: UtcTime,
    res: Result<(), StorageError>,
)
    requires
        call_ensures(Storage::start_match_listener_at, (s, params, now), res),
    ensures
        params.group_id matches Some(group_id) ==> res == Ok::<(), StorageError>(())
            && started_rightly(old(s)@, final(s)@, params, group_id, now),
        params.group_id is None ==> res == Err::<(), StorageError>(StorageError::MissingGroup)
            && final(s)@ == old(s)@,
{
    if params.group_id is Some {
        started(old(s)@, params, params.group_id->0, now);
    }
}

/// The same by the clock.
pub proof fn listener_is_started_now(
    s: &mut Storage,
    params: MatchListenerStartParams,
    res: Result<(), StorageError>,
)
    requires
        call_ensures(Storage::start_match_listener, (s, params), res),
    ensures
        params.group_id matches Some(group_id) ==> res == Ok::<(), StorageError>(()) && exists|
            now: UtcTime,
        | #[trigger]
            now.shown_by_clock() && started_rightly(old(s)@, final(s)@, params, group_id, now),
        params.group_id is None ==> res == Err::<(), StorageError>(StorageError::MissingGroup)
            && final(s)@ == old(s)@,
{
    if params.group_id is Some {
        let group_id = params.group_id->0;
        let now = choose|now: UtcTime|
            now.shown_by_clock() && final(s)@ == #[trigger] old(s)@.started(params, group_id, now);
        started(old(s)@, params, group_id, now);
        assert(now.shown_by_clock() && started_rightly(old(s)@, final(s)@, params, group_id, now));
    }
}

/// The rows at which `p` holds are not active, and as before otherwise; all other rows, and all
/// else, are as before.
pub open spec fn stopped_where(
    before: TablesView,
    after: TablesView,
    p: spec_fn(ListenerView) -> bool,
) -> bool {
    let (a, b) = (before.listeners, after.listeners);
    &&& after == (TablesView { listeners: b, ..before })
    &&& b.len() == a.len()
    &&& forall|i: int|
        0 <= i < a.len() ==> (#[trigger] b[i]) == if p(a[i]) {
            ListenerView { active: 0, ..a[i] }
        } else {
            a[i]
        }
}

/// Stopping a listener makes it inactive and no other, and says whether it was active.
pub proof fn listener_is_stopped(s: &mut Storage, match_id: i64, group_id: i64, res: bool)
    requires
        call_ensures(Storage::stop_match_listener, (s, match_id, group_id), res),
    ensures
        stopped_where(
            old(s)@,
            final(s)@,
            |l: ListenerView| is_for(l, match_id, group_id) && l.active == 1,
        ),
        res <==> exists|i: int|
            0 <= i < old(s)@.listeners.len() && is_for(
                #[trigger] old(s)@.listeners[i],
                match_id,
                group_id,
            ) && old(s)@.listeners[i].active == 1,
{
    let a = old(s)@.listeners;
    let p = active_listens(match_id, group_id);
    let k = first_place(a, p);
    assert forall|i: int|
        0 <= i < a.len() && is_for(#[trigger] a[i], match_id, group_id) && a[i].active
            == 1 implies first_where(a, p) is Some by {
        assert(p(a[i]));
    }
    if first_where(a, p) is Some {
        assert(is_for(a[k], match_id, group_id));
    }
}

/// Stopping the listeners of a group makes every active one inactive and no other, and counts them.
pub proof fn group_is_stopped(s: &mut Storage, group_id: i64, res: u64)
    requires
        call_ensures(Storage::stop_all_match_listeners_in_group, (s, group_id), res),
    ensures
        stopped_where(
            old(s)@,
            final(s)@,
            |l: ListenerView| l.group_id == group_id && l.active == 1,
        ),
        res == old(s)@.listeners.filter(
            |l: ListenerView| l.group_id == group_id && l.active == 1,
        ).len(),
{
    assert(active_in_group(group_id) =~= (|l: ListenerView|
        l.group_id == group_id && l.active == 1));
}

/// Expiring makes every active listener inactive whose last second is before the timestamp, and no
/// other, and counts them.
pub proof fn expired_listeners_are_stopped(s: &mut Storage, now: i64, res: u64)
    requires
        call_ensures(Storage::expire_old_match_listeners_at, (s, now), res),
    ensures
        stopped_where(
            old(s)@,
            final(s)@,
            |l: ListenerView| l.active == 1 && l.expires_at < now,
        ),
        res == old(s)@.listeners.filter(
            |l: ListenerView| l.active == 1 && l.expires_at < now,
        ).len(),
{
    assert(expired(now) =~= (|l: ListenerView| l.active == 1 && l.expires_at < now));
}

/// The same by the clock.
pub proof fn expired_listeners_are_stopped_now(s: &mut Storage, res: u64)
    requires
        call_ensures(Storage::expire_old_match_listeners, (s,), res),
    ensures
        exists|now: UtcTime| #[trigger]
            now.shown_by_clock() && stopped_where(
                old(s)@,
                final(s)@,
                |l: ListenerView| l.active == 1 && l.expires_at < now.secs,
            ) && res == old(s)@.listeners.filter(
                |l: ListenerView| l.active == 1 && l.expires_at < now.secs,
            ).len(),
{
    let now = choose|now: UtcTime|
        now.shown_by_clock() && final(s)@ == old(s)@.listeners_updated(
            #[trigger] expired(now.secs),
            crate::listeners::stopped(),
        ) && res == old(s)@.listeners.filter(expired(now.secs)).len();
    assert(expired(now.secs) =~= (|l: ListenerView| l.active == 1 && l.expires_at < now.secs));
    assert(now.shown_by_clock());
}

/// The listener shows each column of the row under its own name; an instant whose text cannot be
/// read is shown as `now`.
pub open spec fn shows(found: MatchListener, l: ListenerView, now: UtcTime) -> bool {
    &&& found.match_id == l.match_id
    &&& found.group_id == Some(l.group_id)
    &&& found.user_id == l.user_id
    &&& found.notification_type@ == l.notification_type
    &&& found.creator_qq == l.creator_qq
    &&& found.match_name@ == l.match_name
    &&& found.last_event_id == l.last_event_id
    &&& found.last_notified_event_id == l.last_notified_event_id
    &&& found.pending_game_event_id == l.pending_game_event_id
    &&& shows_instant(found.created_at, l.created_at, now)
    &&& found.expires_at == l.expires_at
    &&& found.active <==> l.active != 0
    &&& found.last_notified_at is Some <==> l.last_notified_at is Some
    &&& l.last_notified_at matches Some(text) ==> shows_instant(
        found.last_notified_at->0,
        text,
        now,
    )
}

/// The instant is what is read from the text, or `now` where nothing is.
pub open spec fn shows_instant(t: UtcTime, text: Seq<char>, now: UtcTime) -> bool {
    (read_instant(text) matches Some(read) ==> t == read) && (read_instant(text) is None ==> t
        == now)
}

proof fn shown_shows(found: MatchListener, l: ListenerView, now: UtcTime)
    requires
        found@ == shown(now)(l),
    ensures
        shows(found, l, now),
{
    instants_are_texts(now, l.created_at, now);
    if l.last_notified_at is Some {
        instants_are_texts(now, l.last_notified_at->0, now);
    }
}

/// A row is shown column by column.
pub proof fn rows_are_shown(l: &ListenerRow, now: UtcTime, res: MatchListener)
    requires
        call_ensures(row_to_match_listener, (l, now), res),
    ensures
        shows(res, l@, now),
{
    shown_shows(res, l@, now);
}

/// A listener tells in private where its text says so, and else its group.
pub proof fn channel_is_the_rows(l: &MatchListener, res: NotificationChannel)
    requires
        call_ensures(MatchListener::notification_channel, (l,), res),
    ensures
        res == NotificationChannel::Private <==> l.notification_type@ == "private"@,
{
}

/// `res` shows the row of the match in the group, and none exactly where there is no such row.
pub open spec fn listener_found_rightly(
    t: TablesView,
    match_id: i64,
    group_id: i64,
    now: UtcTime,
    res: Option<MatchListener>,
) -> bool {
    &&& res is None <==> forall|i: int|
        0 <= i < t.listeners.len() ==> !is_for(#[trigger] t.listeners[i], match_id, group_id)
    &&& res matches Some(found) ==> exists|i: int|
        0 <= i < t.listeners.len() && is_for(#[trigger] t.listeners[i], match_id, group_id)
            && shows(found, t.listeners[i], now)
}

/// The listener of a match in a group is found, at an instant that is given or that the clock
/// shows.
pub proof fn listener_is_found(
    s: &Storage,
    match_id: i64,
    group_id: i64,
    now: UtcTime,
    res: Option<MatchListener>,
    by_clock: Option<MatchListener>,
)
    requires
        call_ensures(Storage::get_match_listener_at, (s, match_id, group_id, now), res),
        call_ensures(Storage::get_match_listener, (s, match_id, group_id), by_clock),
    ensures
        listener_found_rightly(s@, match_id, group_id, now, res),
        by_clock is Some ==> exists|read: UtcTime| #[trigger]
            read.shown_by_clock() && listener_found_rightly(
                s@,
                match_id,
                group_id,
                read,
                by_clock,
            ),
        by_clock is None <==> res is None,
{
    let a = s@.listeners;
    let p = listens(match_id, group_id);
    let k = first_place(a, p);
    assert forall|i: int|
        0 <= i < a.len() && is_for(#[trigger] a[i], match_id, group_id) implies first_where(a, p)
        is Some by {
        assert(p(a[i]));
    }
    if first_where(a, p) is Some {
        let l = a[k];
        assert(is_for(a[k], match_id, group_id));
        shown_shows(res->0, l, now);
        let read = choose|read: UtcTime|
            read.shown_by_clock() && (by_clock matches Some(found) && found@ == #[trigger] shown(
                read,
            )(l));
        shown_shows(by_clock->0, l, read);
        assert(read.shown_by_clock() && listener_found_rightly(
            s@,
            match_id,
            group_id,
            read,
            by_clock,
        ));
    }
}

/// `res` shows exactly the rows of `live`, each once, ordered by `lt`.
pub open spec fn lists(
    res: Seq<MatchListener>,
    live: Seq<ListenerView>,
    lt: spec_fn(ListenerView, ListenerView) -> bool,
    now: UtcTime,
) -> bool {
    exists|out: Seq<ListenerView>|
        #![trigger out.to_multiset()]
        {
            &&& out.to_multiset() == live.to_multiset()
            &&& pairwise(out, lt)
            &&& res.len() == out.len()
            &&& forall|i: int| 0 <= i < res.len() ==> shows(#[trigger] res[i], out[i], now)
        }
}

/// One listener was started before another; of those started together, the smaller match is first.
pub open spec fn started_before() -> spec_fn(ListenerView, ListenerView) -> bool {
    |a: ListenerView, b: ListenerView|
        comes_before(a.created_at, b.created_at) || (a.created_at == b.created_at && a.match_id
            < b.match_id)
}

/// What was last heard of the listener: when it last told, or when it was started.
pub open spec fn last_heard(l: ListenerView) -> Seq<char> {
    if l.last_notified_at is Some {
        l.last_notified_at->0
    } else {
        l.created_at
    }
}

/// One listener was last heard of before another; of those heard of together, the smaller group is
/// first, and within a group the smaller match.
pub open spec fn silent_longer() -> spec_fn(ListenerView, ListenerView) -> bool {
    |a: ListenerView, b: ListenerView|
        comes_before(last_heard(a), last_heard(b)) || (last_heard(a) == last_heard(b) && (
        a.group_id < b.group_id || (a.group_id == b.group_id && a.match_id < b.match_id)))
}

/// `res` shows the running listeners of the group.
pub open spec fn group_rightly(
    t: TablesView,
    res: Seq<MatchListener>,
    group_id: i64,
    now: UtcTime,
) -> bool {
    lists(
        res,
        t.listeners.filter(|l: ListenerView| l.group_id == group_id && runs(l, now.secs)),
        started_before(),
        now,
    )
}

/// `res` shows the running listeners.
pub open spec fn polling_rightly(t: TablesView, res: Seq<MatchListener>, now: UtcTime) -> bool {
    lists(res, t.listeners.filter(|l: ListenerView| runs(l, now.secs)), silent_longer(), now)
}

proof fn listed(
    res: Vec<MatchListener>,
    out: Seq<ListenerView>,
    live: Seq<ListenerView>,
    lt: spec_fn(ListenerView, ListenerView) -> bool,
    now: UtcTime,
)
    requires
        views(res@) == out.map_values(shown(now)),
        out.to_multiset() == live.to_multiset(),
        pairwise(out, lt),
    ensures
        lists(res@, live, lt, now),
{
    assert(views(res@).len() == res@.len());
    assert forall|i: int| 0 <= i < res@.len() implies shows(#[trigger] res@[i], out[i], now) by {
        assert(views(res@)[i] == res@[i]@);
        shown_shows(res@[i], out[i], now);
    }
    assert(out.to_multiset() == live.to_multiset());
}

proof fn group_listed(t: TablesView, res: Vec<MatchListener>, group_id: i64, now: UtcTime)
    requires
        t.shows_group(views(res@), group_id, now),
    ensures
        group_rightly(t, res@, group_id, now),
{
    let p = |l: ListenerView| l.group_id == group_id && runs(l, now.secs);
    assert(p =~= live_in_group(group_id, now.secs));
    assert forall|a: ListenerView, b: ListenerView| #[trigger]
        older()(a, b) == started_before()(a, b) by {
        texts_are_compared_by_first_difference(a.created_at, b.created_at);
    }
    let out = choose|out: Seq<ListenerView>| #[trigger]
        t.lists_group(out, group_id, now.secs) && views(res@) == out.map_values(shown(now));
    assert forall|i: int, j: int|
        #![trigger out[i], out[j]]
        0 <= i < j < out.len() implies started_before()(out[i], out[j]) by {
        assert(older()(out[i], out[j]));
    }
    listed(res, out, t.listeners.filter(p), started_before(), now);
}

proof fn polling_listed(t: TablesView, res: Vec<MatchListener>, now: UtcTime)
    requires
        t.shows_polling(views(res@), now),
    ensures
        polling_rightly(t, res@, now),
{
    let p = |l: ListenerView| runs(l, now.secs);
    assert(p =~= live_at(now.secs));
    assert forall|a: ListenerView, b: ListenerView| #[trigger]
        polled_before()(a, b) == silent_longer()(a, b) by {
        assert(last_told(a) == last_heard(a) && last_told(b) == last_heard(b));
        texts_are_compared_by_first_difference(last_heard(a), last_heard(b));
    }
    let out = choose|out: Seq<ListenerView>| #[trigger]
        t.lists_polling(out, now.secs) && views(res@) == out.map_values(shown(now));
    assert forall|i: int, j: int|
        #![trigger out[i], out[j]]
        0 <= i < j < out.len() implies silent_longer()(out[i], out[j]) by {
        assert(polled_before()(out[i], out[j]));
    }
    listed(res, out, t.listeners.filter(p), silent_longer(), now);
}

/// A group is shown exactly its running listeners, by start, at an instant that is given or that
/// the clock shows.
pub proof fn group_is_shown_what_runs(
    s: &Storage,
    group_id: i64,
    now: UtcTime,
    res: Vec<MatchListener>,
    by_clock: Vec<MatchListener>,
)
    requires
        call_ensures(Storage::list_active_match_listeners_by_group_at, (s, group_id, now), res),
        call_ensures(Storage::list_active_match_listeners_by_group, (s, group_id), by_clock),
    ensures
        group_rightly(s@, res@, group_id, now),
        exists|read: UtcTime| #[trigger]
            read.shown_by_clock() && group_rightly(s@, by_clock@, group_id, read),
{
    group_listed(s@, res, group_id, now);
    let read = choose|read: UtcTime|
        read.shown_by_clock() && #[trigger] s@.shows_group(views(by_clock@), group_id, read);
    group_listed(s@, by_clock, group_id, read);
    assert(read.shown_by_clock() && group_rightly(s@, by_clock@, group_id, read));
}

/// Exactly the running listeners are polled, whatever they have told or wait for, those first that
/// have been silent for longest, at an instant that is given or that the clock shows.
pub proof fn what_runs_is_polled(
    s: &Storage,
    now: UtcTime,
    res: Vec<MatchListener>,
    by_clock: Vec<MatchListener>,
)
    requires
        call_ensures(Storage::list_active_match_listeners_due_for_polling_at, (s, now), res),
        call_ensures(Storage::list_active_match_listeners_due_for_polling, (s,), by_clock),
    ensures
        polling_rightly(s@, res@, now),
        exists|read: UtcTime| #[trigger]
            read.shown_by_clock() && polling_rightly(s@, by_clock@, read),
{
    polling_listed(s@, res, now);
    let read = choose|read: UtcTime|
        read.shown_by_clock() && #[trigger] s@.shows_polling(views(by_clock@), read);
    polling_listed(s@, by_clock, read);
    assert(read.shown_by_clock() && polling_rightly(s@, by_clock@, read));
}

/// As many listeners are polled as there are rows that are active and expire at the instant or
/// later, and every such row is among those that are polled.
pub proof fn every_running_listener_is_polled(
    s: &Storage,
    now: UtcTime,
    res: Vec<MatchListener>,
    i: int,
)
    requires
        call_ensures(Storage::list_active_match_listeners_due_for_polling_at, (s, now), res),
        0 <= i < s@.listeners.len(),
        s@.listeners[i].active == 1,
        now.secs <= s@.listeners[i].expires_at,
    ensures
        res@.len() == s@.listeners.filter(
            |l: ListenerView| l.active == 1 && l.expires_at >= now.secs,
        ).len(),
        exists|k: int| 0 <= k < res@.len() && shows(#[trigger] res@[k], s@.listeners[i], now),
{
    broadcast use vstd::seq_lib::group_to_multiset_ensures;

    polling_listed(s@, res, now);
    let p = |l: ListenerView| runs(l, now.secs);
    assert(p =~= (|l: ListenerView| l.active == 1 && l.expires_at >= now.secs));
    let live = s@.listeners.filter(p);
    let out = choose|out: Seq<ListenerView>|
        #![trigger out.to_multiset()]
        {
            &&& out.to_multiset() == live.to_multiset()
            &&& pairwise(out, silent_longer())
            &&& res@.len() == out.len()
            &&& forall|i: int| 0 <= i < res@.len() ==> shows(#[trigger] res@[i], out[i], now)
        };
    assert(out.to_multiset().len() == live.to_multiset().len());
    let l = s@.listeners[i];
    assert(s@.listeners.contains(l));
    filter_contains(s@.listeners, p, l);
    assert(live.contains(l));
    assert(out.to_multiset().count(l) > 0);
    assert(out.contains(l));
    let k = choose|k: int| 0 <= k < out.len() && out[k] == l;
    assert(shows(res@[k], out[k], now));
}

/// The row of the match in the group has the given progress, and when it last told is `told` where
/// one is given; the rest of the row, every other row and all else are as before.
pub open spec fn progress_rightly(
    before: TablesView,
    after: TablesView,
    match_id: i64,
    group_id: i64,
    last_event_id: Option<i64>,
    last_notified_event_id: Option<i64>,
    pending_game_event_id: Option<i64>,
    told: Option<UtcTime>,
) -> bool {
    let (a, b) = (before.listeners, after.listeners);
    &&& after == (TablesView { listeners: b, ..before })
    &&& b.len() == a.len()
    &&& forall|i: int|
        0 <= i < a.len() ==> if is_for(a[i], match_id, group_id) {
            &&& (#[trigger] b[i]).last_event_id == last_event_id
            &&& b[i].last_notified_event_id == last_notified_event_id
            &&& b[i].pending_game_event_id == pending_game_event_id
            &&& told matches Some(t) ==> b[i].last_notified_at == Some(written(t))
            &&& told is None ==> b[i].last_notified_at == a[i].last_notified_at
            &&& b[i] == (ListenerView {
                last_event_id,
                last_notified_event_id,
                pending_game_event_id,
                last_notified_at: b[i].last_notified_at,
                ..a[i]
            })
        } else {
            b[i] == a[i]
        }
}

/// There is a row of the match in the group.
pub open spec fn is_there(t: TablesView, match_id: i64, group_id: i64) -> bool {
    exists|i: int|
        0 <= i < t.listeners.len() && is_for(#[trigger] t.listeners[i], match_id, group_id)
}

proof fn there(t: TablesView, match_id: i64, group_id: i64)
    ensures
        t.listener(match_id, group_id) is Some <==> is_there(t, match_id, group_id),
{
    let a = t.listeners;
    let p = listens(match_id, group_id);
    let k = first_place(a, p);
    if t.listener(match_id, group_id) is Some {
        assert(is_for(a[k], match_id, group_id));
    }
    if is_there(t, match_id, group_id) {
        let i = choose|i: int| 0 <= i < a.len() && is_for(#[trigger] a[i], match_id, group_id);
        assert(p(a[i]));
    }
}

/// Progress is noted of the listener, with the instant that is given, and it is said whether there
/// is one.
pub proof fn progress_is_noted(
    s: &mut Storage,
    match_id: i64,
    group_id: i64,
    last_event_id: Option<i64>,
    last_notified_event_id: Option<i64>,
    pending_game_event_id: Option<i64>,
    told: Option<UtcTime>,
    res: bool,
)
    requires
        call_ensures(
            Storage::update_match_listener_progress_at,
            (
                s,
                match_id,
                group_id,
                last_event_id,
                last_notified_event_id,
                pending_game_event_id,
                told,
            ),
            res,
        ),
    ensures
        progress_rightly(
            old(s)@,
            final(s)@,
            match_id,
            group_id,
            last_event_id,
            last_notified_event_id,
            pending_game_event_id,
            told,
        ),
        res == is_there(old(s)@, match_id, group_id),
{
    there(old(s)@, match_id, group_id);
}

/// The same by the clock, where the time is to be noted.
pub proof fn progress_is_noted_now(
    s: &mut Storage,
    match_id: i64,
    group_id: i64,
    last_event_id: Option<i64>,
    last_notified_event_id: Option<i64>,
    pending_game_event_id: Option<i64>,
    touch: bool,
    res: bool,
)
    requires
        call_ensures(
            Storage::update_match_listener_progress,
            (
                s,
                match_id,
                group_id,
                last_event_id,
                last_notified_event_id,
                pending_game_event_id,
                touch,
            ),
            res,
        ),
    ensures
        !touch ==> progress_rightly(
            old(s)@,
            final(s)@,
            match_id,
            group_id,
            last_event_id,
            last_notified_event_id,
            pending_game_event_id,
            None,
        ),
        touch ==> exists|now: UtcTime| #[trigger]
            now.shown_by_clock() && progress_rightly(
                old(s)@,
                final(s)@,
                match_id,
                group_id,
                last_event_id,
                last_notified_event_id,
                pending_game_event_id,
                Some(now),
            ),
        res == is_there(old(s)@, match_id, group_id),
{
    there(old(s)@, match_id, group_id);
    if touch {
        let now = choose|now: UtcTime|
            now.shown_by_clock() && final(s)@ == old(s)@.with_progress(
                match_id,
                group_id,
                last_event_id,
                last_notified_event_id,
                pending_game_event_id,
                Some(#[trigger] now.text()),
            );
        assert(now.shown_by_clock() && progress_rightly(
            old(s)@,
            final(s)@,
            match_id,
            group_id,
            last_event_id,
            last_notified_event_id,
            pending_game_event_id,
            Some(now),
        ));
    }
}

/// How many listeners of the group run.
pub open spec fn running_in_group(t: TablesView, group_id: i64, ts: i64) -> nat {
    t.listeners.filter(|l: ListenerView| l.group_id == group_id && runs(l, ts)).len()
}

/// How many listeners run that tell the user in private.
pub open spec fn running_for_user(t: TablesView, user_id: i64, ts: i64) -> nat {
    t.listeners.filter(
        |l: ListenerView|
            l.user_id == Some(user_id) && l.notification_type == "private"@ && runs(l, ts),
    ).len()
}

proof fn running(t: TablesView, id: i64, ts: i64)
    ensures
        t.listeners.filter(live_in_group(id, ts)).len() == running_in_group(t, id, ts),
        t.listeners.filter(live_for_user(id, ts)).len() == running_for_user(t, id, ts),
{
    assert(live_in_group(id, ts) =~= (|l: ListenerView| l.group_id == id && runs(l, ts)));
    assert(live_for_user(id, ts) =~= (|l: ListenerView|
        l.user_id == Some(id) && l.notification_type == "private"@ && runs(l, ts)));
}

/// Running listeners are counted for a group and for a user, and the limit of a group is reached
/// from that count on, at a timestamp that is given.
pub proof fn running_listeners_are_counted(
    s: &Storage,
    id: i64,
    limit: u64,
    now: i64,
    of_group: u64,
    of_user: u64,
    reached: bool,
)
    requires
        call_ensures(Storage::count_active_match_listeners_in_group_at, (s, id, now), of_group),
        call_ensures(Storage::count_active_match_listeners_for_user_at, (s, id, now), of_user),
        call_ensures(
            Storage::is_match_listener_group_limit_reached_at,
            (s, id, limit, now),
            reached,
        ),
    ensures
        of_group == running_in_group(s@, id, now),
        of_user == running_for_user(s@, id, now),
        reached <==> limit <= running_in_group(s@, id, now),
{
    running(s@, id, now);
}

/// The same by the clock.
pub proof fn running_listeners_are_counted_now(
    s: &Storage,
    id: i64,
    limit: u64,
    of_group: u64,
    of_user: u64,
    reached: bool,
)
    requires
        call_ensures(Storage::count_active_match_listeners_in_group, (s, id), of_group),
        call_ensures(Storage::count_active_match_listeners_for_user, (s, id), of_user),
        call_ensures(Storage::is_match_listener_group_limit_reached, (s, id, limit), reached),
    ensures
        exists|now: UtcTime| #[trigger]
            now.shown_by_clock() && of_group == running_in_group(s@, id, now.secs),
        exists|now: UtcTime| #[trigger]
            now.shown_by_clock() && of_user == running_for_user(s@, id, now.secs),
        exists|now: UtcTime| #[trigger]
            now.shown_by_clock() && (reached <==> limit <= running_in_group(s@, id, now.secs)),
{
    let a = choose|now: UtcTime|
        now.shown_by_clock() && of_group == s@.listeners.filter(
            #[trigger] live_in_group(id, now.secs),
        ).len();
    running(s@, id, a.secs);
    assert(a.shown_by_clock() && of_group == running_in_group(s@, id, a.secs));
    let b = choose|now: UtcTime|
        now.shown_by_clock() && of_user == s@.listeners.filter(
            #[trigger] live_for_user(id, now.secs),
        ).len();
    running(s@, id, b.secs);
    assert(b.shown_by_clock() && of_user == running_for_user(s@, id, b.secs));
    let c = choose|now: UtcTime|
        now.shown_by_clock() && reached == (s@.listeners.filter(
            #[trigger] live_in_group(id, now.secs),
        ).len() >= limit);
    running(s@, id, c.secs);
    assert(c.shown_by_clock() && (reached <==> limit <= running_in_group(s@, id, c.secs)));
}

} // verus!
