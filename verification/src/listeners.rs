//! Listeners of multiplayer matches: who hears of which match, and how far it has been told.
use crate::rows::{other_listener, ListenerRow, ListenerView, TablesView};
use crate::storage::Storage;
use crate::table::{
    count_where, either_before, filter_all, filter_pairwise, first_where, pairwise, position_where,
    select_where, sort_rows, sorts, transitive, update_pairwise, update_rows, update_where, views,
};
use crate::text::{text_eq, text_less, text_lt, text_lt_total, text_lt_transitive};
use crate::time::{instant_or, utc_now, UtcTime};
use crate::types::{channel_of, NotificationChannel, StorageError};
use vstd::prelude::*;

verus! {

broadcast use crate::storage::group_storage;

/// A listener as callers see it.
#[derive(Clone, Debug, PartialEq, Eq)]
pub struct MatchListener {
    pub match_id: i64,
    pub group_id: Option<i64>,
    pub user_id: Option<i64>,
    pub notification_type: String,
    pub creator_qq: i64,
    pub match_name: String,
    pub last_event_id: Option<i64>,
    pub last_notified_event_id: Option<i64>,
    pub pending_game_event_id: Option<i64>,
    pub created_at: UtcTime,
    pub expires_at: i64,
    pub active: bool,
    pub last_notified_at: Option<UtcTime>,
}

pub struct MatchListenerView {
    pub match_id: i64,
    pub group_id: Option<i64>,
    pub user_id: Option<i64>,
    pub notification_type: Seq<char>,
    pub creator_qq: i64,
    pub match_name: Seq<char>,
    pub last_event_id: Option<i64>,
    pub last_notified_event_id: Option<i64>,
    pub pending_game_event_id: Option<i64>,
    pub created_at: UtcTime,
    pub expires_at: i64,
    pub active: bool,
    pub last_notified_at: Option<UtcTime>,
}

impl View for MatchListener {
    type V = MatchListenerView;

    open spec fn view(&self) -> MatchListenerView {
        MatchListenerView {
            match_id: self.match_id,
            group_id: self.group_id,
            user_id: self.user_id,
            notification_type: self.notification_type@,
            creator_qq: self.creator_qq,
            match_name: self.match_name@,
            last_event_id: self.last_event_id,
            last_notified_event_id: self.last_notified_event_id,
            pending_game_event_id: self.pending_game_event_id,
            created_at: self.created_at,
            expires_at: self.expires_at,
            active: self.active,
            last_notified_at: self.last_notified_at,
        }
    }
}

impl MatchListener {
    /// How the listener tells of what happens.
    pub fn notification_channel(&self) -> (res: NotificationChannel)
        ensures
            res == channel_of(self.notification_type@),
    {
        NotificationChannel::try_from_str(self.notification_type.as_str())
    }
}

/// What a listener is started with.
#[derive(Clone, Debug)]
pub struct MatchListenerStartParams {
    pub match_id: i64,
    pub group_id: Option<i64>,
    pub user_id: Option<i64>,
    pub notification_type: String,
    pub creator_qq: i64,
    pub match_name: String,
    pub expires_at: i64,
    pub initial_last_event_id: Option<i64>,
    pub initial_last_notified_event_id: Option<i64>,
}

/// The listener of a match in a group.
pub open spec fn listens(match_id: i64, group_id: i64) -> spec_fn(ListenerView) -> bool {
    |l: ListenerView| l.match_id == match_id && l.group_id == group_id
}

/// A listener that is active, and expires at `now` or later.
pub open spec fn live(l: ListenerView, now: i64) -> bool {
    l.active == 1 && l.expires_at >= now
}

/// The live listeners.
pub open spec fn live_at(now: i64) -> spec_fn(ListenerView) -> bool {
    |l: ListenerView| live(l, now)
}

/// The live listeners of a group.
pub open spec fn live_in_group(group_id: i64, now: i64) -> spec_fn(ListenerView) -> bool {
    |l: ListenerView| l.group_id == group_id && live(l, now)
}

/// The live listeners that tell a user in private.
pub open spec fn live_for_user(user_id: i64, now: i64) -> spec_fn(ListenerView) -> bool {
    |l: ListenerView|
        l.user_id == Some(user_id) && l.notification_type == "private"@ && live(l, now)
}

/// The listener of a match in a group, if it is active.
pub open spec fn active_listens(match_id: i64, group_id: i64) -> spec_fn(ListenerView) -> bool {
    |l: ListenerView| l.match_id == match_id && l.group_id == group_id && l.active == 1
}

/// The active listeners of a group.
pub open spec fn active_in_group(group_id: i64) -> spec_fn(ListenerView) -> bool {
    |l: ListenerView| l.group_id == group_id && l.active == 1
}

/// The active listeners that have expired before `now`.
pub open spec fn expired(now: i64) -> spec_fn(ListenerView) -> bool {
    |l: ListenerView| l.active == 1 && l.expires_at < now
}

/// Makes a listener inactive.
pub open spec fn stopped() -> spec_fn(ListenerView) -> ListenerView {
    |l: ListenerView| ListenerView { active: 0, ..l }
}

/// The row of a listener that is started at `now` with nothing told yet.
pub open spec fn fresh(
    params: MatchListenerStartParams,
    group_id: i64,
    now: UtcTime,
) -> ListenerView {
    ListenerView {
        match_id: params.match_id,
        group_id,
        creator_qq: params.creator_qq,
        match_name: params.match_name@,
        last_event_id: params.initial_last_event_id,
        last_notified_event_id: params.initial_last_notified_event_id,
        pending_game_event_id: None,
        created_at: now.text(),
        expires_at: params.expires_at,
        active: 1,
        last_notified_at: None,
        user_id: params.user_id,
        notification_type: params.notification_type@,
    }
}

/// A listener started again: one that is still live keeps how far it has told and since when it
/// runs, any other starts afresh.
pub open spec fn restarted(
    params: MatchListenerStartParams,
    group_id: i64,
    now: UtcTime,
) -> spec_fn(ListenerView) -> ListenerView {
    |l: ListenerView|
        {
            let new = fresh(params, group_id, now);
            if live(l, now.secs) {
                ListenerView {
                    created_at: l.created_at,
                    last_event_id: l.last_event_id,
                    last_notified_event_id: l.last_notified_event_id,
                    pending_game_event_id: l.pending_game_event_id,
                    last_notified_at: l.last_notified_at,
                    ..new
                }
            } else {
                new
            }
        }
}

/// A listener that has told as far as given; `notified_at` is when it last told, or `None` to
/// leave that as it was.
pub open spec fn progressed(
    last_event_id: Option<i64>,
    last_notified_event_id: Option<i64>,
    pending_game_event_id: Option<i64>,
    notified_at: Option<Seq<char>>,
) -> spec_fn(ListenerView) -> ListenerView {
    |l: ListenerView|
        ListenerView {
            last_event_id,
            last_notified_event_id,
            pending_game_event_id,
            last_notified_at: match notified_at {
                Some(text) => Some(text),
                None => l.last_notified_at,
            },
            ..l
        }
}

/// What callers see of a row. An instant whose text cannot be read is shown as `now`.
pub open spec fn shown(now: UtcTime) -> spec_fn(ListenerView) -> MatchListenerView {
    |l: ListenerView|
        MatchListenerView {
            match_id: l.match_id,
            group_id: Some(l.group_id),
            user_id: l.user_id,
            notification_type: l.notification_type,
            creator_qq: l.creator_qq,
            match_name: l.match_name,
            last_event_id: l.last_event_id,
            last_notified_event_id: l.last_notified_event_id,
            pending_game_event_id: l.pending_game_event_id,
            created_at: instant_or(l.created_at, now),
            expires_at: l.expires_at,
            active: l.active != 0,
            last_notified_at: match l.last_notified_at {
                Some(text) => Some(instant_or(text, now)),
                None => None,
            },
        }
}

/// The order within a group: by start, then by match.
pub open spec fn older() -> spec_fn(ListenerView, ListenerView) -> bool {
    |a: ListenerView, b: ListenerView|
        text_lt(a.created_at, b.created_at) || (a.created_at == b.created_at && a.match_id
            < b.match_id)
}

/// When the listener last told of something; before that, when it was started.
pub open spec fn last_told(l: ListenerView) -> Seq<char> {
    match l.last_notified_at {
        Some(text) => text,
        None => l.created_at,
    }
}

/// The order of polling: who has been silent for longest, then by group and match.
pub open spec fn polled_before() -> spec_fn(ListenerView, ListenerView) -> bool {
    |a: ListenerView, b: ListenerView|
        text_lt(last_told(a), last_told(b)) || (last_told(a) == last_told(b) && (a.group_id
            < b.group_id || (a.group_id == b.group_id && a.match_id < b.match_id)))
}

impl TablesView {
    /// The listeners, those that satisfy `p` changed by `f`.
    pub open spec fn listeners_updated(
        self,
        p: spec_fn(ListenerView) -> bool,
        f: spec_fn(ListenerView) -> ListenerView,
    ) -> TablesView {
        TablesView { listeners: update_where(self.listeners, p, f), ..self }
    }

    /// The listener of a match in a group.
    pub open spec fn listener(self, match_id: i64, group_id: i64) -> Option<ListenerView> {
        first_where(self.listeners, listens(match_id, group_id))
    }

    /// What starting a listener makes of the tables.
    pub open spec fn started(
        self,
        params: MatchListenerStartParams,
        group_id: i64,
        now: UtcTime,
    ) -> TablesView {
        match self.listener(params.match_id, group_id) {
            Some(_) => self.listeners_updated(
                listens(params.match_id, group_id),
                restarted(params, group_id, now),
            ),
            None => TablesView {
                listeners: self.listeners.push(fresh(params, group_id, now)),
                ..self
            },
        }
    }

    /// `out` is the live listeners of a group, by start.
    pub open spec fn lists_group(
        self,
        out: Seq<ListenerView>,
        group_id: i64,
        now: i64,
    ) -> bool {
        sorts(out, self.listeners.filter(live_in_group(group_id, now)), older())
    }

    /// `out` is the live listeners in the order of polling.
    pub open spec fn lists_polling(self, out: Seq<ListenerView>, now: i64) -> bool {
        sorts(out, self.listeners.filter(live_at(now)), polled_before())
    }

    /// `res` is what callers see at `now` of the live listeners of a group.
    pub open spec fn shows_group(
        self,
        res: Seq<MatchListenerView>,
        group_id: i64,
        now: UtcTime,
    ) -> bool {
        exists|out: Seq<ListenerView>| #[trigger]
            self.lists_group(out, group_id, now.secs) && res == out.map_values(shown(now))
    }

    /// `res` is what callers see at `now` of the listeners to poll.
    pub open spec fn shows_polling(self, res: Seq<MatchListenerView>, now: UtcTime) -> bool {
        exists|out: Seq<ListenerView>| #[trigger]
            self.lists_polling(out, now.secs) && res == out.map_values(shown(now))
    }

    /// What is recorded of a listener's progress.
    pub open spec fn with_progress(
        self,
        match_id: i64,
        group_id: i64,
        last_event_id: Option<i64>,
        last_notified_event_id: Option<i64>,
        pending_game_event_id: Option<i64>,
        notified_at: Option<Seq<char>>,
    ) -> TablesView {
        self.listeners_updated(
            listens(match_id, group_id),
            progressed(
                last_event_id,
                last_notified_event_id,
                pending_game_event_id,
                notified_at,
            ),
        )
    }
}

/// A text that may be missing, copied.
fn copy_text(o: &Option<String>) -> (res: Option<String>)
    ensures
        crate::rows::opt_text(res) == crate::rows::opt_text(*o),
{
    match o {
        Some(s) => Some(s.clone()),
        None => None,
    }
}

/// A row, copied.
fn copy_row(l: &ListenerRow) -> (res: ListenerRow)
    ensures
        res@ == l@,
{
    ListenerRow {
        match_id: l.match_id,
        group_id: l.group_id,
        creator_qq: l.creator_qq,
        match_name: l.match_name.clone(),
        last_event_id: l.last_event_id,
        last_notified_event_id: l.last_notified_event_id,
        pending_game_event_id: l.pending_game_event_id,
        created_at: l.created_at.clone(),
        expires_at: l.expires_at,
        active: l.active,
        last_notified_at: copy_text(&l.last_notified_at),
        user_id: l.user_id,
        notification_type: l.notification_type.clone(),
    }
}

/// A row made inactive.
fn stopped_row(l: &ListenerRow) -> (res: ListenerRow)
    ensures
        res@ == stopped()(l@),
{
    let mut row = copy_row(l);
    row.active = 0;
    row
}

/// The row of a listener that is started at `now` with nothing told yet.
fn fresh_row(
    params: &MatchListenerStartParams,
    group_id: i64,
    now: UtcTime,
    created_at: &str,
) -> (res: ListenerRow)
    requires
        created_at@ == now.text(),
    ensures
        res@ == fresh(*params, group_id, now),
{
    ListenerRow {
        match_id: params.match_id,
        group_id,
        creator_qq: params.creator_qq,
        match_name: params.match_name.clone(),
        last_event_id: params.initial_last_event_id,
        last_notified_event_id: params.initial_last_notified_event_id,
        pending_game_event_id: None,
        created_at: created_at.to_owned(),
        expires_at: params.expires_at,
        active: 1,
        last_notified_at: None,
        user_id: params.user_id,
        notification_type: params.notification_type.clone(),
    }
}

/// A row started again.
fn restarted_row(
    l: &ListenerRow,
    params: &MatchListenerStartParams,
    group_id: i64,
    now: UtcTime,
    created_at: &str,
) -> (res: ListenerRow)
    requires
        created_at@ == now.text(),
    ensures
        res@ == restarted(*params, group_id, now)(l@),
{
    let mut row = fresh_row(params, group_id, now, created_at);
    if l.active == 1 && l.expires_at >= now.secs {
        row.created_at = l.created_at.clone();
        row.last_event_id = l.last_event_id;
        row.last_notified_event_id = l.last_notified_event_id;
        row.pending_game_event_id = l.pending_game_event_id;
        row.last_notified_at = copy_text(&l.last_notified_at);
    }
    row
}

/// Reads a listener from its row. An instant whose text cannot be read is taken to be `now`.
pub fn row_to_match_listener(l: &ListenerRow, now: UtcTime) -> (res: MatchListener)
    ensures
        res@ == shown(now)(l@),
{
    MatchListener {
        match_id: l.match_id,
        group_id: Some(l.group_id),
        user_id: l.user_id,
        notification_type: l.notification_type.clone(),
        creator_qq: l.creator_qq,
        match_name: l.match_name.clone(),
        last_event_id: l.last_event_id,
        last_notified_event_id: l.last_notified_event_id,
        pending_game_event_id: l.pending_game_event_id,
        created_at: UtcTime::parse_or(l.created_at.as_str(), now),
        expires_at: l.expires_at,
        active: l.active != 0,
        last_notified_at: match &l.last_notified_at {
            Some(text) => Some(UtcTime::parse_or(text.as_str(), now)),
            None => None,
        },
    }
}

/// Reads every row.
fn show_all(rows: &Vec<ListenerRow>, now: UtcTime) -> (res: Vec<MatchListener>)
    ensures
        views(res@) == views(rows@).map_values(shown(now)),
{
    let ghost all = |l: ListenerView| true;
    proof {
        filter_all(views(rows@), all);
    }
    select_where(
        rows,
        |l: &ListenerRow| -> (r: bool) ensures r { true },
        |l: &ListenerRow| -> (r: MatchListener)
            ensures r@ == shown(now)(l@) { row_to_match_listener(l, now) },
        Ghost(all),
        Ghost(shown(now)),
    )
}

/// When a row last told of something; before that, when it was started.
fn told(l: &ListenerRow) -> (res: &str)
    ensures
        res@ == last_told(l@),
{
    match &l.last_notified_at {
        Some(text) => text.as_str(),
        None => l.created_at.as_str(),
    }
}

/// The order within a group puts any two listeners of the group one before the other.
proof fn older_is_an_order(s: Seq<ListenerView>, group_id: i64)
    requires
        pairwise(s, other_listener()),
        forall|i: int| 0 <= i < s.len() ==> (#[trigger] s[i]).group_id == group_id,
    ensures
        transitive(older()),
        pairwise(s, either_before(older())),
{
    assert forall|a: ListenerView, b: ListenerView, c: ListenerView| #[trigger]
        older()(a, b) && #[trigger] older()(b, c) implies older()(a, c) by {
        if text_lt(a.created_at, b.created_at) && text_lt(b.created_at, c.created_at) {
            text_lt_transitive(a.created_at, b.created_at, c.created_at);
        }
    }
    assert forall|i: int, j: int| #![trigger s[i], s[j]] 0 <= i < j < s.len() implies either_before(
        older(),
    )(s[i], s[j]) by {
        assert(other_listener()(s[i], s[j]));
        text_lt_total(s[i].created_at, s[j].created_at);
    }
}

/// The order of polling puts any two listeners one before the other.
proof fn polled_before_is_an_order(s: Seq<ListenerView>)
    requires
        pairwise(s, other_listener()),
    ensures
        transitive(polled_before()),
        pairwise(s, either_before(polled_before())),
{
    assert forall|a: ListenerView, b: ListenerView, c: ListenerView| #[trigger]
        polled_before()(a, b) && #[trigger] polled_before()(b, c) implies polled_before()(a, c) by {
        if text_lt(last_told(a), last_told(b)) && text_lt(last_told(b), last_told(c)) {
            text_lt_transitive(last_told(a), last_told(b), last_told(c));
        }
    }
    assert forall|i: int, j: int| #![trigger s[i], s[j]] 0 <= i < j < s.len() implies either_before(
        polled_before(),
    )(s[i], s[j]) by {
        assert(other_listener()(s[i], s[j]));
        text_lt_total(last_told(s[i]), last_told(s[j]));
    }
}

impl Storage {
    /// Starts a listener at `now`, or starts it again. A listener must have a group.
    pub fn start_match_listener_at(&mut self, params: MatchListenerStartParams, now: UtcTime) -> (res:
        Result<(), StorageError>)
        requires
            old(self).wf(),
            now.valid(),
        ensures
            final(self).wf(),
            match params.group_id {
                Some(group_id) => res == Ok::<(), StorageError>(()) && final(self)@ == old(
                    self,
                )@.started(params, group_id, now),
                None => res == Err::<(), StorageError>(StorageError::MissingGroup) && final(self)@
                    == old(self)@,
            },
            params.group_id is Some ==> now.reads_back(),
    {
        let group_id: i64 = match params.group_id {
            Some(group_id) => group_id,
            None => {
                return Err(StorageError::MissingGroup);
            },
        };
        let match_id: i64 = params.match_id;
        let created_at = now.to_rfc3339();
        let ghost p = listens(match_id, group_id);
        let found = position_where(
            &self.tables.listeners,
            |l: &ListenerRow| -> (r: bool)
                ensures r == (l.match_id == match_id && l.group_id == group_id) {
                l.match_id == match_id && l.group_id == group_id
            },
            Ghost(p),
        );
        if found.is_some() {
            let ghost f = restarted(params, group_id, now);
            update_rows(
                &mut self.tables.listeners,
                |l: &ListenerRow| -> (r: bool)
                    ensures r == (l.match_id == match_id && l.group_id == group_id) {
                    l.match_id == match_id && l.group_id == group_id
                },
                |l: &ListenerRow| -> (r: ListenerRow)
                    ensures r@ == restarted(params, group_id, now)(l@) {
                    restarted_row(l, &params, group_id, now, created_at.as_str())
                },
                Ghost(p),
                Ghost(f),
            );
            assert(pairwise(self@.listeners, other_listener()));
        } else {
            let ghost kept = self.tables.listeners@;
            let row = fresh_row(&params, group_id, now, created_at.as_str());
            self.tables.listeners.push(row);
            proof {
                assert(views(self.tables.listeners@) =~= views(kept).push(row@));
                assert(pairwise(self@.listeners, other_listener()));
            }
        }
        Ok(())
    }

    /// Starts a listener now, or starts it again.
    pub fn start_match_listener(&mut self, params: MatchListenerStartParams) -> (res: Result<
        (),
        StorageError,
    >)
        requires
            old(self).wf(),
        ensures
            final(self).wf(),
            match params.group_id {
                Some(group_id) => res == Ok::<(), StorageError>(()) && exists|now: UtcTime|
                    now.shown_by_clock() && final(self)@ == #[trigger] old(self)@.started(
                        params,
                        group_id,
                        now,
                    ) && now.reads_back(),
                None => res == Err::<(), StorageError>(StorageError::MissingGroup) && final(self)@
                    == old(self)@,
            },
    {
        let now = utc_now();
        self.start_match_listener_at(params, now)
    }

    /// Stops the listener of a match in a group, and says whether one was active.
    pub fn stop_match_listener(&mut self, match_id: i64, group_id: i64) -> (res: bool)
        requires
            old(self).wf(),
        ensures
            final(self).wf(),
            final(self)@ == old(self)@.listeners_updated(
                active_listens(match_id, group_id),
                stopped(),
            ),
            res == (first_where(old(self)@.listeners, active_listens(match_id, group_id)) is Some),
    {
        let count = update_rows(
            &mut self.tables.listeners,
            |l: &ListenerRow| -> (r: bool)
                ensures
                    r == (l.match_id == match_id && l.group_id == group_id && l.active == 1) {
                l.match_id == match_id && l.group_id == group_id && l.active == 1
            },
            |l: &ListenerRow| -> (r: ListenerRow) ensures r@ == stopped()(l@) { stopped_row(l) },
            Ghost(active_listens(match_id, group_id)),
            Ghost(stopped()),
        );
        proof {
            update_pairwise(
                old(self)@.listeners,
                active_listens(match_id, group_id),
                stopped(),
                other_listener(),
            );
        }
        count > 0
    }

    /// Stops all active listeners of a group, and counts them. The listeners that tell a user in
    /// private are kept under the negated number of the user.
    pub fn stop_all_match_listeners_in_group(&mut self, group_id: i64) -> (res: u64)
        requires
            old(self).wf(),
        ensures
            final(self).wf(),
            final(self)@ == old(self)@.listeners_updated(active_in_group(group_id), stopped()),
            res == old(self)@.listeners.filter(active_in_group(group_id)).len(),
    {
        let count = update_rows(
            &mut self.tables.listeners,
            |l: &ListenerRow| -> (r: bool)
                ensures r == (l.group_id == group_id && l.active == 1) {
                l.group_id == group_id && l.active == 1
            },
            |l: &ListenerRow| -> (r: ListenerRow) ensures r@ == stopped()(l@) { stopped_row(l) },
            Ghost(active_in_group(group_id)),
            Ghost(stopped()),
        );
        proof {
            update_pairwise(
                old(self)@.listeners,
                active_in_group(group_id),
                stopped(),
                other_listener(),
            );
        }
        count
    }

    /// The listener of a match in a group. An instant that cannot be read is shown as `now`.
    pub fn get_match_listener_at(&self, match_id: i64, group_id: i64, now: UtcTime) -> (res: Option<
        MatchListener,
    >)
        requires
            self.wf(),
        ensures
            match self@.listener(match_id, group_id) {
                Some(l) => res matches Some(found) && found@ == shown(now)(l),
                None => res is None,
            },
    {
        let found = position_where(
            &self.tables.listeners,
            |l: &ListenerRow| -> (r: bool)
                ensures r == (l.match_id == match_id && l.group_id == group_id) {
                l.match_id == match_id && l.group_id == group_id
            },
            Ghost(listens(match_id, group_id)),
        );
        match found {
            Some(i) => Some(row_to_match_listener(&self.tables.listeners[i], now)),
            None => None,
        }
    }

    /// The listener of a match in a group.
    pub fn get_match_listener(&self, match_id: i64, group_id: i64) -> (res: Option<MatchListener>)
        requires
            self.wf(),
        ensures
            match self@.listener(match_id, group_id) {
                Some(l) => exists|now: UtcTime|
                    now.shown_by_clock() && (res matches Some(found) && found@ == #[trigger] shown(now)(
                        l,
                    )),
                None => res is None,
            },
    {
        let now = utc_now();
        self.get_match_listener_at(match_id, group_id, now)
    }

    /// The listeners of a group that are live at `now`, by start.
    pub fn list_active_match_listeners_by_group_at(&self, group_id: i64, now: UtcTime) -> (res: Vec<
        MatchListener,
    >)
        requires
            self.wf(),
        ensures
            self@.shows_group(views(res@), group_id, now),
    {
        let ts: i64 = now.secs;
        let ghost p = live_in_group(group_id, ts);
        let rows = select_where(
            &self.tables.listeners,
            |l: &ListenerRow| -> (r: bool)
                ensures r == (l.group_id == group_id && l.active == 1 && l.expires_at >= ts) {
                l.group_id == group_id && l.active == 1 && l.expires_at >= ts
            },
            |l: &ListenerRow| -> (r: ListenerRow) ensures r@ == l@ { copy_row(l) },
            Ghost(p),
            Ghost(|l: ListenerView| l),
        );
        let ghost live = self@.listeners.filter(p);
        proof {
            assert(views(rows@) =~= live);
            filter_pairwise(self@.listeners, p, other_listener());
            crate::table::filter_holds(self@.listeners, p);
            older_is_an_order(live, group_id);
        }
        let sorted = sort_rows(
            rows,
            |a: &ListenerRow, b: &ListenerRow| -> (r: bool)
                ensures r == older()(a@, b@) {
                text_less(a.created_at.as_str(), b.created_at.as_str()) || (text_eq(
                    a.created_at.as_str(),
                    b.created_at.as_str(),
                ) && a.match_id < b.match_id)
            },
            Ghost(older()),
        );
        assert(self@.lists_group(views(sorted@), group_id, now.secs));
        show_all(&sorted, now)
    }

    /// The live listeners of a group, by start.
    pub fn list_active_match_listeners_by_group(&self, group_id: i64) -> (res: Vec<MatchListener>)
        requires
            self.wf(),
        ensures
            exists|now: UtcTime|
                now.shown_by_clock() && #[trigger] self@.shows_group(views(res@), group_id, now),
    {
        let now = utc_now();
        self.list_active_match_listeners_by_group_at(group_id, now)
    }

    /// The listeners that are live at `now`, those first that have been silent for longest.
    pub fn list_active_match_listeners_due_for_polling_at(&self, now: UtcTime) -> (res: Vec<
        MatchListener,
    >)
        requires
            self.wf(),
        ensures
            self@.shows_polling(views(res@), now),
    {
        let ts: i64 = now.secs;
        let ghost p = live_at(ts);
        let rows = select_where(
            &self.tables.listeners,
            |l: &ListenerRow| -> (r: bool)
                ensures r == (l.active == 1 && l.expires_at >= ts) {
                l.active == 1 && l.expires_at >= ts
            },
            |l: &ListenerRow| -> (r: ListenerRow) ensures r@ == l@ { copy_row(l) },
            Ghost(p),
            Ghost(|l: ListenerView| l),
        );
        let ghost live = self@.listeners.filter(p);
        proof {
            assert(views(rows@) =~= live);
            filter_pairwise(self@.listeners, p, other_listener());
            polled_before_is_an_order(live);
        }
        let sorted = sort_rows(
            rows,
            |a: &ListenerRow, b: &ListenerRow| -> (r: bool)
                ensures r == polled_before()(a@, b@) {
                text_less(told(a), told(b)) || (text_eq(told(a), told(b)) && (a.group_id
                    < b.group_id || (a.group_id == b.group_id && a.match_id < b.match_id)))
            },
            Ghost(polled_before()),
        );
        assert(self@.lists_polling(views(sorted@), now.secs));
        show_all(&sorted, now)
    }

    /// The live listeners, those first that have been silent for longest.
    pub fn list_active_match_listeners_due_for_polling(&self) -> (res: Vec<MatchListener>)
        requires
            self.wf(),
        ensures
            exists|now: UtcTime|
                now.shown_by_clock() && #[trigger] self@.shows_polling(views(res@), now),
    {
        let now = utc_now();
        self.list_active_match_listeners_due_for_polling_at(now)
    }

    /// Records how far a listener has told of its match, and says whether there is one.
    /// `notified_at` is the instant at which it last told; without one, that stays as it was.
    pub fn update_match_listener_progress_at(
        &mut self,
        match_id: i64,
        group_id: i64,
        last_event_id: Option<i64>,
        last_notified_event_id: Option<i64>,
        pending_game_event_id: Option<i64>,
        notified_at: Option<UtcTime>,
    ) -> (res: bool)
        requires
            old(self).wf(),
            notified_at matches Some(t) ==> t.valid(),
        ensures
            final(self).wf(),
            final(self)@ == old(self)@.with_progress(
                match_id,
                group_id,
                last_event_id,
                last_notified_event_id,
                pending_game_event_id,
                match notified_at {
                    Some(t) => Some(t.text()),
                    None => None,
                },
            ),
            res == (old(self)@.listener(match_id, group_id) is Some),
            notified_at matches Some(t) ==> t.reads_back(),
    {
        let text: Option<String> = match notified_at {
            Some(t) => Some(t.to_rfc3339()),
            None => None,
        };
        let ghost p = listens(match_id, group_id);
        let ghost f = progressed(
            last_event_id,
            last_notified_event_id,
            pending_game_event_id,
            crate::rows::opt_text(text),
        );
        let count = update_rows(
            &mut self.tables.listeners,
            |l: &ListenerRow| -> (r: bool)
                ensures r == (l.match_id == match_id && l.group_id == group_id) {
                l.match_id == match_id && l.group_id == group_id
            },
            |l: &ListenerRow| -> (r: ListenerRow)
                ensures
                    r@ == progressed(
                        last_event_id,
                        last_notified_event_id,
                        pending_game_event_id,
                        crate::rows::opt_text(text),
                    )(l@) {
                let mut row = copy_row(l);
                row.last_event_id = last_event_id;
                row.last_notified_event_id = last_notified_event_id;
                row.pending_game_event_id = pending_game_event_id;
                if text.is_some() {
                    row.last_notified_at = copy_text(&text);
                }
                row
            },
            Ghost(p),
            Ghost(f),
        );
        proof {
            update_pairwise(old(self)@.listeners, p, f, other_listener());
        }
        count > 0
    }

    /// Records how far a listener has told of its match, and says whether there is one. With
    /// `touch_last_notified_at` it last told now; otherwise that stays as it was.
    pub fn update_match_listener_progress(
        &mut self,
        match_id: i64,
        group_id: i64,
        last_event_id: Option<i64>,
        last_notified_event_id: Option<i64>,
        pending_game_event_id: Option<i64>,
        touch_last_notified_at: bool,
    ) -> (res: bool)
        requires
            old(self).wf(),
        ensures
            final(self).wf(),
            !touch_last_notified_at ==> final(self)@ == old(self)@.with_progress(
                match_id,
                group_id,
                last_event_id,
                last_notified_event_id,
                pending_game_event_id,
                None,
            ),
            touch_last_notified_at ==> exists|now: UtcTime|
                now.shown_by_clock() && final(self)@ == old(self)@.with_progress(
                    match_id,
                    group_id,
                    last_event_id,
                    last_notified_event_id,
                    pending_game_event_id,
                    Some(#[trigger] now.text()),
                ) && now.reads_back(),
            res == (old(self)@.listener(match_id, group_id) is Some),
    {
        let notified_at: Option<UtcTime> = if touch_last_notified_at {
            Some(utc_now())
        } else {
            None
        };
        self.update_match_listener_progress_at(
            match_id,
            group_id,
            last_event_id,
            last_notified_event_id,
            pending_game_event_id,
            notified_at,
        )
    }

    /// Counts the listeners of a group that are live at the timestamp `now`.
    pub fn count_active_match_listeners_in_group_at(&self, group_id: i64, now: i64) -> (res: u64)
        requires
            self.wf(),
        ensures
            res == self@.listeners.filter(live_in_group(group_id, now)).len(),
    {
        count_where(
            &self.tables.listeners,
            |l: &ListenerRow| -> (r: bool)
                ensures r == (l.group_id == group_id && l.active == 1 && l.expires_at >= now) {
                l.group_id == group_id && l.active == 1 && l.expires_at >= now
            },
            Ghost(live_in_group(group_id, now)),
        )
    }

    /// Counts the live listeners of a group.
    pub fn count_active_match_listeners_in_group(&self, group_id: i64) -> (res: u64)
        requires
            self.wf(),
        ensures
            exists|now: UtcTime|
                now.shown_by_clock() && res == self@.listeners.filter(
                    #[trigger] live_in_group(group_id, now.secs),
                ).len(),
    {
        let now = utc_now();
        self.count_active_match_listeners_in_group_at(group_id, now.secs)
    }

    /// Counts the listeners that are live at the timestamp `now` and tell the user in private.
    pub fn count_active_match_listeners_for_user_at(&self, user_id: i64, now: i64) -> (res: u64)
        requires
            self.wf(),
        ensures
            res == self@.listeners.filter(live_for_user(user_id, now)).len(),
    {
        count_where(
            &self.tables.listeners,
            |l: &ListenerRow| -> (r: bool)
                ensures r == live_for_user(user_id, now)(l@) {
                match l.user_id {
                    Some(id) => id == user_id && text_eq(l.notification_type.as_str(), "private")
                        && l.active == 1 && l.expires_at >= now,
                    None => false,
                }
            },
            Ghost(live_for_user(user_id, now)),
        )
    }

    /// Counts the live listeners that tell the user in private.
    pub fn count_active_match_listeners_for_user(&self, user_id: i64) -> (res: u64)
        requires
            self.wf(),
        ensures
            exists|now: UtcTime|
                now.shown_by_clock() && res == self@.listeners.filter(
                    #[trigger] live_for_user(user_id, now.secs),
                ).len(),
    {
        let now = utc_now();
        self.count_active_match_listeners_for_user_at(user_id, now.secs)
    }

    /// Whether a group has `limit` listeners or more that are live at the timestamp `now`.
    pub fn is_match_listener_group_limit_reached_at(
        &self,
        group_id: i64,
        limit: u64,
        now: i64,
    ) -> (res: bool)
        requires
            self.wf(),
        ensures
            res == (self@.listeners.filter(live_in_group(group_id, now)).len() >= limit),
    {
        self.count_active_match_listeners_in_group_at(group_id, now) >= limit
    }

    /// Whether a group has `limit` live listeners or more.
    pub fn is_match_listener_group_limit_reached(&self, group_id: i64, limit: u64) -> (res: bool)
        requires
            self.wf(),
        ensures
            exists|now: UtcTime|
                now.shown_by_clock() && res == (self@.listeners.filter(
                    #[trigger] live_in_group(group_id, now.secs),
                ).len() >= limit),
    {
        let now = utc_now();
        self.is_match_listener_group_limit_reached_at(group_id, limit, now.secs)
    }

    /// Stops the active listeners that have expired before the timestamp `now`, and counts them.
    pub fn expire_old_match_listeners_at(&mut self, now: i64) -> (res: u64)
        requires
            old(self).wf(),
        ensures
            final(self).wf(),
            final(self)@ == old(self)@.listeners_updated(expired(now), stopped()),
            res == old(self)@.listeners.filter(expired(now)).len(),
    {
        let count = update_rows(
            &mut self.tables.listeners,
            |l: &ListenerRow| -> (r: bool)
                ensures r == (l.active == 1 && l.expires_at < now) {
                l.active == 1 && l.expires_at < now
            },
            |l: &ListenerRow| -> (r: ListenerRow) ensures r@ == stopped()(l@) { stopped_row(l) },
            Ghost(expired(now)),
            Ghost(stopped()),
        );
        proof {
            update_pairwise(old(self)@.listeners, expired(now), stopped(), other_listener());
        }
        count
    }

    /// Stops the active listeners that have expired, and counts them.
    pub fn expire_old_match_listeners(&mut self) -> (res: u64)
        requires
            old(self).wf(),
        ensures
            final(self).wf(),
            exists|now: UtcTime|
                now.shown_by_clock() && final(self)@ == old(self)@.listeners_updated(
                    #[trigger] expired(now.secs),
                    stopped(),
                ) && res == old(self)@.listeners.filter(expired(now.secs)).len(),
    {
        let now = utc_now();
        self.expire_old_match_listeners_at(now.secs)
    }
}

} // verus!
