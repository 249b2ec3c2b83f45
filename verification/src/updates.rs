//! When players were seen playing, when they were last active, and when they are due again.
use crate::bindings::{next_of_user, of_user};
use crate::rows::{
    other_last, other_next, play_before, play_lt, plays_ok, BindingRow, BindingView, HistoryRow,
    HistoryView, LastUpdateRow, LastUpdateView, NextUpdateRow, PlayRow, TablesView,
};
use crate::storage::Storage;
use crate::table::{
    delete_where, exists_where, filter_all, filter_contains, filter_holds, filter_pairwise,
    first_where, first_where_replaced, not, position_where, replace_where, select_where,
    update_pairwise, update_rows, update_where, views,
};
use crate::text::{text_less, text_lt};
use crate::time::{
    before_year_10000, instant_of, plain_year, utc_now, written_at, UtcTime, MAX_SECS, MIN_SECS,
    SECS_PER_DAY,
};
use crate::types::{GameMode, StorageError};
use vstd::prelude::*;

verus! {

broadcast use crate::storage::group_storage;

/// The plays of a player in one mode at the given timestamps.
pub open spec fn plays_of(user_id: i64, mode: GameMode, timestamps: Seq<i64>) -> Set<PlayRow> {
    Set::new(
        |p: PlayRow|
            p.user_id == user_id && p.mode == mode.code() && timestamps.contains(p.played_at),
    )
}

/// The play is one of the player in the mode, at `since` or later.
pub open spec fn played_since(user_id: i64, mode: GameMode, since: i64) -> spec_fn(
    PlayRow,
) -> bool {
    |p: PlayRow| p.user_id == user_id && p.mode == mode.code() && p.played_at >= since
}

/// The play is no older than `cutoff`.
pub open spec fn played_from(cutoff: i64) -> spec_fn(PlayRow) -> bool {
    |p: PlayRow| p.played_at >= cutoff
}

/// The last update of a player in one mode.
pub open spec fn last_of(user_id: i64, mode: GameMode) -> spec_fn(LastUpdateView) -> bool {
    |l: LastUpdateView| l.user_id == user_id && l.mode == mode.code()
}

/// The next update of a player in one mode.
pub open spec fn next_of(user_id: i64, mode: GameMode) -> spec_fn(NextUpdateRow) -> bool {
    |n: NextUpdateRow| n.user_id == user_id && n.mode == mode.code()
}

/// The next updates that are due at `now`.
pub open spec fn due_at(now: i64) -> spec_fn(NextUpdateRow) -> bool {
    |n: NextUpdateRow| n.next_update <= now
}

/// Every next update.
pub open spec fn every_next() -> spec_fn(NextUpdateRow) -> bool {
    |n: NextUpdateRow| true
}

/// Moves a next update to `now`.
pub open spec fn moved_to(now: i64) -> spec_fn(NextUpdateRow) -> NextUpdateRow {
    |n: NextUpdateRow| NextUpdateRow { next_update: now, ..n }
}

/// The player and the mode of a next update. A number that stands for no mode counts as `Osu`.
pub open spec fn player_of() -> spec_fn(NextUpdateRow) -> (i64, GameMode) {
    |n: NextUpdateRow|
        (
            n.user_id,
            match GameMode::of_code(n.mode) {
                Some(mode) => mode,
                None => GameMode::Osu,
            },
        )
}

/// The player of a binding, in the mode in which a new player is first updated.
pub open spec fn new_player_of() -> spec_fn(BindingView) -> (i64, GameMode) {
    |b: BindingView| (b.user_id, GameMode::Osu)
}

/// The snapshots that are older than `cutoff`, a text.
pub open spec fn taken_before(cutoff: Seq<char>) -> spec_fn(HistoryView) -> bool {
    |h: HistoryView| text_lt(h.recorded_at, cutoff)
}

/// The instant `t` is more than `days` days before `now`.
pub open spec fn older_than(t: UtcTime, days: u64, now: UtcTime) -> bool {
    let reach = now.secs - days * 86_400;
    t.secs < reach || (t.secs == reach && t.nanos < now.nanos)
}

impl TablesView {
    /// What saving plays makes of the tables.
    pub open spec fn with_plays(
        self,
        user_id: i64,
        mode: GameMode,
        timestamps: Seq<i64>,
    ) -> TablesView {
        TablesView { plays: self.plays.union(plays_of(user_id, mode, timestamps)), ..self }
    }

    /// The player has a play in the mode at `since` or later.
    pub open spec fn has_play(self, user_id: i64, mode: GameMode, since: i64) -> bool {
        exists|p: PlayRow| #[trigger]
            self.plays.contains(p) && played_since(user_id, mode, since)(p)
    }

    /// When the player was last active in the mode, if that is known and can be read.
    pub open spec fn last_update(self, user_id: i64, mode: GameMode) -> Option<UtcTime> {
        match first_where(self.last_updates, last_of(user_id, mode)) {
            Some(l) => instant_of(l.last_update),
            None => None,
        }
    }

    /// What setting a last update makes of the tables.
    pub open spec fn with_last_update(
        self,
        user_id: i64,
        mode: GameMode,
        time: UtcTime,
    ) -> TablesView {
        TablesView {
            last_updates: replace_where(
                self.last_updates,
                last_of(user_id, mode),
                LastUpdateView { user_id, mode: mode.code(), last_update: time.text() },
            ),
            ..self
        }
    }

    /// When the player is due in the mode. A timestamp out of the calendar's range counts as
    /// `now`.
    pub open spec fn next_update(self, user_id: i64, mode: GameMode, now: UtcTime) -> Option<
        UtcTime,
    > {
        match first_where(self.next_updates, next_of(user_id, mode)) {
            Some(n) => if MIN_SECS <= n.next_update <= MAX_SECS {
                Some(UtcTime { secs: n.next_update, nanos: 0 })
            } else {
                Some(now)
            },
            None => None,
        }
    }

    /// What setting a next update makes of the tables: whole seconds are kept.
    pub open spec fn with_next_update(
        self,
        user_id: i64,
        mode: GameMode,
        time: UtcTime,
    ) -> TablesView {
        TablesView {
            next_updates: replace_where(
                self.next_updates,
                next_of(user_id, mode),
                NextUpdateRow { user_id, mode: mode.code(), next_update: time.secs },
            ),
            ..self
        }
    }

    /// What resetting the next updates makes of the tables.
    pub open spec fn all_due(self, now: i64) -> TablesView {
        TablesView {
            next_updates: update_where(self.next_updates, every_next(), moved_to(now)),
            ..self
        }
    }

    /// The bindings of players who have no next update in any mode.
    pub open spec fn never_updated(self) -> spec_fn(BindingView) -> bool {
        |b: BindingView| first_where(self.next_updates, next_of_user(b.user_id)) is None
    }

    /// The players that are due at `now`, and then those that were never updated.
    pub open spec fn due(self, now: i64) -> Seq<(i64, GameMode)> {
        self.next_updates.filter(due_at(now)).map_values(player_of()) + self.bindings.filter(
            self.never_updated(),
        ).map_values(new_player_of())
    }

    /// The next updates of players who are bound to no account.
    pub open spec fn orphaned(self) -> spec_fn(NextUpdateRow) -> bool {
        |n: NextUpdateRow| self.holder(n.user_id) is None
    }

    /// The tables without the next updates of players who are bound to no account.
    pub open spec fn without_orphans(self) -> TablesView {
        TablesView { next_updates: self.next_updates.filter(not(self.orphaned())), ..self }
    }

    /// What pruning with a retention of `days` days makes of the tables at `now`. Where the
    /// retention reaches back beyond the calendar, no snapshot and no play is older than it.
    pub open spec fn pruned_back(self, days: u64, now: UtcTime) -> TablesView {
        let back = -(days * 86_400);
        if now.can_shift(back) {
            self.pruned(now.plus_seconds(back))
        } else {
            self.without_orphans()
        }
    }

    /// Pruning with a retention of `days` days at `now` takes away exactly the snapshots that are
    /// older, of those whose instants are written as the library writes them.
    pub open spec fn pruning_goes_by_age(self, days: u64, now: UtcTime) -> bool {
        forall|h: HistoryView, t: UtcTime|
            self.history.contains(h) && #[trigger] written_at(h.recorded_at, t) ==> (
            self.pruned_back(days, now).history.contains(h) <==> !older_than(t, days, now))
    }

    /// What pruning makes of the tables: snapshots and plays older than `cutoff` go, and so do
    /// the next updates of players who are bound to no account.
    pub open spec fn pruned(self, cutoff: UtcTime) -> TablesView {
        TablesView {
            history: self.history.filter(not(taken_before(cutoff.text()))),
            plays: self.plays.filter(played_from(cutoff.secs)),
            next_updates: self.next_updates.filter(not(self.orphaned())),
            ..self
        }
    }
}

/// A play comes before another in the order of the plays.
pub(crate) fn play_less(a: &PlayRow, b: &PlayRow) -> (res: bool)
    ensures
        res == play_lt(*a, *b),
{
    a.user_id < b.user_id || (a.user_id == b.user_id && (a.mode < b.mode || (a.mode == b.mode
        && a.played_at < b.played_at)))
}

/// Where `row` belongs: every play before the place comes before `row`, and no other does.
fn place_of(rows: &Vec<PlayRow>, row: &PlayRow) -> (res: usize)
    requires
        plays_ok(rows@),
    ensures
        res <= rows@.len(),
        forall|j: int| 0 <= j < res ==> play_lt(#[trigger] rows@[j], *row),
        forall|j: int| res <= j < rows@.len() ==> !play_lt(#[trigger] rows@[j], *row),
{
    let mut low: usize = 0;
    let mut high: usize = rows.len();
    while low < high
        invariant
            plays_ok(rows@),
            low <= high <= rows@.len(),
            forall|j: int| 0 <= j < low ==> play_lt(#[trigger] rows@[j], *row),
            forall|j: int| high <= j < rows@.len() ==> !play_lt(#[trigger] rows@[j], *row),
        decreases high - low,
    {
        let mid: usize = low + (high - low) / 2;
        if play_less(&rows[mid], row) {
            assert forall|j: int| 0 <= j < mid + 1 implies play_lt(#[trigger] rows@[j], *row) by {
                if j < mid {
                    assert(play_before()(rows@[j], rows@[mid as int]));
                }
            }
            low = mid + 1;
        } else {
            assert forall|j: int| mid <= j < rows@.len() implies !play_lt(
                #[trigger] rows@[j],
                *row,
            ) by {
                if j > mid {
                    assert(play_before()(rows@[mid as int], rows@[j]));
                }
            }
            high = mid;
        }
    }
    low
}

/// Plays in order are all different.
proof fn plays_distinct(s: Seq<PlayRow>)
    requires
        plays_ok(s),
    ensures
        s.to_set().finite(),
        s.to_set().len() == s.len(),
{
    assert forall|i: int, j: int| 0 <= i < s.len() && 0 <= j < s.len() && i != j implies s[i]
        != s[j] by {
        if i < j {
            assert(play_before()(s[i], s[j]));
        } else {
            assert(play_before()(s[j], s[i]));
        }
    }
    s.unique_seq_to_set();
    vstd::seq_lib::seq_to_set_is_finite(s);
}

/// Adds a play in its place, unless it is there, and says whether it is new.
fn put_play(rows: &mut Vec<PlayRow>, row: PlayRow) -> (new: bool)
    requires
        plays_ok(old(rows)@),
    ensures
        plays_ok(final(rows)@),
        final(rows)@.to_set() == old(rows)@.to_set().insert(row),
        new == !old(rows)@.to_set().contains(row),
        final(rows)@.len() == old(rows)@.len() + if new {
            1int
        } else {
            0int
        },
{
    let ghost s = rows@;
    let i: usize = place_of(rows, &row);
    if i < rows.len() && rows[i].user_id == row.user_id && rows[i].mode == row.mode
        && rows[i].played_at == row.played_at {
        assert(s[i as int] == row);
        assert(s.to_set().contains(row));
        assert(s.to_set() =~= s.to_set().insert(row));
        return false;
    }
    proof {
        if s.to_set().contains(row) {
            let k = choose|k: int| 0 <= k < s.len() && s[k] == row;
            if k > i {
                assert(play_before()(s[i as int], s[k]));
            }
            assert(false);
        }
    }
    rows.insert(i, row);
    proof {
        assert(rows@ =~= s.insert(i as int, row));
        assert forall|a: int, b: int|
            #![trigger rows@[a], rows@[b]]
            0 <= a < b < rows@.len() implies play_before()(rows@[a], rows@[b]) by {
            if a != i && b != i {
                let a0 = if a < i {
                    a
                } else {
                    a - 1
                };
                let b0 = if b < i {
                    b
                } else {
                    b - 1
                };
                assert(play_before()(s[a0], s[b0]));
            } else if a == i {
                assert(!play_lt(s[b - 1], row) && s[b - 1] != row);
            } else {
                assert(play_lt(s[a], row));
            }
        }
        assert forall|p: PlayRow| rows@.to_set().contains(p) <==> s.to_set().insert(row).contains(
            p,
        ) by {
            if rows@.contains(p) {
                let k = choose|k: int| 0 <= k < rows@.len() && rows@[k] == p;
                if k < i {
                    assert(s[k] == p);
                } else if k > i {
                    assert(s[k - 1] == p);
                }
            }
            if s.contains(p) {
                let k = choose|k: int| 0 <= k < s.len() && s[k] == p;
                if k < i {
                    assert(rows@[k] == p);
                } else {
                    assert(rows@[k + 1] == p);
                }
            }
            assert(rows@[i as int] == row);
        }
        assert(rows@.to_set() =~= s.to_set().insert(row));
    }
    true
}

impl Storage {
    /// Saves plays of a player, and counts those that were not there.
    pub fn save_play_records(&mut self, user_id: i64, mode: GameMode, timestamps: &[i64]) -> (res:
        i64)
        requires
            old(self).wf(),
        ensures
            final(self).wf(),
            final(self)@ == old(self)@.with_plays(user_id, mode, timestamps@),
            res == (final(self)@.plays.len() - old(self)@.plays.len()) as i64,
    {
        let code: i32 = mode.to_code();
        let mut i: usize = 0;
        let mut count: u64 = 0;
        let ghost before = self.tables.plays@;
        proof {
            plays_distinct(before);
        }
        assert(self@.plays =~= before.to_set().union(plays_of(user_id, mode, timestamps@.take(0))));
        while i < timestamps.len()
            invariant
                self.wf(),
                code == mode.code(),
                before.to_set() == old(self)@.plays,
                before.to_set().len() == before.len(),
                i <= timestamps@.len(),
                count <= i,
                self@ == (TablesView {
                    plays: before.to_set().union(
                        plays_of(user_id, mode, timestamps@.take(i as int)),
                    ),
                    ..old(self)@
                }),
                count == self.tables.plays@.len() - before.len(),
            decreases timestamps@.len() - i,
        {
            let ghost sofar = timestamps@.take(i as int);
            let row = PlayRow { user_id, mode: code, played_at: timestamps[i] };
            let new = put_play(&mut self.tables.plays, row);
            if new {
                count += 1;
            }
            proof {
                plays_distinct(self.tables.plays@);
                let longer = timestamps@.take(i + 1);
                assert(longer =~= sofar.push(timestamps@[i as int]));
                assert forall|p: PlayRow|
                    plays_of(user_id, mode, sofar).insert(row).contains(p) <==> plays_of(
                        user_id,
                        mode,
                        longer,
                    ).contains(p) by {
                    if sofar.contains(p.played_at) {
                        let k = choose|k: int| 0 <= k < sofar.len() && sofar[k] == p.played_at;
                        assert(longer[k] == p.played_at);
                    }
                    if longer.contains(p.played_at) {
                        let k = choose|k: int| 0 <= k < longer.len() && longer[k] == p.played_at;
                        if k < i {
                            assert(sofar[k] == p.played_at);
                        }
                    }
                    assert(longer[i as int] == row.played_at);
                }
                assert(self@.plays =~= before.to_set().union(plays_of(user_id, mode, longer)));
            }
            i += 1;
        }
        proof {
            plays_distinct(self.tables.plays@);
            assert(timestamps@.take(i as int) =~= timestamps@);
        }
        count as i64
    }

    /// Whether the player has a play in the mode at the timestamp `since_ts` or later.
    pub fn has_play_since(&self, user_id: i64, mode: GameMode, since_ts: i64) -> (res: bool)
        requires
            self.wf(),
        ensures
            res == self@.has_play(user_id, mode, since_ts),
    {
        let code: i32 = mode.to_code();
        let first = PlayRow { user_id, mode: code, played_at: since_ts };
        let i: usize = place_of(&self.tables.plays, &first);
        let ghost s = self.tables.plays@;
        if i < self.tables.plays.len() && self.tables.plays[i].user_id == user_id
            && self.tables.plays[i].mode == code {
            assert(s.contains(s[i as int]));
            assert(self@.plays.contains(s[i as int]) && played_since(user_id, mode, since_ts)(
                s[i as int],
            ));
            true
        } else {
            proof {
                if self@.has_play(user_id, mode, since_ts) {
                    let p = choose|p: PlayRow| #[trigger]
                        self@.plays.contains(p) && played_since(user_id, mode, since_ts)(p);
                    let k = choose|k: int| 0 <= k < s.len() && s[k] == p;
                    if k > i {
                        assert(play_before()(s[i as int], s[k]));
                    }
                    assert(false);
                }
            }
            false
        }
    }

    /// When the player was last active in the mode, if that is known and can be read.
    pub fn get_last_update(&self, user_id: i64, mode: GameMode) -> (res: Option<UtcTime>)
        requires
            self.wf(),
        ensures
            res == self@.last_update(user_id, mode),
            res matches Some(t) ==> t.valid(),
    {
        let code: i32 = mode.to_code();
        let found = position_where(
            &self.tables.last_updates,
            |l: &LastUpdateRow| -> (r: bool)
                ensures r == (l.user_id == user_id && l.mode == code) {
                l.user_id == user_id && l.mode == code
            },
            Ghost(last_of(user_id, mode)),
        );
        match found {
            Some(i) => UtcTime::parse(self.tables.last_updates[i].last_update.as_str()),
            None => None,
        }
    }

    /// Sets when the player was last active in the mode.
    pub fn set_last_update(&mut self, user_id: i64, mode: GameMode, time: UtcTime)
        requires
            old(self).wf(),
            time.valid(),
        ensures
            final(self).wf(),
            final(self)@ == old(self)@.with_last_update(user_id, mode, time),
            plain_year(time.secs) ==> final(self)@.last_update(user_id, mode) == Some(time),
    {
        let code: i32 = mode.to_code();
        delete_where(
            &mut self.tables.last_updates,
            |l: &LastUpdateRow| -> (r: bool)
                ensures r == (l.user_id == user_id && l.mode == code) {
                l.user_id == user_id && l.mode == code
            },
            Ghost(last_of(user_id, mode)),
        );
        proof {
            filter_pairwise(old(self)@.last_updates, not(last_of(user_id, mode)), other_last());
            filter_holds(old(self)@.last_updates, not(last_of(user_id, mode)));
        }
        let ghost kept = self.tables.last_updates@;
        let row = LastUpdateRow { user_id, mode: code, last_update: time.to_rfc3339() };
        self.tables.last_updates.push(row);
        proof {
            assert(views(self.tables.last_updates@) =~= views(kept).push(row@));
            first_where_replaced(old(self)@.last_updates, last_of(user_id, mode), row@);
        }
    }

    /// When the player is due in the mode, if that is set. A timestamp that is out of the
    /// calendar's range counts as `now`.
    pub fn get_next_update_at(&self, user_id: i64, mode: GameMode, now: UtcTime) -> (res: Option<
        UtcTime,
    >)
        requires
            self.wf(),
        ensures
            res == self@.next_update(user_id, mode, now),
    {
        let code: i32 = mode.to_code();
        let found = position_where(
            &self.tables.next_updates,
            |n: &NextUpdateRow| -> (r: bool)
                ensures r == (n.user_id == user_id && n.mode == code) {
                n.user_id == user_id && n.mode == code
            },
            Ghost(next_of(user_id, mode)),
        );
        match found {
            Some(i) => match UtcTime::from_timestamp(self.tables.next_updates[i].next_update) {
                Some(t) => Some(t),
                None => Some(now),
            },
            None => None,
        }
    }

    /// When the player is due in the mode, if that is set.
    pub fn get_next_update(&self, user_id: i64, mode: GameMode) -> (res: Option<UtcTime>)
        requires
            self.wf(),
        ensures
            exists|now: UtcTime|
                now.shown_by_clock() && res == #[trigger] self@.next_update(user_id, mode, now),
    {
        let now = utc_now();
        self.get_next_update_at(user_id, mode, now)
    }

    /// Sets from when on the player is due in the mode.
    pub fn set_next_update(&mut self, user_id: i64, mode: GameMode, time: UtcTime)
        requires
            old(self).wf(),
        ensures
            final(self).wf(),
            final(self)@ == old(self)@.with_next_update(user_id, mode, time),
    {
        let code: i32 = mode.to_code();
        delete_where(
            &mut self.tables.next_updates,
            |n: &NextUpdateRow| -> (r: bool)
                ensures r == (n.user_id == user_id && n.mode == code) {
                n.user_id == user_id && n.mode == code
            },
            Ghost(next_of(user_id, mode)),
        );
        proof {
            filter_pairwise(old(self)@.next_updates, not(next_of(user_id, mode)), other_next());
            filter_holds(old(self)@.next_updates, not(next_of(user_id, mode)));
        }
        let ghost kept = self.tables.next_updates@;
        let row = NextUpdateRow { user_id, mode: code, next_update: time.secs };
        self.tables.next_updates.push(row);
        assert(views(self.tables.next_updates@) =~= views(kept).push(row@));
    }

    /// Makes every player that has a next update due at the timestamp `now`, and counts the
    /// next updates.
    pub fn reset_all_next_updates_at(&mut self, now: i64) -> (res: u64)
        requires
            old(self).wf(),
        ensures
            final(self).wf(),
            final(self)@ == old(self)@.all_due(now),
            res == old(self)@.next_updates.len(),
    {
        let count = update_rows(
            &mut self.tables.next_updates,
            |n: &NextUpdateRow| -> (r: bool) ensures r { true },
            |n: &NextUpdateRow| -> (r: NextUpdateRow)
                ensures r == moved_to(now)(*n) {
                NextUpdateRow { user_id: n.user_id, mode: n.mode, next_update: now }
            },
            Ghost(every_next()),
            Ghost(moved_to(now)),
        );
        proof {
            update_pairwise(old(self)@.next_updates, every_next(), moved_to(now), other_next());
            filter_all(old(self)@.next_updates, every_next());
        }
        count
    }

    /// Makes every player that has a next update due now, so that all are looked at again with
    /// the intervals that hold from now on. Counts the next updates.
    pub fn reset_all_next_updates(&mut self) -> (res: u64)
        requires
            old(self).wf(),
        ensures
            final(self).wf(),
            exists|now: UtcTime|
                now.shown_by_clock() && final(self)@ == #[trigger] old(self)@.all_due(now.secs),
            res == old(self)@.next_updates.len(),
    {
        let now = utc_now();
        self.reset_all_next_updates_at(now.secs)
    }

    /// Whether the player has a next update in some mode.
    fn has_next_update(&self, user_id: i64) -> (res: bool)
        requires
            self.wf(),
        ensures
            res == (first_where(self@.next_updates, next_of_user(user_id)) is Some),
    {
        exists_where(
            &self.tables.next_updates,
            |n: &NextUpdateRow| -> (r: bool)
                ensures r == (n.user_id == user_id) { n.user_id == user_id },
            Ghost(next_of_user(user_id)),
        )
    }

    /// The players and modes that are due at the timestamp `now`: those whose next update has
    /// come, and every bound player who has none.
    pub fn get_due_users_at(&self, now: i64) -> (res: Vec<(i64, GameMode)>)
        requires
            self.wf(),
        ensures
            res@ == self@.due(now),
    {
        let mut res = select_where(
            &self.tables.next_updates,
            |n: &NextUpdateRow| -> (r: bool)
                ensures r == (n.next_update <= now) { n.next_update <= now },
            |n: &NextUpdateRow| -> (r: (i64, GameMode))
                ensures r == player_of()(*n) {
                match GameMode::from_code(n.mode) {
                    Some(mode) => (n.user_id, mode),
                    None => (n.user_id, GameMode::Osu),
                }
            },
            Ghost(due_at(now)),
            Ghost(player_of()),
        );
        let mut new = select_where(
            &self.tables.bindings,
            |b: &BindingRow| -> (r: bool)
                ensures
                    r == (first_where(self@.next_updates, next_of_user(b.user_id)) is None) {
                !self.has_next_update(b.user_id)
            },
            |b: &BindingRow| -> (r: (i64, GameMode))
                ensures r == new_player_of()(b@) { (b.user_id, GameMode::Osu) },
            Ghost(self@.never_updated()),
            Ghost(new_player_of()),
        );
        proof {
            assert(views(res@) =~= res@);
            assert(views(new@) =~= new@);
        }
        res.append(&mut new);
        res
    }

    /// The players and modes that are due now.
    pub fn get_due_users(&self) -> (res: Vec<(i64, GameMode)>)
        requires
            self.wf(),
        ensures
            exists|now: UtcTime| now.shown_by_clock() && res@ == #[trigger] self@.due(now.secs),
    {
        let now = utc_now();
        self.get_due_users_at(now.secs)
    }

    /// Deletes what is older than `retention_days` days before `now`: snapshots and plays. Deletes
    /// the next updates of players who are bound to no account. Counts the snapshots, the plays
    /// and the next updates that went. Nothing is older than a retention that reaches back beyond
    /// the calendar.
    pub fn prune_old_records_at(&mut self, retention_days: u64, now: UtcTime) -> (res: Result<
        (u64, u64, u64),
        StorageError,
    >)
        requires
            old(self).wf(),
            now.from_clock(),
        ensures
            final(self).wf(),
            final(self)@ == old(self)@.pruned_back(retention_days, now),
            res matches Ok((stats, plays, next)) && {
                &&& stats == old(self)@.history.len() - final(self)@.history.len()
                &&& plays == old(self)@.plays.len() - final(self)@.plays.len()
                &&& next == old(self)@.next_updates.len() - final(self)@.next_updates.len()
            },
            before_year_10000(now.secs) ==> old(self)@.pruning_goes_by_age(retention_days, now),
    {
        let next = self.drop_orphans();
        let ghost rest = self@;
        proof {
            assert(rest.orphaned() =~= old(self)@.orphaned());
        }
        let cutoff: Option<UtcTime> = if retention_days <= i64::MAX as u64 {
            now.checked_back(retention_days as i64, SECS_PER_DAY)
        } else {
            None
        };
        match cutoff {
            Some(cutoff) => {
                let (stats, plays) = self.drop_older(cutoff);
                proof {
                    assert(self@ =~= old(self)@.pruned(cutoff));
                    assert forall|h: HistoryView, t: UtcTime|
                        before_year_10000(now.secs) && old(self)@.history.contains(h)
                            && #[trigger] written_at(h.recorded_at, t) implies (
                    self@.history.contains(h) <==> !older_than(t, retention_days, now)) by {
                        assert(t.before(cutoff) == older_than(t, retention_days, now));
                    }
                }
                Ok((stats, plays, next))
            },
            None => Ok((0, 0, next)),
        }
    }

    /// Deletes the snapshots and the plays that are older than `cutoff`, and counts them.
    fn drop_older(&mut self, cutoff: UtcTime) -> (res: (u64, u64))
        requires
            old(self).wf(),
            cutoff.valid(),
        ensures
            final(self).wf(),
            final(self)@ == (TablesView {
                history: old(self)@.history.filter(not(taken_before(cutoff.text()))),
                plays: old(self)@.plays.filter(played_from(cutoff.secs)),
                ..old(self)@
            }),
            res.0 == old(self)@.history.len() - final(self)@.history.len(),
            res.1 == old(self)@.plays.len() - final(self)@.plays.len(),
            before_year_10000(cutoff.secs) ==> forall|h: HistoryView, t: UtcTime|
                old(self)@.history.contains(h) && #[trigger] written_at(h.recorded_at, t) ==> (
                final(self)@.history.contains(h) <==> !t.before(cutoff)),
    {
        let text = cutoff.to_rfc3339();
        let ts: i64 = cutoff.secs;
        let stats = delete_where(
            &mut self.tables.history,
            |h: &HistoryRow| -> (r: bool)
                ensures r == text_lt(h.recorded_at@, text@) {
                text_less(h.recorded_at.as_str(), text.as_str())
            },
            Ghost(taken_before(cutoff.text())),
        );
        let ghost plays0 = self.tables.plays@;
        let plays = delete_where(
            &mut self.tables.plays,
            |p: &PlayRow| -> (r: bool) ensures r == (p.played_at < ts) { p.played_at < ts },
            Ghost(not(played_from(ts))),
        );
        proof {
            filter_pairwise(
                old(self)@.history,
                not(taken_before(cutoff.text())),
                crate::rows::history_before(),
            );
            let kept = not(not(played_from(ts)));
            assert(views(plays0) =~= plays0);
            assert(views(self.tables.plays@) =~= self.tables.plays@);
            filter_pairwise(plays0, kept, play_before());
            plays_distinct(plays0);
            plays_distinct(self.tables.plays@);
            assert forall|p: PlayRow|
                self.tables.plays@.to_set().contains(p) <==> plays0.to_set().filter(
                    played_from(ts),
                ).contains(p) by {
                broadcast use Seq::lemma_filter_contains, Seq::lemma_filter_contains_rev;

                filter_holds(plays0, kept);
                if self.tables.plays@.contains(p) {
                    assert(plays0.filter(kept).contains(p));
                }
                if plays0.contains(p) && played_from(ts)(p) {
                    let k = choose|k: int| 0 <= k < plays0.len() && plays0[k] == p;
                    assert(kept(plays0[k]));
                }
            }
            assert(self.tables.plays@.to_set() =~= plays0.to_set().filter(played_from(ts)));
        }
        proof {
            if before_year_10000(cutoff.secs) {
                let p = not(taken_before(cutoff.text()));
                assert forall|h: HistoryView, t: UtcTime|
                    old(self)@.history.contains(h) && #[trigger] written_at(
                        h.recorded_at,
                        t,
                    ) implies (self@.history.contains(h) <==> !t.before(cutoff)) by {
                    filter_contains(old(self)@.history, p, h);
                    assert(text_lt(t.text(), text@) <==> t.before(cutoff));
                }
            }
        }
        (stats, plays)
    }

    /// Deletes the next updates of players who are bound to no account, and counts them.
    fn drop_orphans(&mut self) -> (res: u64)
        requires
            old(self).wf(),
        ensures
            final(self).wf(),
            final(self)@ == old(self)@.without_orphans(),
            res == old(self)@.next_updates.len() - final(self)@.next_updates.len(),
    {
        let bindings = &self.tables.bindings;
        let count = delete_where(
            &mut self.tables.next_updates,
            |n: &NextUpdateRow| -> (r: bool)
                ensures r == (first_where(views(bindings@), of_user(n.user_id)) is None) {
                !is_bound(bindings, n.user_id)
            },
            Ghost(old(self)@.orphaned()),
        );
        proof {
            filter_pairwise(old(self)@.next_updates, not(old(self)@.orphaned()), other_next());
        }
        count
    }

    /// Deletes what is older than `retention_days` days: snapshots and plays. Deletes the next
    /// updates of players who are bound to no account. Counts what went.
    pub fn prune_old_records(&mut self, retention_days: u64) -> (res: Result<
        (u64, u64, u64),
        StorageError,
    >)
        requires
            old(self).wf(),
        ensures
            final(self).wf(),
            exists|now: UtcTime|
                now.shown_by_clock() && final(self)@ == #[trigger] old(self)@.pruned_back(
                    retention_days,
                    now,
                ) && (before_year_10000(now.secs) ==> old(self)@.pruning_goes_by_age(
                    retention_days,
                    now,
                )),
            res matches Ok((stats, plays, next)) && {
                &&& stats == old(self)@.history.len() - final(self)@.history.len()
                &&& plays == old(self)@.plays.len() - final(self)@.plays.len()
                &&& next == old(self)@.next_updates.len() - final(self)@.next_updates.len()
            },
    {
        let now = utc_now();
        self.prune_old_records_at(retention_days, now)
    }
}

/// Whether the player is bound to some account.
fn is_bound(bindings: &Vec<BindingRow>, user_id: i64) -> (res: bool)
    ensures
        res == (first_where(views(bindings@), of_user(user_id)) is Some),
{
    exists_where(
        bindings,
        |b: &BindingRow| -> (r: bool) ensures r == (b.user_id == user_id) { b.user_id == user_id },
        Ghost(of_user(user_id)),
    )
}

} // verus!
