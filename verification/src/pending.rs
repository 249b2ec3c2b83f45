//! Requests that wait: to unbind for a confirmation, to bind for a code.
use crate::clock::chance_drew;
use crate::rows::{
    other_code, other_qq, PendingBindRow, PendingBindView, PendingUnbindRow, PendingUnbindView,
    TablesView,
};
use crate::storage::Storage;
use crate::table::{
    delete_where, exists_where, filter_contains, filter_holds, filter_pairwise, first_where,
    first_where_facts, first_where_kept, first_where_replaced, not, position_where, replace_where,
    views,
};
use crate::text::{text_eq, text_less, text_lt};
use crate::time::{
    before_year_10000, instant_of, instant_or, plain_year, seconds_between, utc_now, written_at,
    UtcTime,
};
use rand::RngExt;
use vstd::prelude::*;

verus! {

broadcast use crate::storage::group_storage;

/// How many seconds a request to unbind waits for its confirmation.
pub const UNBIND_SECONDS: i64 = 300;

/// How many seconds a request to bind waits for its code.
pub const BIND_SECONDS: i64 = 120;

/// How many digits a code has.
pub const CODE_LENGTH: usize = 6;

/// A request to bind that waits for its code, as callers see it.
#[derive(Clone, Debug, PartialEq, Eq)]
pub struct PendingBind {
    pub code: String,
    pub qq_user_id: i64,
    pub group_id: i64,
    pub target_username: String,
    pub created_at: UtcTime,
    pub expires_at: i64,
}

/// The text is a code: six decimal digits.
pub open spec fn is_code(s: Seq<char>) -> bool {
    &&& s.len() == CODE_LENGTH
    &&& forall|i: int| 0 <= i < s.len() ==> '0' <= #[trigger] s[i] && s[i] <= '9'
}

/// The character is a digit that chance has drawn.
pub open spec fn drawn_digit(c: char) -> bool {
    exists|digit: u8| #[trigger] chance_drew(10, digit) && c as int == '0' as int + digit
}

/// Every character of the text is a digit that chance has drawn.
pub open spec fn drawn_code(s: Seq<char>) -> bool {
    forall|i: int| 0 <= i < s.len() ==> drawn_digit(#[trigger] s[i])
}

/// The request of the account to unbind.
pub open spec fn unbind_of(qq: i64) -> spec_fn(PendingUnbindView) -> bool {
    |u: PendingUnbindView| u.qq == qq
}

/// The requests to unbind that were made before `cutoff`, a text.
pub open spec fn made_before(cutoff: Seq<char>) -> spec_fn(PendingUnbindView) -> bool {
    |u: PendingUnbindView| text_lt(u.created_at, cutoff)
}

/// The request to bind that waits for the code.
pub open spec fn waits_for(code: Seq<char>) -> spec_fn(PendingBindView) -> bool {
    |b: PendingBindView| b.code == code
}

/// The requests to bind that have expired before `now`.
pub open spec fn bind_expired(now: i64) -> spec_fn(PendingBindView) -> bool {
    |b: PendingBindView| b.expires_at < now
}

/// The requests of the account to bind that have not expired before `now`.
pub open spec fn bind_waiting(qq_user_id: i64, now: i64) -> spec_fn(PendingBindView) -> bool {
    |b: PendingBindView| b.qq_user_id == qq_user_id && b.expires_at >= now
}

impl TablesView {
    /// What a request to unbind makes of the tables.
    pub open spec fn with_pending_unbind(self, qq: i64, now: UtcTime) -> TablesView {
        TablesView {
            pending_unbinds: replace_where(
                self.pending_unbinds,
                unbind_of(qq),
                PendingUnbindView { qq, created_at: now.text() },
            ),
            ..self
        }
    }

    /// When the account asked to unbind, if it did so less than five minutes before `now`.
    pub open spec fn pending_unbind(self, qq: i64, now: UtcTime) -> Option<UtcTime> {
        match first_where(self.pending_unbinds, unbind_of(qq)) {
            Some(u) => match instant_of(u.created_at) {
                Some(t) => if seconds_between(now, t) < UNBIND_SECONDS {
                    Some(t)
                } else {
                    None
                },
                None => None,
            },
            None => None,
        }
    }

    /// From `now` on, the request of the account to unbind is found for five minutes and not after.
    pub open spec fn unbind_waits_from(self, qq: i64, now: UtcTime) -> bool {
        plain_year(now.secs) ==> forall|later: UtcTime| #[trigger]
            self.pending_unbind(qq, later) == if seconds_between(later, now) < UNBIND_SECONDS {
                Some(now)
            } else {
                None
            }
    }

    /// What pruning the requests to unbind at `now` makes of the tables.
    pub open spec fn unbinds_pruned(self, now: UtcTime) -> TablesView {
        self.without_pending_unbinds(made_before(now.plus_seconds(-UNBIND_SECONDS).text()))
    }

    /// Every request to unbind has an instant that the clock can show, written as the library
    /// writes it.
    pub open spec fn unbinds_recorded(self) -> bool {
        forall|u: PendingUnbindView| #[trigger]
            self.pending_unbinds.contains(u) ==> (instant_of(u.created_at) matches Some(t)
                && written_at(u.created_at, t) && t.nanos < 1_000_000_000)
    }

    /// Pruning the requests to unbind at `now` goes by time: it takes away exactly those that were
    /// made more than five minutes before, of those whose instants are written as the library
    /// writes them; and from then on it is not seen.
    pub open spec fn unbinds_pruned_by_time(self, now: UtcTime) -> bool {
        before_year_10000(now.secs) ==> {
            &&& forall|u: PendingUnbindView, t: UtcTime|
                self.pending_unbinds.contains(u) && #[trigger] written_at(u.created_at, t) ==> (
                self.unbinds_pruned(now).pending_unbinds.contains(u) <==> !t.before(
                    now.plus_seconds(-UNBIND_SECONDS),
                ))
            &&& self.unbinds_recorded() ==> forall|qq: i64, later: UtcTime|
                later.from_clock() && !later.before(now) ==> #[trigger] self.unbinds_pruned(
                    now,
                ).pending_unbind(qq, later) == self.pending_unbind(qq, later)
        }
    }

    /// The tables without the requests to unbind that satisfy `p`.
    pub open spec fn without_pending_unbinds(
        self,
        p: spec_fn(PendingUnbindView) -> bool,
    ) -> TablesView {
        TablesView { pending_unbinds: self.pending_unbinds.filter(not(p)), ..self }
    }

    /// What a request to bind makes of the tables.
    pub open spec fn with_pending_bind(
        self,
        code: Seq<char>,
        qq_user_id: i64,
        group_id: i64,
        target_username: Seq<char>,
        now: UtcTime,
    ) -> TablesView {
        TablesView {
            pending_binds: replace_where(
                self.pending_binds,
                waits_for(code),
                PendingBindView {
                    code,
                    qq_user_id,
                    group_id,
                    target_username,
                    created_at: now.text(),
                    expires_at: (now.secs + BIND_SECONDS) as i64,
                },
            ),
            ..self
        }
    }

    /// The request to bind that waits for the code, if it has not expired before `now`.
    pub open spec fn pending_bind(self, code: Seq<char>, now: i64) -> Option<PendingBindView> {
        match first_where(self.pending_binds, waits_for(code)) {
            Some(b) if now <= b.expires_at => Some(b),
            _ => None,
        }
    }

    /// The tables without the requests to bind that satisfy `p`.
    pub open spec fn without_pending_binds(
        self,
        p: spec_fn(PendingBindView) -> bool,
    ) -> TablesView {
        TablesView { pending_binds: self.pending_binds.filter(not(p)), ..self }
    }
}

/// What callers see of a request to bind. A start that cannot be read is shown as `now`.
pub open spec fn shows_pending_bind(res: PendingBind, b: PendingBindView, now: UtcTime) -> bool {
    &&& res.code@ == b.code
    &&& res.qq_user_id == b.qq_user_id
    &&& res.group_id == b.group_id
    &&& res.target_username@ == b.target_username
    &&& res.created_at == instant_or(b.created_at, now)
    &&& res.expires_at == b.expires_at
}

/// `res` is what callers see at `now` of the request to bind that waits for a code.
pub open spec fn answers_pending_bind(
    res: Option<PendingBind>,
    b: Option<PendingBindView>,
    now: UtcTime,
) -> bool {
    match b {
        Some(b) => res matches Some(found) && shows_pending_bind(found, b, now),
        None => res is None,
    }
}

/// Draws a number below `bound` with `random_range` of the generator `rand::rng`, which panics on
/// an empty range. Which one it is depends on chance.
#[verifier::external_body]
fn random_below(bound: u8) -> (res: u8)
    requires
        bound > 0,
    ensures
        res < bound,
        chance_drew(bound, res),
{
    rand::rng().random_range(0..bound)
}

/// The code that the drawn numbers make: one decimal digit for each.
pub fn code_of(digits: &Vec<u8>) -> (code: String)
    requires
        forall|i: int| 0 <= i < digits@.len() ==> #[trigger] digits@[i] < 10,
    ensures
        code@.len() == digits@.len(),
        forall|i: int|
            0 <= i < digits@.len() ==> (#[trigger] code@[i]) as int == '0' as int + digits@[i],
{
    let mut code = String::new();
    let mut i: usize = 0;
    while i < digits.len()
        invariant
            forall|i: int| 0 <= i < digits@.len() ==> #[trigger] digits@[i] < 10,
            i <= digits@.len(),
            code@.len() == i,
            forall|k: int| 0 <= k < i ==> (#[trigger] code@[k]) as int == '0' as int + digits@[k],
        decreases digits@.len() - i,
    {
        code.push((48 + digits[i]) as char);
        i += 1;
    }
    code
}

/// Draws a code.
pub fn random_code() -> (code: String)
    ensures
        is_code(code@),
        drawn_code(code@),
{
    let mut digits: Vec<u8> = Vec::new();
    while digits.len() < CODE_LENGTH
        invariant
            digits@.len() <= CODE_LENGTH,
            forall|k: int| 0 <= k < digits@.len() ==> #[trigger] digits@[k] < 10,
            forall|k: int| 0 <= k < digits@.len() ==> chance_drew(10, #[trigger] digits@[k]),
        decreases CODE_LENGTH - digits@.len(),
    {
        digits.push(random_below(10));
    }
    let code = code_of(&digits);
    proof {
        assert forall|i: int| 0 <= i < code@.len() implies drawn_digit(#[trigger] code@[i]) by {
            assert(chance_drew(10, digits@[i]));
        }
    }
    code
}

impl Storage {
    /// Notes at `now` that the account asks to unbind.
    pub fn set_pending_unbind_at(&mut self, qq: i64, now: UtcTime)
        requires
            old(self).wf(),
            now.valid(),
        ensures
            final(self).wf(),
            final(self)@ == old(self)@.with_pending_unbind(qq, now),
            now.reads_back(),
            final(self)@.unbind_waits_from(qq, now),
    {
        self.remove_pending_unbind(qq);
        proof {
            filter_holds(old(self)@.pending_unbinds, not(unbind_of(qq)));
        }
        let ghost kept = self.tables.pending_unbinds@;
        let row = PendingUnbindRow { qq, created_at: now.to_rfc3339() };
        self.tables.pending_unbinds.push(row);
        proof {
            assert(views(self.tables.pending_unbinds@) =~= views(kept).push(row@));
            first_where_replaced(old(self)@.pending_unbinds, unbind_of(qq), row@);
        }
    }

    /// Notes that the account asks to unbind. The request waits for five minutes.
    pub fn set_pending_unbind(&mut self, qq: i64)
        requires
            old(self).wf(),
        ensures
            final(self).wf(),
            exists|now: UtcTime|
                now.shown_by_clock() && final(self)@ == #[trigger] old(self)@.with_pending_unbind(
                    qq,
                    now,
                ) && now.reads_back() && final(self)@.unbind_waits_from(qq, now),
    {
        let now = utc_now();
        self.set_pending_unbind_at(qq, now);
    }

    /// When the account asked to unbind, if the request still waits at `now`.
    pub fn get_pending_unbind_at(&self, qq: i64, now: UtcTime) -> (res: Option<UtcTime>)
        requires
            self.wf(),
            now.valid(),
        ensures
            res == self@.pending_unbind(qq, now),
    {
        let found = position_where(
            &self.tables.pending_unbinds,
            |u: &PendingUnbindRow| -> (r: bool) ensures r == (u.qq == qq) { u.qq == qq },
            Ghost(unbind_of(qq)),
        );
        match found {
            Some(i) => match UtcTime::parse(self.tables.pending_unbinds[i].created_at.as_str()) {
                Some(t) => if now.seconds_since(t) < UNBIND_SECONDS {
                    Some(t)
                } else {
                    None
                },
                None => None,
            },
            None => None,
        }
    }

    /// When the account asked to unbind, if the request still waits.
    pub fn get_pending_unbind(&self, qq: i64) -> (res: Option<UtcTime>)
        requires
            self.wf(),
        ensures
            exists|now: UtcTime|
                now.shown_by_clock() && res == #[trigger] self@.pending_unbind(qq, now),
    {
        let now = utc_now();
        self.get_pending_unbind_at(qq, now)
    }

    /// Removes the request of the account to unbind.
    pub fn remove_pending_unbind(&mut self, qq: i64)
        requires
            old(self).wf(),
        ensures
            final(self).wf(),
            final(self)@ == old(self)@.without_pending_unbinds(unbind_of(qq)),
    {
        delete_where(
            &mut self.tables.pending_unbinds,
            |u: &PendingUnbindRow| -> (r: bool) ensures r == (u.qq == qq) { u.qq == qq },
            Ghost(unbind_of(qq)),
        );
        proof {
            filter_pairwise(old(self)@.pending_unbinds, not(unbind_of(qq)), other_qq());
        }
    }

    /// Removes the requests to unbind that were made more than five minutes before `now`, and
    /// counts them.
    pub fn prune_expired_pending_unbinds_at(&mut self, now: UtcTime) -> (res: u64)
        requires
            old(self).wf(),
            now.from_clock(),
        ensures
            final(self).wf(),
            final(self)@ == old(self)@.unbinds_pruned(now),
            res == old(self)@.pending_unbinds.len() - final(self)@.pending_unbinds.len(),
            old(self)@.unbinds_pruned_by_time(now),
    {
        let cutoff = now.checked_add(-UNBIND_SECONDS).unwrap();
        let text = cutoff.to_rfc3339();
        let ghost p = made_before(now.plus_seconds(-UNBIND_SECONDS).text());
        let count = delete_where(
            &mut self.tables.pending_unbinds,
            |u: &PendingUnbindRow| -> (r: bool)
                ensures r == text_lt(u.created_at@, text@) {
                text_less(u.created_at.as_str(), text.as_str())
            },
            Ghost(p),
        );
        proof {
            filter_pairwise(old(self)@.pending_unbinds, not(p), other_qq());
            if before_year_10000(now.secs) {
                let t0 = old(self)@;
                let s = t0.pending_unbinds;
                assert forall|u: PendingUnbindView, t: UtcTime|
                    s.contains(u) && #[trigger] written_at(u.created_at, t) implies (
                t0.unbinds_pruned(now).pending_unbinds.contains(u) <==> !t.before(cutoff)) by {
                    filter_contains(s, not(p), u);
                    assert(text_lt(t.text(), text@) <==> t.before(cutoff));
                }
                assert forall|qq: i64, later: UtcTime|
                    t0.unbinds_recorded() && later.from_clock() && !later.before(
                        now,
                    ) implies #[trigger] t0.unbinds_pruned(now).pending_unbind(qq, later)
                    == t0.pending_unbind(qq, later) by {
                    assert forall|i: int, j: int|
                        #![trigger s[i], s[j]]
                        0 <= i < j < s.len() implies !(unbind_of(qq)(s[i]) && unbind_of(qq)(
                        s[j],
                    )) by {
                        assert(other_qq()(s[i], s[j]));
                    }
                    first_where_kept(s, not(p), unbind_of(qq));
                    first_where_facts(s, unbind_of(qq));
                    if first_where(s, unbind_of(qq)) is Some {
                        let u = first_where(s, unbind_of(qq))->0;
                        let t = instant_of(u.created_at)->0;
                        assert(s.contains(u));
                        assert(written_at(u.created_at, t));
                        assert(text_lt(t.text(), text@) <==> t.before(cutoff));
                    }
                }
            }
        }
        count
    }

    /// Removes the requests to unbind that are older than five minutes, and counts them.
    pub fn prune_expired_pending_unbinds(&mut self) -> (res: u64)
        requires
            old(self).wf(),
        ensures
            final(self).wf(),
            exists|now: UtcTime|
                now.shown_by_clock() && final(self)@ == #[trigger] old(self)@.unbinds_pruned(now)
                    && old(self)@.unbinds_pruned_by_time(now),
            res == old(self)@.pending_unbinds.len() - final(self)@.pending_unbinds.len(),
    {
        let now = utc_now();
        self.prune_expired_pending_unbinds_at(now)
    }

    /// Notes at `now` that the account asks to bind to a player, and waits for the code. What
    /// waited for that code before is forgotten.
    pub fn add_pending_bind_at(
        &mut self,
        code: &str,
        qq_user_id: i64,
        group_id: i64,
        target_username: &str,
        now: UtcTime,
    )
        requires
            old(self).wf(),
            now.valid(),
        ensures
            final(self).wf(),
            final(self)@ == old(self)@.with_pending_bind(
                code@,
                qq_user_id,
                group_id,
                target_username@,
                now,
            ),
            now.reads_back(),
    {
        self.remove_pending_bind(code);
        proof {
            filter_holds(old(self)@.pending_binds, not(waits_for(code@)));
        }
        let ghost kept = self.tables.pending_binds@;
        let row = PendingBindRow {
            code: code.to_owned(),
            qq_user_id,
            group_id,
            target_username: target_username.to_owned(),
            created_at: now.to_rfc3339(),
            expires_at: now.secs + BIND_SECONDS,
        };
        self.tables.pending_binds.push(row);
        assert(views(self.tables.pending_binds@) =~= views(kept).push(row@));
    }

    /// Notes that the account asks to bind to a player, and returns the code for which the request
    /// waits two minutes.
    pub fn add_pending_bind(&mut self, qq_user_id: i64, group_id: i64, target_username: &str) -> (code:
        String)
        requires
            old(self).wf(),
        ensures
            final(self).wf(),
            is_code(code@),
            drawn_code(code@),
            exists|now: UtcTime|
                now.shown_by_clock() && final(self)@ == #[trigger] old(self)@.with_pending_bind(
                    code@,
                    qq_user_id,
                    group_id,
                    target_username@,
                    now,
                ) && now.reads_back(),
    {
        let code = random_code();
        let now = utc_now();
        self.add_pending_bind_at(code.as_str(), qq_user_id, group_id, target_username, now);
        code
    }

    /// The request that waits at `now` for the code. A start that cannot be read is shown as
    /// `now`.
    pub fn get_pending_bind_at(&self, code: &str, now: UtcTime) -> (res: Option<PendingBind>)
        requires
            self.wf(),
        ensures
            answers_pending_bind(res, self@.pending_bind(code@, now.secs), now),
    {
        let found = position_where(
            &self.tables.pending_binds,
            |b: &PendingBindRow| -> (r: bool)
                ensures r == (b.code@ == code@) { text_eq(b.code.as_str(), code) },
            Ghost(waits_for(code@)),
        );
        match found {
            Some(i) => {
                let b = &self.tables.pending_binds[i];
                if now.secs > b.expires_at {
                    return None;
                }
                Some(
                    PendingBind {
                        code: b.code.clone(),
                        qq_user_id: b.qq_user_id,
                        group_id: b.group_id,
                        target_username: b.target_username.clone(),
                        created_at: UtcTime::parse_or(b.created_at.as_str(), now),
                        expires_at: b.expires_at,
                    },
                )
            },
            None => None,
        }
    }

    /// The request that waits for the code.
    pub fn get_pending_bind(&self, code: &str) -> (res: Option<PendingBind>)
        requires
            self.wf(),
        ensures
            exists|now: UtcTime| #[trigger]
                now.shown_by_clock() && answers_pending_bind(
                    res,
                    self@.pending_bind(code@, now.secs),
                    now,
                ),
    {
        let now = utc_now();
        self.get_pending_bind_at(code, now)
    }

    /// Removes the request that waits for the code.
    pub fn remove_pending_bind(&mut self, code: &str)
        requires
            old(self).wf(),
        ensures
            final(self).wf(),
            final(self)@ == old(self)@.without_pending_binds(waits_for(code@)),
    {
        delete_where(
            &mut self.tables.pending_binds,
            |b: &PendingBindRow| -> (r: bool)
                ensures r == (b.code@ == code@) { text_eq(b.code.as_str(), code) },
            Ghost(waits_for(code@)),
        );
        proof {
            filter_pairwise(old(self)@.pending_binds, not(waits_for(code@)), other_code());
        }
    }

    /// Removes the requests to bind that have expired before the timestamp `now`, and counts them.
    pub fn prune_expired_pending_binds_at(&mut self, now: i64) -> (res: u64)
        requires
            old(self).wf(),
        ensures
            final(self).wf(),
            final(self)@ == old(self)@.without_pending_binds(bind_expired(now)),
            res == old(self)@.pending_binds.len() - final(self)@.pending_binds.len(),
    {
        let count = delete_where(
            &mut self.tables.pending_binds,
            |b: &PendingBindRow| -> (r: bool)
                ensures r == (b.expires_at < now) { b.expires_at < now },
            Ghost(bind_expired(now)),
        );
        proof {
            filter_pairwise(old(self)@.pending_binds, not(bind_expired(now)), other_code());
        }
        count
    }

    /// Removes the requests to bind that have expired, and counts them.
    pub fn prune_expired_pending_binds(&mut self) -> (res: u64)
        requires
            old(self).wf(),
        ensures
            final(self).wf(),
            exists|now: UtcTime|
                now.shown_by_clock() && final(self)@ == old(self)@.without_pending_binds(
                    #[trigger] bind_expired(now.secs),
                ),
            res == old(self)@.pending_binds.len() - final(self)@.pending_binds.len(),
    {
        let now = utc_now();
        self.prune_expired_pending_binds_at(now.secs)
    }

    /// Whether a request of the account to bind still waits at the timestamp `now`.
    pub fn has_pending_bind_at(&self, qq_user_id: i64, now: i64) -> (res: bool)
        requires
            self.wf(),
        ensures
            res == (first_where(self@.pending_binds, bind_waiting(qq_user_id, now)) is Some),
    {
        exists_where(
            &self.tables.pending_binds,
            |b: &PendingBindRow| -> (r: bool)
                ensures r == (b.qq_user_id == qq_user_id && b.expires_at >= now) {
                b.qq_user_id == qq_user_id && b.expires_at >= now
            },
            Ghost(bind_waiting(qq_user_id, now)),
        )
    }

    /// Whether a request of the account to bind still waits.
    pub fn has_pending_bind(&self, qq_user_id: i64) -> (res: bool)
        requires
            self.wf(),
        ensures
            exists|now: UtcTime|
                now.shown_by_clock() && res == (first_where(
                    self@.pending_binds,
                    #[trigger] bind_waiting(qq_user_id, now.secs),
                ) is Some),
    {
        let now = utc_now();
        self.has_pending_bind_at(qq_user_id, now.secs)
    }
}

} // verus!
