//! Requests to unbind and to bind, and how long they wait.
use crate::calls::plain::{
    comes_before, differences_are_in_nanoseconds, epoch_nanos, first_place, instants_are_texts,
    ordinary, read_instant, texts_are_compared_by_first_difference, written,
};
use crate::calls::updates::pushed_contains;
use crate::clock::chance_drew;
use crate::pending::{
    answers_pending_bind, bind_expired, bind_waiting, code_of, drawn_digit, made_before,
    random_code, unbind_of, waits_for, PendingBind,
};
use crate::rows::{other_code, other_qq, PendingBindView, PendingUnbindView, TablesView};
use crate::storage::Storage;
use crate::table::{filter_contains, first_where, not};
use crate::time::{seconds_between, UtcTime};
use vstd::prelude::*;

verus! {

broadcast use crate::storage::wf_tables;

/// Drawn numbers make a code with one decimal digit for each, in order.
pub proof fn codes_have_the_drawn_digits(digits: &Vec<u8>, code: String)
    requires
        forall|i: int| 0 <= i < digits@.len() ==> #[trigger] digits@[i] < 10,
        call_ensures(code_of, (digits,), code),
    ensures
        code@.len() == digits@.len(),
        forall|i: int|
            0 <= i < digits@.len() ==> '0' <= #[trigger] code@[i] && code@[i] <= '9' && code@[i] as int
                - '0' as int == digits@[i],
{
}

/// The character is the decimal digit of a number below ten that chance has drawn.
pub open spec fn digit_of_chance(c: char) -> bool {
    '0' <= c && c <= '9' && exists|n: u8| #[trigger] chance_drew(10, n) && n == c as int - '0' as int
}

/// The text is six decimal digits, each drawn by chance.
pub open spec fn six_drawn_digits(code: Seq<char>) -> bool {
    code.len() == 6 && forall|i: int| 0 <= i < 6 ==> digit_of_chance(#[trigger] code[i])
}

proof fn drawn(code: Seq<char>)
    requires
        crate::pending::is_code(code),
        crate::pending::drawn_code(code),
    ensures
        six_drawn_digits(code),
{
    assert forall|i: int| 0 <= i < 6 implies digit_of_chance(#[trigger] code[i]) by {
        assert(drawn_digit(code[i]));
        let digit = choose|digit: u8| #[trigger]
            chance_drew(10, digit) && code[i] as int == '0' as int + digit;
        assert(chance_drew(10, digit));
    }
}

/// A code is six decimal digits that chance has drawn.
pub proof fn codes_are_drawn(code: String)
    requires
        call_ensures(random_code, (), code),
    ensures
        six_drawn_digits(code@),
{
    drawn(code@);
}

/// The account has one request to unbind, with the text of the instant; those of all other accounts
/// stay, and nothing else is changed.
pub open spec fn unbind_is_asked(
    before: TablesView,
    after: TablesView,
    qq: i64,
    now: UtcTime,
) -> bool {
    &&& after == (TablesView { pending_unbinds: after.pending_unbinds, ..before })
    &&& forall|u: PendingUnbindView| #[trigger]
        after.pending_unbinds.contains(u) <==> if u.qq == qq {
            u.created_at == written(now)
        } else {
            before.pending_unbinds.contains(u)
        }
}

proof fn unbind_asked(t: TablesView, qq: i64, now: UtcTime)
    ensures
        unbind_is_asked(t, t.with_pending_unbind(qq, now), qq, now),
{
    let after = t.with_pending_unbind(qq, now);
    let row = PendingUnbindView { qq, created_at: now.text() };
    let kept = t.pending_unbinds.filter(not(unbind_of(qq)));
    assert(after.pending_unbinds == kept.push(row));
    assert forall|u: PendingUnbindView| #[trigger]
        after.pending_unbinds.contains(u) <==> if u.qq == qq {
            u.created_at == written(now)
        } else {
            t.pending_unbinds.contains(u)
        } by {
        pushed_contains(kept, row, u);
        filter_contains(t.pending_unbinds, not(unbind_of(qq)), u);
    }
}

/// A request to unbind is noted under the instant that is given.
pub proof fn request_to_unbind_is_noted(s: &mut Storage, qq: i64, now: UtcTime)
    requires
        call_ensures(Storage::set_pending_unbind_at, (s, qq, now), ()),
    ensures
        unbind_is_asked(old(s)@, final(s)@, qq, now),
{
    unbind_asked(old(s)@, qq, now);
}

/// The same by the clock.
pub proof fn request_to_unbind_is_noted_now(s: &mut Storage, qq: i64)
    requires
        call_ensures(Storage::set_pending_unbind, (s, qq), ()),
    ensures
        exists|now: UtcTime| #[trigger]
            now.shown_by_clock() && unbind_is_asked(old(s)@, final(s)@, qq, now),
{
    let now = choose|now: UtcTime|
        now.shown_by_clock() && final(s)@ == #[trigger] old(s)@.with_pending_unbind(qq, now);
    unbind_asked(old(s)@, qq, now);
    assert(now.shown_by_clock() && unbind_is_asked(old(s)@, final(s)@, qq, now));
}

/// The request was made less than five minutes before `now`.
pub open spec fn within_five_minutes(made: UtcTime, now: UtcTime) -> bool {
    if ordinary(made) && ordinary(now) {
        epoch_nanos(now) - epoch_nanos(made) < 300_000_000_000
    } else {
        seconds_between(now, made) < 300
    }
}

/// `res` is the instant of the account's request, where it can be read and was made less than five
/// minutes before `now`; in every other case there is none.
pub open spec fn unbind_found_rightly(
    t: TablesView,
    qq: i64,
    now: UtcTime,
    res: Option<UtcTime>,
) -> bool {
    &&& forall|i: int|
        0 <= i < t.pending_unbinds.len() && (#[trigger] t.pending_unbinds[i]).qq == qq
            ==> match read_instant(t.pending_unbinds[i].created_at) {
            Some(made) => res == if within_five_minutes(made, now) {
                Some(made)
            } else {
                None
            },
            None => res is None,
        }
    &&& res is Some ==> exists|i: int|
        0 <= i < t.pending_unbinds.len() && (#[trigger] t.pending_unbinds[i]).qq == qq
}

proof fn unbind_found(t: TablesView, qq: i64, now: UtcTime)
    requires
        t.wf(),
    ensures
        unbind_found_rightly(t, qq, now, t.pending_unbind(qq, now)),
{
    let rows = t.pending_unbinds;
    let res = t.pending_unbind(qq, now);
    let k = first_place(rows, unbind_of(qq));
    assert forall|i: int| 0 <= i < rows.len() && (#[trigger] rows[i]).qq == qq implies i == k
        && first_where(rows, unbind_of(qq)) == Some(rows[i]) by {
        assert(unbind_of(qq)(rows[i]));
        if k < i {
            assert(other_qq()(rows[k], rows[i]));
        }
    }
    if first_where(rows, unbind_of(qq)) is Some {
        assert(rows[k].qq == qq);
        instants_are_texts(now, rows[k].created_at, now);
        if read_instant(rows[k].created_at) is Some {
            let made = read_instant(rows[k].created_at)->0;
            if ordinary(made) && ordinary(now) {
                differences_are_in_nanoseconds(now, made);
            }
        }
    }
}

/// A request to unbind is found for five minutes, by the instant that is given and by the clock.
pub proof fn request_to_unbind_waits_five_minutes(
    s: &Storage,
    qq: i64,
    now: UtcTime,
    res: Option<UtcTime>,
    by_clock: Option<UtcTime>,
)
    requires
        s.wf(),
        call_ensures(Storage::get_pending_unbind_at, (s, qq, now), res),
        call_ensures(Storage::get_pending_unbind, (s, qq), by_clock),
    ensures
        unbind_found_rightly(s@, qq, now, res),
        exists|read: UtcTime| #[trigger]
            read.shown_by_clock() && unbind_found_rightly(s@, qq, read, by_clock),
{
    unbind_found(s@, qq, now);
    let read = choose|read: UtcTime|
        read.shown_by_clock() && by_clock == #[trigger] s@.pending_unbind(qq, read);
    unbind_found(s@, qq, read);
    assert(read.shown_by_clock() && unbind_found_rightly(s@, qq, read, by_clock));
}

/// Removing the request of an account takes away that one and nothing else.
pub proof fn removed_request_to_unbind_is_gone(s: &mut Storage, qq: i64)
    requires
        call_ensures(Storage::remove_pending_unbind, (s, qq), ()),
    ensures
        final(s)@ == (TablesView { pending_unbinds: final(s)@.pending_unbinds, ..old(s)@ }),
        forall|u: PendingUnbindView| #[trigger]
            final(s)@.pending_unbinds.contains(u) <==> old(s)@.pending_unbinds.contains(u) && u.qq
                != qq,
{
    assert forall|u: PendingUnbindView| #[trigger]
        final(s)@.pending_unbinds.contains(u) <==> old(s)@.pending_unbinds.contains(u) && u.qq
            != qq by {
        filter_contains(old(s)@.pending_unbinds, not(unbind_of(qq)), u);
    }
}

/// The requests to unbind go whose text comes before that of five minutes before `now`; all else
/// stays.
pub open spec fn unbinds_go_rightly(before: TablesView, after: TablesView, now: UtcTime) -> bool {
    &&& after == (TablesView { pending_unbinds: after.pending_unbinds, ..before })
    &&& forall|limit: UtcTime| #[trigger]
        five_minutes_before(limit, now) ==> forall|u: PendingUnbindView| #[trigger]
            after.pending_unbinds.contains(u) <==> before.pending_unbinds.contains(u)
                && !comes_before(u.created_at, written(limit))
}

/// The instant is 300 seconds before another.
pub open spec fn five_minutes_before(limit: UtcTime, now: UtcTime) -> bool {
    limit.secs == now.secs - 300 && limit.nanos == now.nanos
}

proof fn unbinds_go(t: TablesView, now: UtcTime)
    requires
        now.from_clock(),
    ensures
        unbinds_go_rightly(t, t.unbinds_pruned(now), now),
{
    let after = t.unbinds_pruned(now);
    assert forall|limit: UtcTime| #[trigger] five_minutes_before(limit, now) implies forall|
        u: PendingUnbindView,
    | #[trigger]
        after.pending_unbinds.contains(u) <==> t.pending_unbinds.contains(u) && !comes_before(
            u.created_at,
            written(limit),
        ) by {
        assert forall|u: PendingUnbindView| #[trigger]
            after.pending_unbinds.contains(u) <==> t.pending_unbinds.contains(u) && !comes_before(
                u.created_at,
                written(limit),
            ) by {
            filter_contains(t.pending_unbinds, not(made_before(limit.text())), u);
            texts_are_compared_by_first_difference(u.created_at, written(limit));
        }
    }
}

/// Pruning takes away the requests to unbind of more than five minutes before, and counts them.
pub proof fn old_requests_to_unbind_go(s: &mut Storage, now: UtcTime, res: u64)
    requires
        now.from_clock(),
        call_ensures(Storage::prune_expired_pending_unbinds_at, (s, now), res),
    ensures
        unbinds_go_rightly(old(s)@, final(s)@, now),
        res == old(s)@.pending_unbinds.len() - final(s)@.pending_unbinds.len(),
{
    unbinds_go(old(s)@, now);
}

/// The same by the clock.
pub proof fn old_requests_to_unbind_go_now(s: &mut Storage, res: u64)
    requires
        call_ensures(Storage::prune_expired_pending_unbinds, (s,), res),
    ensures
        exists|now: UtcTime| #[trigger]
            now.shown_by_clock() && unbinds_go_rightly(old(s)@, final(s)@, now),
        res == old(s)@.pending_unbinds.len() - final(s)@.pending_unbinds.len(),
{
    let now = choose|now: UtcTime|
        now.shown_by_clock() && final(s)@ == #[trigger] old(s)@.unbinds_pruned(now);
    unbinds_go(old(s)@, now);
    assert(now.shown_by_clock() && unbinds_go_rightly(old(s)@, final(s)@, now));
}

/// One request waits for the code: that of the account, for the player, until 120 seconds after the
/// instant. Those that wait for other codes stay, and nothing else is changed.
pub open spec fn bind_is_asked(
    before: TablesView,
    after: TablesView,
    code: Seq<char>,
    qq_user_id: i64,
    group_id: i64,
    username: Seq<char>,
    now: UtcTime,
) -> bool {
    &&& after == (TablesView { pending_binds: after.pending_binds, ..before })
    &&& forall|b: PendingBindView| #[trigger]
        after.pending_binds.contains(b) <==> if b.code == code {
            &&& b.qq_user_id == qq_user_id
            &&& b.group_id == group_id
            &&& b.target_username == username
            &&& b.created_at == written(now)
            &&& b.expires_at == now.secs + 120
        } else {
            before.pending_binds.contains(b)
        }
}

proof fn bind_asked(
    t: TablesView,
    code: Seq<char>,
    qq_user_id: i64,
    group_id: i64,
    username: Seq<char>,
    now: UtcTime,
)
    requires
        now.valid(),
    ensures
        bind_is_asked(
            t,
            t.with_pending_bind(code, qq_user_id, group_id, username, now),
            code,
            qq_user_id,
            group_id,
            username,
            now,
        ),
{
    let after = t.with_pending_bind(code, qq_user_id, group_id, username, now);
    let row = PendingBindView {
        code,
        qq_user_id,
        group_id,
        target_username: username,
        created_at: now.text(),
        expires_at: (now.secs + 120) as i64,
    };
    let kept = t.pending_binds.filter(not(waits_for(code)));
    assert(after.pending_binds == kept.push(row));
    assert forall|b: PendingBindView| #[trigger]
        after.pending_binds.contains(b) <==> if b.code == code {
            b == row
        } else {
            t.pending_binds.contains(b)
        } by {
        pushed_contains(kept, row, b);
        filter_contains(t.pending_binds, not(waits_for(code)), b);
    }
}

/// A request to bind waits for its code until two minutes after the instant that is given.
pub proof fn request_to_bind_is_noted(
    s: &mut Storage,
    code: &str,
    qq_user_id: i64,
    group_id: i64,
    username: &str,
    now: UtcTime,
)
    requires
        now.valid(),
        call_ensures(
            Storage::add_pending_bind_at,
            (s, code, qq_user_id, group_id, username, now),
            (),
        ),
    ensures
        bind_is_asked(old(s)@, final(s)@, code@, qq_user_id, group_id, username@, now),
{
    bind_asked(old(s)@, code@, qq_user_id, group_id, username@, now);
}

/// The same by the clock, for a code that chance has drawn and that is given back.
pub proof fn request_to_bind_is_noted_now(
    s: &mut Storage,
    qq_user_id: i64,
    group_id: i64,
    username: &str,
    code: String,
)
    requires
        call_ensures(Storage::add_pending_bind, (s, qq_user_id, group_id, username), code),
    ensures
        six_drawn_digits(code@),
        exists|now: UtcTime| #[trigger]
            now.shown_by_clock() && bind_is_asked(
                old(s)@,
                final(s)@,
                code@,
                qq_user_id,
                group_id,
                username@,
                now,
            ),
{
    drawn(code@);
    let now = choose|now: UtcTime|
        now.shown_by_clock() && final(s)@ == #[trigger] old(s)@.with_pending_bind(
            code@,
            qq_user_id,
            group_id,
            username@,
            now,
        );
    bind_asked(old(s)@, code@, qq_user_id, group_id, username@, now);
    assert(now.shown_by_clock() && bind_is_asked(
        old(s)@,
        final(s)@,
        code@,
        qq_user_id,
        group_id,
        username@,
        now,
    ));
}

/// `res` shows the request that waits for the code, each column as it is kept, where it has not
/// expired before `now`: from the second after its last one on there is none, and there is none
/// where no request waits for the code.
pub open spec fn bind_found_rightly(
    t: TablesView,
    code: Seq<char>,
    now: UtcTime,
    res: Option<PendingBind>,
) -> bool {
    &&& forall|i: int|
        0 <= i < t.pending_binds.len() && (#[trigger] t.pending_binds[i]).code == code ==> {
            let b = t.pending_binds[i];
            &&& now.secs > b.expires_at ==> res is None
            &&& now.secs <= b.expires_at ==> res is Some
        }
    &&& res matches Some(found) ==> exists|i: int|
        0 <= i < t.pending_binds.len() && (#[trigger] t.pending_binds[i]).code == code && {
            let b = t.pending_binds[i];
            &&& found.code@ == code
            &&& found.qq_user_id == b.qq_user_id
            &&& found.group_id == b.group_id
            &&& found.target_username@ == b.target_username
            &&& found.expires_at == b.expires_at
            &&& read_instant(b.created_at) matches Some(made) ==> found.created_at == made
            &&& read_instant(b.created_at) is None ==> found.created_at == now
        }
}

proof fn bind_found(t: TablesView, code: Seq<char>, now: UtcTime, res: Option<PendingBind>)
    requires
        t.wf(),
        answers_pending_bind(res, t.pending_bind(code, now.secs), now),
    ensures
        bind_found_rightly(t, code, now, res),
{
    let rows = t.pending_binds;
    let k = first_place(rows, waits_for(code));
    assert forall|i: int| 0 <= i < rows.len() && (#[trigger] rows[i]).code == code implies i == k
        && first_where(rows, waits_for(code)) == Some(rows[i]) by {
        assert(waits_for(code)(rows[i]));
        if k < i {
            assert(other_code()(rows[k], rows[i]));
        }
    }
    if first_where(rows, waits_for(code)) is Some {
        assert(rows[k].code == code);
        instants_are_texts(now, rows[k].created_at, now);
    }
}

/// A request to bind is found under its code until it has expired, and never after: by the instant
/// that is given, and by what the clock shows when it is asked.
pub proof fn request_to_bind_expires(
    s: &Storage,
    code: &str,
    now: UtcTime,
    res: Option<PendingBind>,
    by_clock: Option<PendingBind>,
)
    requires
        s.wf(),
        call_ensures(Storage::get_pending_bind_at, (s, code, now), res),
        call_ensures(Storage::get_pending_bind, (s, code), by_clock),
    ensures
        bind_found_rightly(s@, code@, now, res),
        exists|read: UtcTime| #[trigger]
            read.shown_by_clock() && bind_found_rightly(s@, code@, read, by_clock),
{
    bind_found(s@, code@, now, res);
    let read = choose|read: UtcTime| #[trigger]
        read.shown_by_clock() && answers_pending_bind(
            by_clock,
            s@.pending_bind(code@, read.secs),
            read,
        );
    bind_found(s@, code@, read, by_clock);
}

/// A code that was given is good for 120 seconds by the clock: where the clock shows more than that
/// when the code is looked up, the request is not found, and before it is, with the account, the
/// group and the name that it was made with.
pub proof fn codes_are_good_for_two_minutes(
    s: &mut Storage,
    qq_user_id: i64,
    group_id: i64,
    username: &str,
    code: String,
    later: &Storage,
    asked: &str,
    res: Option<PendingBind>,
)
    requires
        call_ensures(Storage::add_pending_bind, (s, qq_user_id, group_id, username), code),
        later.wf(),
        later@ == final(s)@,
        asked@ == code@,
        call_ensures(Storage::get_pending_bind, (later, asked), res),
    ensures
        exists|made: UtcTime, read: UtcTime|
            #![trigger made.shown_by_clock(), read.shown_by_clock()]
            made.shown_by_clock() && read.shown_by_clock() && (res is Some <==> read.secs
                <= made.secs + 120),
        res matches Some(found) ==> found.qq_user_id == qq_user_id && found.group_id == group_id
            && found.target_username@ == username@,
{
    let made = choose|made: UtcTime|
        made.shown_by_clock() && final(s)@ == #[trigger] old(s)@.with_pending_bind(
            code@,
            qq_user_id,
            group_id,
            username@,
            made,
        );
    bind_asked(old(s)@, code@, qq_user_id, group_id, username@, made);
    let read = choose|read: UtcTime| #[trigger]
        read.shown_by_clock() && answers_pending_bind(
            res,
            later@.pending_bind(code@, read.secs),
            read,
        );
    bind_found(later@, code@, read, res);
    let rows = later@.pending_binds;
    let row = PendingBindView {
        code: code@,
        qq_user_id,
        group_id,
        target_username: username@,
        created_at: written(made),
        expires_at: (made.secs + 120) as i64,
    };
    assert(rows.contains(row));
    let k = choose|k: int| 0 <= k < rows.len() && rows[k] == row;
    assert(rows[k].code == code@);
    if res is Some {
        let i = choose|i: int|
            0 <= i < rows.len() && (#[trigger] rows[i]).code == code@ && {
                let b = rows[i];
                &&& res->0.qq_user_id == b.qq_user_id
                &&& res->0.group_id == b.group_id
                &&& res->0.target_username@ == b.target_username
            };
        assert(rows.contains(rows[i]));
    }
    assert(made.shown_by_clock() && read.shown_by_clock());
}

/// Removing a request to bind takes away the one that waits for the code and nothing else.
pub proof fn removed_request_to_bind_is_gone(s: &mut Storage, code: &str)
    requires
        call_ensures(Storage::remove_pending_bind, (s, code), ()),
    ensures
        final(s)@ == (TablesView { pending_binds: final(s)@.pending_binds, ..old(s)@ }),
        forall|b: PendingBindView| #[trigger]
            final(s)@.pending_binds.contains(b) <==> old(s)@.pending_binds.contains(b) && b.code
                != code@,
{
    assert forall|b: PendingBindView| #[trigger]
        final(s)@.pending_binds.contains(b) <==> old(s)@.pending_binds.contains(b) && b.code
            != code@ by {
        filter_contains(old(s)@.pending_binds, not(waits_for(code@)), b);
    }
}

/// The requests to bind go that have expired before the timestamp; all else stays.
pub open spec fn binds_go_rightly(before: TablesView, after: TablesView, ts: i64) -> bool {
    &&& after == (TablesView { pending_binds: after.pending_binds, ..before })
    &&& forall|b: PendingBindView| #[trigger]
        after.pending_binds.contains(b) <==> before.pending_binds.contains(b) && ts <= b.expires_at
}

proof fn binds_go(t: TablesView, ts: i64)
    ensures
        binds_go_rightly(t, t.without_pending_binds(bind_expired(ts)), ts),
{
    let after = t.without_pending_binds(bind_expired(ts));
    assert forall|b: PendingBindView| #[trigger]
        after.pending_binds.contains(b) <==> t.pending_binds.contains(b) && ts <= b.expires_at by {
        filter_contains(t.pending_binds, not(bind_expired(ts)), b);
    }
}

/// Pruning takes away the requests to bind that have expired, and counts them.
pub proof fn expired_requests_to_bind_go(s: &mut Storage, now: i64, res: u64)
    requires
        call_ensures(Storage::prune_expired_pending_binds_at, (s, now), res),
    ensures
        binds_go_rightly(old(s)@, final(s)@, now),
        res == old(s)@.pending_binds.len() - final(s)@.pending_binds.len(),
{
    binds_go(old(s)@, now);
}

/// The same by the clock.
pub proof fn expired_requests_to_bind_go_now(s: &mut Storage, res: u64)
    requires
        call_ensures(Storage::prune_expired_pending_binds, (s,), res),
    ensures
        exists|now: UtcTime| #[trigger]
            now.shown_by_clock() && binds_go_rightly(old(s)@, final(s)@, now.secs),
        res == old(s)@.pending_binds.len() - final(s)@.pending_binds.len(),
{
    let now = choose|now: UtcTime|
        now.shown_by_clock() && final(s)@ == old(s)@.without_pending_binds(
            #[trigger] bind_expired(now.secs),
        );
    binds_go(old(s)@, now.secs);
    assert(now.shown_by_clock() && binds_go_rightly(old(s)@, final(s)@, now.secs));
}

/// Some request of the account has not expired before the timestamp.
pub open spec fn request_waits(t: TablesView, qq_user_id: i64, ts: i64) -> bool {
    exists|i: int|
        0 <= i < t.pending_binds.len() && (#[trigger] t.pending_binds[i]).qq_user_id == qq_user_id
            && ts <= t.pending_binds[i].expires_at
}

proof fn waiting(t: TablesView, qq_user_id: i64, ts: i64)
    ensures
        first_where(t.pending_binds, bind_waiting(qq_user_id, ts)) is Some <==> request_waits(
            t,
            qq_user_id,
            ts,
        ),
{
    let rows = t.pending_binds;
    let p = bind_waiting(qq_user_id, ts);
    let k = first_place(rows, p);
    if first_where(rows, p) is Some {
        assert(rows[k].qq_user_id == qq_user_id);
    }
    if request_waits(t, qq_user_id, ts) {
        let i = choose|i: int|
            0 <= i < rows.len() && (#[trigger] rows[i]).qq_user_id == qq_user_id && ts
                <= rows[i].expires_at;
        assert(p(rows[i]));
    }
}

/// An account has a request to bind exactly where one of its requests has not expired, by the
/// timestamp that is given and by the clock.
pub proof fn waiting_requests_are_seen(
    s: &Storage,
    qq_user_id: i64,
    now: i64,
    res: bool,
    by_clock: bool,
)
    requires
        call_ensures(Storage::has_pending_bind_at, (s, qq_user_id, now), res),
        call_ensures(Storage::has_pending_bind, (s, qq_user_id), by_clock),
    ensures
        res == request_waits(s@, qq_user_id, now),
        exists|read: UtcTime| #[trigger]
            read.shown_by_clock() && by_clock == request_waits(s@, qq_user_id, read.secs),
{
    waiting(s@, qq_user_id, now);
    let read = choose|read: UtcTime|
        read.shown_by_clock() && by_clock == (first_where(
            s@.pending_binds,
            #[trigger] bind_waiting(qq_user_id, read.secs),
        ) is Some);
    waiting(s@, qq_user_id, read.secs);
    assert(read.shown_by_clock() && by_clock == request_waits(s@, qq_user_id, read.secs));
}

} // verus!
