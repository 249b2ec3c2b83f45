//! Accounts, the players they are bound to, and the players' numbers.
use crate::bindings::{
    above_qq, below_qq, id_named, id_of, named, next_of_user, of_qq, of_user, to_rename,
};
use crate::calls::plain::{
    first_place, lower_case_is_plain, lowered, mode_number, names_are_compared_by_letters,
    same_letters,
};
use crate::rows::{BindingView, NextUpdateRow, TablesView, UserIdView};
use crate::storage::Storage;
use crate::table::{filter_contains, first_where_facts, not, views};
use crate::text::lower;
use crate::types::{GameMode, StorageError};
use vstd::prelude::*;

verus! {

broadcast use crate::storage::wf_tables;

/// The `i`th binding is the first of the player.
pub open spec fn first_bound(t: TablesView, i: int, user_id: i64) -> bool {
    &&& 0 <= i < t.bindings.len()
    &&& t.bindings[i].user_id == user_id
    &&& forall|j: int| 0 <= j < i ==> (#[trigger] t.bindings[j]).user_id != user_id
}

/// Where the player is bound to another account first, a bind says to which and changes nothing.
/// Otherwise the account has the player and the name, in the mode of number zero, and nothing of
/// any other account and of any other table is changed.
pub proof fn bind_binds(
    s: &mut Storage,
    qq: i64,
    user_id: i64,
    name: &str,
    res: Result<(), i64>,
)
    requires
        old(s).wf(),
        call_ensures(Storage::bind, (s, qq, user_id, name), res),
    ensures
        final(s).wf(),
        res is Err <==> exists|i: int| #[trigger]
            first_bound(old(s)@, i, user_id) && old(s)@.bindings[i].qq != qq,
        res matches Err(other) ==> final(s)@ == old(s)@ && exists|i: int| #[trigger]
            first_bound(old(s)@, i, user_id) && old(s)@.bindings[i].qq == other,
        res is Ok ==> final(s)@ == (TablesView { bindings: final(s)@.bindings, ..old(s)@ }),
        res is Ok ==> forall|b: BindingView| #[trigger]
            final(s)@.bindings.contains(b) <==> if b.qq == qq {
                b.user_id == user_id && b.current_username == name@ && b.default_mode == 0
            } else {
                old(s)@.bindings.contains(b)
            },
{
    let (t, after) = (old(s)@, final(s)@);
    let k = first_place(t.bindings, of_user(user_id));
    if t.holder(user_id) is Some {
        assert(first_bound(t, k, user_id));
    }
    assert forall|i: int| #[trigger] first_bound(t, i, user_id) implies t.holder(user_id) is Some
        && i == k by {
        assert(of_user(user_id)(t.bindings[i]));
    }
    if res is Ok {
        let row = BindingView { qq, user_id, current_username: name@, default_mode: 0 };
        let (head, tail) = (t.bindings.filter(below_qq(qq)), t.bindings.filter(above_qq(qq)));
        assert(after.bindings == head.push(row) + tail);
        assert forall|b: BindingView| #[trigger] after.bindings.contains(b) <==> if b.qq == qq {
            b == row
        } else {
            t.bindings.contains(b)
        } by {
            filter_contains(t.bindings, below_qq(qq), b);
            filter_contains(t.bindings, above_qq(qq), b);
            if after.bindings.contains(b) {
                let i = choose|i: int| 0 <= i < after.bindings.len() && after.bindings[i] == b;
                if i < head.len() {
                    assert(head.contains(head[i]));
                } else if i > head.len() {
                    assert(tail.contains(tail[i - head.len() - 1]));
                }
            }
            if b == row {
                assert(after.bindings[head.len() as int] == row);
            } else if head.contains(b) {
                let i = choose|i: int| 0 <= i < head.len() && head[i] == b;
                assert(after.bindings[i] == b);
            } else if tail.contains(b) {
                let i = choose|i: int| 0 <= i < tail.len() && tail[i] == b;
                assert(after.bindings[head.len() + 1 + i] == b);
            }
        }
    }
}

/// The account is the only one with its player.
pub open spec fn alone_with(t: TablesView, qq: i64, user_id: i64) -> bool {
    &&& exists|i: int|
        0 <= i < t.bindings.len() && (#[trigger] t.bindings[i]).qq == qq && t.bindings[i].user_id
            == user_id
    &&& forall|i: int|
        0 <= i < t.bindings.len() && (#[trigger] t.bindings[i]).user_id == user_id
            ==> t.bindings[i].qq == qq
}

proof fn unbound_next_updates(t: TablesView, qq: i64)
    requires
        t.wf(),
    ensures
        forall|user_id: i64| #[trigger]
            alone_with(t, qq, user_id) ==> t.unbound(qq).next_updates == t.next_updates.filter(
                |n: NextUpdateRow| n.user_id != user_id,
            ),
        (forall|user_id: i64| !#[trigger] alone_with(t, qq, user_id))
            ==> t.unbound(qq).next_updates == t.next_updates,
{
    let k = first_place(t.bindings, of_qq(qq));
    let rest = t.bindings.filter(not(of_qq(qq)));
    assert forall|i: int| 0 <= i < t.bindings.len() && (#[trigger] t.bindings[i]).qq
        == qq implies i == k && t.binding(qq) is Some by {
        assert(of_qq(qq)(t.bindings[i]));
        if k < i {
            assert(crate::rows::qq_before()(t.bindings[k], t.bindings[i]));
        }
    }
    if t.binding(qq) is Some {
        let user_id = t.bindings[k].user_id;
        let m = first_place(rest, of_user(user_id));
        assert(t.bindings[k].qq == qq);
        assert(not(next_of_user(user_id)) =~= (|n: NextUpdateRow| n.user_id != user_id));
        assert forall|other: i64| #[trigger] alone_with(t, qq, other) implies other == user_id by {}
        if crate::table::first_where(rest, of_user(user_id)) is Some {
            assert(rest.contains(rest[m]));
            filter_contains(t.bindings, not(of_qq(qq)), rest[m]);
            let j = choose|j: int| 0 <= j < t.bindings.len() && t.bindings[j] == rest[m];
            assert(t.bindings[j].qq != qq && t.bindings[j].user_id == user_id);
            assert(!alone_with(t, qq, user_id));
        } else {
            assert forall|i: int|
                0 <= i < t.bindings.len() && (#[trigger] t.bindings[i]).user_id
                    == user_id implies t.bindings[i].qq == qq by {
                if t.bindings[i].qq != qq {
                    assert(t.bindings.contains(t.bindings[i]));
                    filter_contains(t.bindings, not(of_qq(qq)), t.bindings[i]);
                    let x = choose|x: int| 0 <= x < rest.len() && rest[x] == t.bindings[i];
                    assert(of_user(user_id)(rest[x]));
                }
            }
            assert(alone_with(t, qq, user_id));
        }
    }
}

/// Unbinding takes away the binding of the account and no other. The next updates of its player go
/// with it exactly where no other account has the player; nothing else is changed.
pub proof fn unbind_unbinds(s: &mut Storage, qq: i64)
    requires
        old(s).wf(),
        call_ensures(Storage::unbind, (s, qq), ()),
    ensures
        final(s).wf(),
        forall|b: BindingView| #[trigger]
            final(s)@.bindings.contains(b) <==> old(s)@.bindings.contains(b) && b.qq != qq,
        forall|n: NextUpdateRow| #[trigger]
            final(s)@.next_updates.contains(n) <==> old(s)@.next_updates.contains(n)
                && !alone_with(old(s)@, qq, n.user_id),
        forall|user_id: i64| #[trigger]
            alone_with(old(s)@, qq, user_id) ==> final(s)@.next_updates
                == old(s)@.next_updates.filter(|n: NextUpdateRow| n.user_id != user_id),
        (forall|user_id: i64| !#[trigger] alone_with(old(s)@, qq, user_id))
            ==> final(s)@.next_updates == old(s)@.next_updates,
        final(s)@ == (TablesView {
            bindings: final(s)@.bindings,
            next_updates: final(s)@.next_updates,
            ..old(s)@
        }),
{
    let (t, after) = (old(s)@, final(s)@);
    let k = first_place(t.bindings, of_qq(qq));
    assert forall|b: BindingView| #[trigger]
        after.bindings.contains(b) <==> t.bindings.contains(b) && b.qq != qq by {
        filter_contains(t.bindings, not(of_qq(qq)), b);
    }
    unbound_next_updates(t, qq);
    assert forall|n: NextUpdateRow| #[trigger]
        after.next_updates.contains(n) <==> t.next_updates.contains(n) && !alone_with(
            t,
            qq,
            n.user_id,
        ) by {
        if t.binding(qq) is Some {
            let user_id = t.bindings[k].user_id;
            filter_contains(t.next_updates, not(next_of_user(user_id)), n);
            let rest = t.bindings.filter(not(of_qq(qq)));
            first_where_facts(rest, of_user(user_id));
            let m = first_place(rest, of_user(user_id));
            assert forall|i: int| 0 <= i < t.bindings.len() && (#[trigger] t.bindings[i]).qq
                == qq implies i == k by {
                assert(of_qq(qq)(t.bindings[i]));
                if k < i {
                    assert(crate::rows::qq_before()(t.bindings[k], t.bindings[i]));
                }
            }
            if crate::table::first_where(rest, of_user(user_id)) is Some {
                assert(rest.contains(rest[m]));
                filter_contains(t.bindings, not(of_qq(qq)), rest[m]);
                let j = choose|j: int| 0 <= j < t.bindings.len() && t.bindings[j] == rest[m];
                assert(t.bindings[j].qq != qq && t.bindings[j].user_id == user_id);
            } else {
                assert forall|i: int|
                    0 <= i < t.bindings.len() && (#[trigger] t.bindings[i]).user_id
                        == user_id implies t.bindings[i].qq == qq by {
                    filter_contains(t.bindings, not(of_qq(qq)), t.bindings[i]);
                    if t.bindings[i].qq != qq {
                        assert(t.bindings.contains(t.bindings[i]));
                        assert(of_user(user_id)(t.bindings[i]));
                    }
                }
                assert(t.bindings[k].qq == qq);
            }
        } else {
            assert forall|i: int| 0 <= i < t.bindings.len() implies (#[trigger] t.bindings[i]).qq
                != qq by {
                assert(!of_qq(qq)(t.bindings[i]));
            }
        }
    }
}

/// Nothing but the bindings is changed, and of each binding neither the account nor the player.
pub open spec fn bindings_stay(a: TablesView, b: TablesView) -> bool {
    &&& b == (TablesView { bindings: b.bindings, ..a })
    &&& a.bindings.len() == b.bindings.len()
    &&& forall|i: int|
        0 <= i < a.bindings.len() ==> (#[trigger] b.bindings[i]).qq == a.bindings[i].qq
            && b.bindings[i].user_id == a.bindings[i].user_id
}

/// Setting a mode gives it to the account and to no other, and says whether the account is bound.
pub proof fn set_mode_is_set(s: &mut Storage, qq: i64, mode: GameMode, res: bool)
    requires
        old(s).wf(),
        call_ensures(Storage::set_default_mode, (s, qq, mode), res),
    ensures
        bindings_stay(old(s)@, final(s)@),
        res <==> exists|i: int|
            0 <= i < old(s)@.bindings.len() && (#[trigger] old(s)@.bindings[i]).qq == qq,
        forall|i: int|
            0 <= i < old(s)@.bindings.len() ==> {
                let (a, b) = (old(s)@.bindings[i], #[trigger] final(s)@.bindings[i]);
                b.current_username == a.current_username && b.default_mode == if a.qq == qq {
                    mode_number(mode)
                } else {
                    a.default_mode as int
                }
            },
{
    let t = old(s)@;
    let k = first_place(t.bindings, of_qq(qq));
    assert forall|i: int| 0 <= i < t.bindings.len() && (#[trigger] t.bindings[i]).qq
        == qq implies t.binding(qq) is Some by {
        assert(of_qq(qq)(t.bindings[i]));
    }
    if t.binding(qq) is Some {
        assert(t.bindings[k].qq == qq);
    }
}

/// Renaming an account gives the name to it and to no other.
pub proof fn renamed_account_has_the_name(s: &mut Storage, qq: i64, name: &str)
    requires
        call_ensures(Storage::update_binding_username, (s, qq, name), ()),
    ensures
        bindings_stay(old(s)@, final(s)@),
        forall|i: int|
            0 <= i < old(s)@.bindings.len() ==> {
                let (a, b) = (old(s)@.bindings[i], #[trigger] final(s)@.bindings[i]);
                b.default_mode == a.default_mode && b.current_username == if a.qq == qq {
                    name@
                } else {
                    a.current_username
                }
            },
{
}

/// Every account of the player has the name, and no other account is changed.
pub open spec fn player_is_renamed(
    before: TablesView,
    after: TablesView,
    user_id: i64,
    name: Seq<char>,
) -> bool {
    &&& bindings_stay(before, after)
    &&& forall|i: int|
        0 <= i < before.bindings.len() ==> {
            let (a, b) = (before.bindings[i], #[trigger] after.bindings[i]);
            b.default_mode == a.default_mode && b.current_username == if a.user_id == user_id {
                name
            } else {
                a.current_username
            }
        }
}

/// How many accounts of the player have another name.
pub open spec fn other_names(t: TablesView, user_id: i64, name: Seq<char>) -> nat {
    t.bindings.filter(
        |b: BindingView| b.user_id == user_id && b.current_username != name,
    ).len()
}

pub(crate) proof fn player_renamed(t: TablesView, user_id: i64, name: Seq<char>)
    ensures
        player_is_renamed(t, t.renamed(user_id, name), user_id, name),
        t.bindings.filter(to_rename(user_id, name)).len() == other_names(t, user_id, name),
{
    assert(to_rename(user_id, name) =~= (|b: BindingView|
        b.user_id == user_id && b.current_username != name));
}

/// Renaming a player gives the name to every account of the player and to no other, and counts the
/// accounts whose name is not what it was.
pub proof fn renamed_player_has_the_name(s: &mut Storage, user_id: i64, name: &str, res: u64)
    requires
        call_ensures(Storage::update_binding_username_by_user_id, (s, user_id, name), res),
    ensures
        player_is_renamed(old(s)@, final(s)@, user_id, name@),
        res == other_names(old(s)@, user_id, name@),
{
    player_renamed(old(s)@, user_id, name@);
}

/// The account that is looked up gives its own player and name, and none exactly where it is not
/// bound.
pub proof fn binding_is_the_accounts(s: &Storage, qq: i64, res: Option<(i64, String)>)
    requires
        call_ensures(Storage::get_binding, (s, qq), res),
    ensures
        res is Some <==> exists|i: int|
            0 <= i < s@.bindings.len() && (#[trigger] s@.bindings[i]).qq == qq,
        res matches Some((user_id, name)) ==> exists|i: int|
            0 <= i < s@.bindings.len() && (#[trigger] s@.bindings[i]).qq == qq
                && s@.bindings[i].user_id == user_id && s@.bindings[i].current_username == name@,
{
    let k = first_place(s@.bindings, of_qq(qq));
    if s@.binding(qq) is Some {
        assert(s@.bindings[k].qq == qq);
    }
    assert forall|i: int| 0 <= i < s@.bindings.len() && (#[trigger] s@.bindings[i]).qq
        == qq implies s@.binding(qq) is Some by {
        assert(of_qq(qq)(s@.bindings[i]));
    }
}

/// The mode of an account is the one whose number its binding has; a number that is no mode's is
/// an error, and an account that is not bound has none.
pub proof fn default_mode_is_the_accounts(
    s: &Storage,
    qq: i64,
    res: Result<Option<GameMode>, StorageError>,
)
    requires
        s.wf(),
        call_ensures(Storage::get_default_mode, (s, qq), res),
    ensures
        res == Ok::<Option<GameMode>, StorageError>(None) <==> forall|i: int|
            0 <= i < s@.bindings.len() ==> (#[trigger] s@.bindings[i]).qq != qq,
        forall|i: int|
            0 <= i < s@.bindings.len() && (#[trigger] s@.bindings[i]).qq == qq ==> match res {
                Ok(Some(mode)) => mode_number(mode) == s@.bindings[i].default_mode,
                Ok(None) => false,
                Err(e) => e == StorageError::InvalidDefaultMode && !(0
                    <= s@.bindings[i].default_mode <= 3),
            },
{
    let k = first_place(s@.bindings, of_qq(qq));
    assert forall|i: int| 0 <= i < s@.bindings.len() && (#[trigger] s@.bindings[i]).qq
        == qq implies s@.binding(qq) is Some && i == k by {
        assert(of_qq(qq)(s@.bindings[i]));
        if k < i {
            assert(crate::rows::qq_before()(s@.bindings[k], s@.bindings[i]));
        }
    }
    if s@.binding(qq) is Some {
        assert(s@.bindings[k].qq == qq);
    }
}

/// The account that is found under a name has the name, but for ASCII case, and is the one with the
/// smallest number of those that have it; none is found exactly where none has it.
pub proof fn found_account_has_the_name(s: &Storage, name: &str, res: Option<i64>)
    requires
        s.wf(),
        call_ensures(Storage::find_qq_by_username, (s, name), res),
    ensures
        res is None <==> forall|i: int|
            0 <= i < s@.bindings.len() ==> !same_letters(
                (#[trigger] s@.bindings[i]).current_username,
                name@,
            ),
        res matches Some(qq) ==> (exists|i: int|
            0 <= i < s@.bindings.len() && (#[trigger] s@.bindings[i]).qq == qq && same_letters(
                s@.bindings[i].current_username,
                name@,
            )) && forall|i: int|
            0 <= i < s@.bindings.len() && same_letters(
                (#[trigger] s@.bindings[i]).current_username,
                name@,
            ) ==> qq <= s@.bindings[i].qq,
{
    let b = s@.bindings;
    let k = first_place(b, named(name@));
    assert forall|i: int| 0 <= i < b.len() implies (named(name@)(#[trigger] b[i])
        <==> same_letters(b[i].current_username, name@)) by {
        names_are_compared_by_letters(b[i].current_username, name@);
    }
    if res is Some {
        assert(named(name@)(b[k]));
        assert forall|i: int| 0 <= i < b.len() && same_letters(
            (#[trigger] b[i]).current_username,
            name@,
        ) implies res->0 <= b[i].qq by {
            if k < i {
                assert(crate::rows::qq_before()(b[k], b[i]));
            }
        }
    }
}

/// Every binding is shown, once, with its account, its player and its name, by growing account.
pub proof fn all_bindings_are_shown(s: &Storage, res: Vec<(i64, i64, String)>)
    requires
        s.wf(),
        call_ensures(Storage::get_all_user_bindings, (s,), res),
    ensures
        res@.len() == s@.bindings.len(),
        forall|i: int|
            0 <= i < res@.len() ==> {
                let (shown, b) = (#[trigger] res@[i], s@.bindings[i]);
                shown.0 == b.qq && shown.1 == b.user_id && shown.2@ == b.current_username
            },
        forall|i: int, j: int|
            #![trigger res@[i], res@[j]]
            0 <= i < j < res@.len() ==> res@[i].0 < res@[j].0,
{
    assert(views(res@).len() == res@.len());
    assert forall|i: int| 0 <= i < res@.len() implies {
        let (shown, b) = (#[trigger] res@[i], s@.bindings[i]);
        shown.0 == b.qq && shown.1 == b.user_id && shown.2@ == b.current_username
    } by {
        assert(views(res@)[i] == res@[i]@);
    }
    assert forall|i: int, j: int|
        #![trigger res@[i], res@[j]]
        0 <= i < j < res@.len() implies res@[i].0 < res@[j].0 by {
        assert(crate::rows::qq_before()(s@.bindings[i], s@.bindings[j]));
    }
}

/// There is one row of the name in lower case, with the number, as the last; every row of another
/// text stays in its order, and nothing else is changed.
pub open spec fn number_is_noted(
    before: TablesView,
    after: TablesView,
    name: Seq<char>,
    user_id: i64,
) -> bool {
    &&& after == (TablesView { user_ids: after.user_ids, ..before })
    &&& after.user_ids.len() > 0
    &&& lowered(after.user_ids.last().username, name)
    &&& after.user_ids.last().user_id == user_id
    &&& forall|u: UserIdView| #[trigger]
        after.user_ids.contains(u) <==> if lowered(u.username, name) {
            u.user_id == user_id
        } else {
            before.user_ids.contains(u)
        }
    &&& after.user_ids.drop_last() == before.user_ids.filter(
        |u: UserIdView| !lowered(u.username, name),
    )
}

pub(crate) proof fn number_noted(t: TablesView, name: Seq<char>, user_id: i64)
    ensures
        number_is_noted(t, t.with_user_id(name, user_id), name, user_id),
{
    let after = t.with_user_id(name, user_id);
    let row = UserIdView { username: lower(name), user_id };
    let kept = t.user_ids.filter(not(id_of(lower(name))));
    lower_case_is_plain(name, lower(name));
    assert(after.user_ids == kept.push(row));
    let other = |u: UserIdView| !lowered(u.username, name);
    assert forall|u: UserIdView| #[trigger] other(u) == not(id_of(lower(name)))(u) by {
        lower_case_is_plain(name, u.username);
    }
    assert(other =~= not(id_of(lower(name))));
    assert(after.user_ids.drop_last() =~= kept);
    assert forall|u: UserIdView| #[trigger]
        after.user_ids.contains(u) <==> if lowered(u.username, name) {
            u.user_id == user_id
        } else {
            t.user_ids.contains(u)
        } by {
        lower_case_is_plain(name, u.username);
        filter_contains(t.user_ids, not(id_of(lower(name))), u);
        crate::calls::updates::pushed_contains(kept, row, u);
    }
}

/// Setting the number of a name notes it under the name in lower case.
pub proof fn set_number_is_noted(s: &mut Storage, name: &str, user_id: i64)
    requires
        call_ensures(Storage::set_user_id, (s, name, user_id), ()),
    ensures
        number_is_noted(old(s)@, final(s)@, name@, user_id),
{
    number_noted(old(s)@, name@, user_id);
}

/// The `i`th number is the first that is noted under the name, but for ASCII case.
pub open spec fn first_noted(t: TablesView, i: int, name: Seq<char>) -> bool {
    &&& 0 <= i < t.user_ids.len()
    &&& same_letters(t.user_ids[i].username, name)
    &&& forall|j: int| 0 <= j < i ==> !same_letters((#[trigger] t.user_ids[j]).username, name)
}

/// The number of a name is the first that is noted under it, and there is none exactly where none
/// is noted.
pub proof fn number_is_the_noted_one(s: &Storage, name: &str, res: Option<i64>)
    requires
        call_ensures(Storage::get_user_id, (s, name), res),
    ensures
        res matches Some(id) ==> exists|i: int| #[trigger]
            first_noted(s@, i, name@) && s@.user_ids[i].user_id == id,
        res is None <==> forall|i: int|
            0 <= i < s@.user_ids.len() ==> !same_letters(
                (#[trigger] s@.user_ids[i]).username,
                name@,
            ),
{
    number_of(s@, name@);
}

proof fn number_of(t: TablesView, name: Seq<char>)
    ensures
        t.user_id_of(name) matches Some(id) ==> exists|i: int| #[trigger]
            first_noted(t, i, name) && t.user_ids[i].user_id == id,
        t.user_id_of(name) is None <==> forall|i: int|
            0 <= i < t.user_ids.len() ==> !same_letters((#[trigger] t.user_ids[i]).username, name),
{
    let u = t.user_ids;
    let k = first_place(u, id_named(name));
    assert forall|i: int| 0 <= i < u.len() implies (id_named(name)(#[trigger] u[i])
        <==> same_letters(u[i].username, name)) by {
        names_are_compared_by_letters(u[i].username, name);
    }
    if t.user_id_of(name) is Some {
        assert(first_noted(t, k, name));
    }
}

/// The names without a number are those of exactly the bindings under whose name, in any ASCII
/// case, no number is noted; one for each such binding.
pub proof fn names_without_number_are_listed(s: &Storage, res: Vec<String>)
    requires
        call_ensures(Storage::get_users_without_ids, (s,), res),
    ensures
        views(res@) == s@.bindings.filter(
            |b: BindingView|
                forall|i: int|
                    0 <= i < s@.user_ids.len() ==> !same_letters(
                        (#[trigger] s@.user_ids[i]).username,
                        b.current_username,
                    ),
        ).map_values(|b: BindingView| b.current_username),
{
    let p = |b: BindingView|
        forall|i: int|
            0 <= i < s@.user_ids.len() ==> !same_letters(
                (#[trigger] s@.user_ids[i]).username,
                b.current_username,
            );
    assert forall|b: BindingView| #[trigger] p(b) == s@.without_id()(b) by {
        number_of(s@, b.current_username);
    }
    assert(p =~= s@.without_id());
}

} // verus!
