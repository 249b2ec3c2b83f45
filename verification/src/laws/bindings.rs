//! Laws of the bindings and of the known player numbers.
use crate::bindings::{
    above_qq, below_qq, id_named, id_of, named, next_of_user, of_qq, of_user, put_binding,
    to_rename, with_mode, with_name,
};
use crate::rows::{names_lowered, BindingView, TablesView, UserIdView};
use crate::table::{
    filter_contains, filter_filter, filter_holds, filter_none, filter_pairwise, filter_push,
    first_where, first_where_at, first_where_facts, first_where_filter, first_where_gone,
    first_where_replaced_other, first_where_updated, not, pairwise,
};
use crate::text::{lower, lower_idempotent};
use crate::types::GameMode;
use vstd::prelude::*;

verus! {

/// No player is bound to two accounts.
pub open spec fn one_account_each(t: TablesView) -> bool {
    pairwise(t.bindings, other_player())
}

pub open spec fn other_player() -> spec_fn(BindingView, BindingView) -> bool {
    |a: BindingView, b: BindingView| a.user_id != b.user_id
}

/// The player may be bound to the account: no other account has it.
pub open spec fn may_bind(t: TablesView, qq: i64, user_id: i64) -> bool {
    t.holder(user_id) matches Some(b) ==> b.qq == qq
}

/// A binding that was put in its place is the one that is found.
proof fn put_is_found(s: Seq<BindingView>, row: BindingView)
    ensures
        first_where(put_binding(s, row), of_qq(row.qq)) == Some(row),
{
    let head = s.filter(below_qq(row.qq));
    filter_holds(s, below_qq(row.qq));
    let all = put_binding(s, row);
    assert forall|j: int| 0 <= j < head.len() implies !of_qq(row.qq)(#[trigger] all[j]) by {
        assert(all[j] == head[j]);
    }
    first_where_at(all, head.len() as int, of_qq(row.qq));
}

/// A binding that was put in its place leaves those of other accounts alone.
proof fn put_leaves_others(s: Seq<BindingView>, row: BindingView, qq: i64)
    requires
        qq != row.qq,
    ensures
        first_where(put_binding(s, row), of_qq(qq)) == first_where(s, of_qq(qq)),
{
    let (head, tail) = (s.filter(below_qq(row.qq)), s.filter(above_qq(row.qq)));
    let p = of_qq(qq);
    Seq::filter_distributes_over_add(head.push(row), tail, p);
    filter_push(head, row, p);
    filter_holds(s, below_qq(row.qq));
    filter_holds(s, above_qq(row.qq));
    if qq < row.qq {
        filter_filter(s, below_qq(row.qq), p);
        filter_none(tail, p);
        assert(head.filter(p) + Seq::<BindingView>::empty() =~= head.filter(p));
    } else {
        filter_filter(s, above_qq(row.qq), p);
        filter_none(head, p);
        assert(Seq::<BindingView>::empty() + tail.filter(p) =~= tail.filter(p));
    }
}

/// After a bind that is not refused the account is bound to the player, under the given name and
/// in the default mode, whatever it was bound to before.
pub proof fn bind_is_found(t: TablesView, qq: i64, user_id: i64, name: Seq<char>)
    requires
        may_bind(t, qq, user_id),
    ensures
        t.bound(qq, user_id, name).binding(qq) == Some(
            BindingView { qq, user_id, current_username: name, default_mode: GameMode::Osu.code() },
        ),
{
    put_is_found(
        t.bindings,
        BindingView { qq, user_id, current_username: name, default_mode: 0 },
    );
}

/// A bind leaves every other account alone.
pub proof fn bind_leaves_others(t: TablesView, qq: i64, user_id: i64, name: Seq<char>, other: i64)
    requires
        other != qq,
    ensures
        t.bound(qq, user_id, name).binding(other) == t.binding(other),
{
    put_leaves_others(
        t.bindings,
        BindingView { qq, user_id, current_username: name, default_mode: 0 },
        other,
    );
}

/// A bind to a player of another account changes nothing.
pub proof fn refused_bind_changes_nothing(t: TablesView, qq: i64, user_id: i64, name: Seq<char>)
    requires
        !may_bind(t, qq, user_id),
    ensures
        t.bound(qq, user_id, name) == t,
{
}

/// Binding keeps it so that no player is bound to two accounts.
pub proof fn bind_keeps_one_account_each(
    t: TablesView,
    qq: i64,
    user_id: i64,
    name: Seq<char>,
)
    requires
        one_account_each(t),
    ensures
        one_account_each(t.bound(qq, user_id, name)),
{
    if may_bind(t, qq, user_id) {
        let row = BindingView { qq, user_id, current_username: name, default_mode: 0 };
        let s = t.bindings;
        let (head, tail) = (s.filter(below_qq(qq)), s.filter(above_qq(qq)));
        let all = put_binding(s, row);
        filter_pairwise(s, below_qq(qq), other_player());
        filter_pairwise(s, above_qq(qq), other_player());
        filter_holds(s, below_qq(qq));
        filter_holds(s, above_qq(qq));
        first_where_facts(s, of_user(user_id));
        assert forall|b: BindingView| s.contains(b) && b.qq != qq implies b.user_id != user_id by {
            if of_user(user_id)(b) {
                let h = t.holder(user_id)->0;
                let i = choose|i: int| 0 <= i < s.len() && s[i] == b;
                let j = choose|j: int| 0 <= j < s.len() && s[j] == h;
                assert(of_user(user_id)(h));
                if i < j {
                    assert(other_player()(s[i], s[j]));
                } else if j < i {
                    assert(other_player()(s[j], s[i]));
                }
            }
        }
        assert forall|i: int, j: int|
            #![trigger all[i], all[j]]
            0 <= i < j < all.len() implies other_player()(all[i], all[j]) by {
            let n = head.len();
            if j < n {
                assert(other_player()(head[i], head[j]));
            } else if j == n {
                assert(all[i] == head[i]);
            } else if i > n {
                assert(other_player()(tail[i - n - 1], tail[j - n - 1]));
            } else if i == n {
                assert(all[j] == tail[j - n - 1]);
            } else {
                assert(all[i] == head[i] && all[j] == tail[j - n - 1]);
                let a = choose|a: int| 0 <= a < s.len() && s[a] == head[i];
                let b = choose|b: int| 0 <= b < s.len() && s[b] == tail[j - n - 1];
                if a < b {
                    assert(other_player()(s[a], s[b]));
                } else {
                    assert(other_player()(s[b], s[a]));
                }
            }
        }
    }
}

/// Unbinding, and changing names and modes, keeps it so that no player is bound to two accounts.
pub proof fn changes_keep_one_account_each(
    t: TablesView,
    qq: i64,
    p: spec_fn(BindingView) -> bool,
    name: Seq<char>,
    code: i32,
)
    requires
        one_account_each(t),
    ensures
        one_account_each(t.unbound(qq)),
        one_account_each(t.bindings_updated(p, with_name(name))),
        one_account_each(t.bindings_updated(p, with_mode(code))),
{
    filter_pairwise(t.bindings, not(of_qq(qq)), other_player());
    crate::table::update_pairwise(t.bindings, p, with_name(name), other_player());
    crate::table::update_pairwise(t.bindings, p, with_mode(code), other_player());
}

/// After an unbind the account is not bound, and every other account is as it was.
pub proof fn unbind_undoes_bind(t: TablesView, qq: i64, other: i64)
    requires
        other != qq,
    ensures
        t.unbound(qq).binding(qq) is None,
        t.unbound(qq).binding(other) == t.binding(other),
{
    first_where_gone(t.bindings, of_qq(qq));
    first_where_filter(t.bindings, not(of_qq(qq)), of_qq(other));
}

/// After an unbind the player of the account has no next update, unless it is still bound to
/// another account; the next updates of every other player are as they were.
pub proof fn unbind_stops_updates(t: TablesView, qq: i64, other: i64)
    requires
        t.binding(qq) is Some,
        other != t.binding(qq)->0.user_id,
    ensures
        ({
            let player = t.binding(qq)->0.user_id;
            let after = t.unbound(qq);
            &&& after.holder(player) is None ==> first_where(
                after.next_updates,
                next_of_user(player),
            ) is None
            &&& after.holder(player) is Some ==> after.next_updates == t.next_updates
            &&& after.next_updates.filter(next_of_user(other)) == t.next_updates.filter(
                next_of_user(other),
            )
        }),
{
    let player = t.binding(qq)->0.user_id;
    first_where_gone(t.next_updates, next_of_user(player));
    filter_filter(t.next_updates, not(next_of_user(player)), next_of_user(other));
}

/// An account that is bound again is in the default mode, whatever mode was set before.
pub proof fn rebind_resets_mode(
    t: TablesView,
    qq: i64,
    user_id: i64,
    name: Seq<char>,
    mode: GameMode,
)
    requires
        may_bind(t, qq, user_id),
    ensures
        ({
            let set = t.bindings_updated(of_qq(qq), with_mode(mode.code()));
            may_bind(set, qq, user_id) && set.bound(qq, user_id, name).binding(qq)
                == t.bound(qq, user_id, name).binding(qq)
        }),
{
    let set = t.bindings_updated(of_qq(qq), with_mode(mode.code()));
    first_where_updated(t.bindings, of_qq(qq), with_mode(mode.code()), of_user(user_id));
    bind_is_found(t, qq, user_id, name);
    bind_is_found(set, qq, user_id, name);
}

/// The mode that was set is the mode of the account, and nothing else of the binding changes; an
/// account that is not bound stays so, and every other account is as it was.
pub proof fn set_mode_is_found(t: TablesView, qq: i64, mode: GameMode, other: i64)
    requires
        other != qq,
    ensures
        ({
            let after = t.bindings_updated(of_qq(qq), with_mode(mode.code()));
            &&& after.binding(qq) == match t.binding(qq) {
                Some(b) => Some(BindingView { default_mode: mode.code(), ..b }),
                None => None,
            }
            &&& after.binding(other) == t.binding(other)
            &&& GameMode::of_code(mode.code()) == Some(mode)
        }),
{
    let f = with_mode(mode.code());
    first_where_updated(t.bindings, of_qq(qq), f, of_qq(qq));
    first_where_updated(t.bindings, of_qq(qq), f, of_qq(other));
    first_where_facts(t.bindings, of_qq(qq));
    first_where_facts(t.bindings, of_qq(other));
}

/// After a rename the account has the new name and keeps the rest; every other account is as it
/// was.
pub proof fn rename_is_found(t: TablesView, qq: i64, name: Seq<char>, other: i64)
    requires
        other != qq,
    ensures
        ({
            let after = t.bindings_updated(of_qq(qq), with_name(name));
            &&& after.binding(qq) == match t.binding(qq) {
                Some(b) => Some(BindingView { current_username: name, ..b }),
                None => None,
            }
            &&& after.binding(other) == t.binding(other)
        }),
{
    first_where_updated(t.bindings, of_qq(qq), with_name(name), of_qq(qq));
    first_where_updated(t.bindings, of_qq(qq), with_name(name), of_qq(other));
    first_where_facts(t.bindings, of_qq(qq));
    first_where_facts(t.bindings, of_qq(other));
}

/// Names are looked up without regard to ASCII case.
pub proof fn lookups_ignore_case(t: TablesView, a: Seq<char>, b: Seq<char>)
    requires
        lower(a) == lower(b),
    ensures
        t.qq_of(a) == t.qq_of(b),
        t.user_id_of(a) == t.user_id_of(b),
{
    assert(named(a) =~= named(b));
    assert(id_named(a) =~= id_named(b));
}

/// An account that was bound or renamed is found under its new name in any case, unless another
/// account has that name too; a name that no account has is not found.
pub proof fn renamed_account_is_found(t: TablesView, qq: i64, name: Seq<char>, asked: Seq<char>)
    requires
        t.binding(qq) matches Some(b) && b.current_username == name,
        forall|b: BindingView| #[trigger]
            t.bindings.contains(b) && b.qq != qq ==> lower(b.current_username) != lower(name),
    ensures
        lower(asked) == lower(name) ==> t.qq_of(asked) == Some(qq),
        (forall|b: BindingView| #[trigger]
            t.bindings.contains(b) ==> lower(b.current_username) != lower(asked)) ==> t.qq_of(
            asked,
        ) is None,
{
    first_where_facts(t.bindings, of_qq(qq));
    first_where_facts(t.bindings, named(asked));
    let b = t.binding(qq)->0;
    if lower(asked) == lower(name) {
        assert(named(asked)(b));
    }
}

/// The number that was set for a username is the one that is known, in any ASCII case, instead of
/// what was known before, where the usernames are kept in lower case.
pub proof fn user_id_is_found(
    t: TablesView,
    name: Seq<char>,
    user_id: i64,
    asked: Seq<char>,
)
    requires
        names_lowered(t.user_ids),
        lower(asked) == lower(name),
    ensures
        t.with_user_id(name, user_id).user_id_of(asked) == Some(user_id),
{
    let q = id_of(lower(name));
    let p = id_named(asked);
    let kept = t.user_ids.filter(not(q));
    let after = t.with_user_id(name, user_id).user_ids;
    lower_idempotent(name);
    filter_holds(t.user_ids, not(q));
    assert forall|j: int| 0 <= j < kept.len() implies !p(#[trigger] after[j]) by {
        assert(after[j] == kept[j] && not(q)(kept[j]));
        let k = choose|k: int| 0 <= k < t.user_ids.len() && t.user_ids[k] == kept[j];
        assert(lower(t.user_ids[k].username) == t.user_ids[k].username);
    }
    first_where_at(after, kept.len() as int, p);
}

/// The usernames of a fresh storage are in lower case, and setting a number keeps them so.
pub proof fn names_stay_lowered(t: TablesView, name: Seq<char>, user_id: i64)
    requires
        names_lowered(t.user_ids),
    ensures
        names_lowered(TablesView::empty().user_ids),
        names_lowered(t.with_user_id(name, user_id).user_ids),
{
    let kept = t.user_ids.filter(not(id_of(lower(name))));
    let after = t.with_user_id(name, user_id).user_ids;
    lower_idempotent(name);
    filter_holds(t.user_ids, not(id_of(lower(name))));
    assert forall|i: int| 0 <= i < after.len() implies lower((#[trigger] after[i]).username)
        == after[i].username by {
        if i < kept.len() {
            assert(after[i] == kept[i]);
            let k = choose|k: int| 0 <= k < t.user_ids.len() && t.user_ids[k] == kept[i];
            assert(lower(t.user_ids[k].username) == t.user_ids[k].username);
        }
    }
}

/// A username whose number was set is known with some number, however the usernames are kept, and
/// every other username is known as it was.
pub proof fn user_id_leaves_others(
    t: TablesView,
    name: Seq<char>,
    user_id: i64,
    asked: Seq<char>,
)
    ensures
        lower(asked) == lower(name) ==> t.with_user_id(name, user_id).user_id_of(asked) is Some,
        lower(asked) != lower(name) ==> t.with_user_id(name, user_id).user_id_of(asked)
            == t.user_id_of(asked),
{
    let row = UserIdView { username: lower(name), user_id };
    let q = id_of(lower(name));
    let p = id_named(asked);
    let after = t.with_user_id(name, user_id).user_ids;
    lower_idempotent(name);
    if lower(asked) == lower(name) {
        assert(after.last() == row && p(row));
        first_where_facts(after, p);
    } else {
        assert forall|v: UserIdView| #[trigger] p(v) implies !q(v) by {
            if q(v) {
                assert(lower(v.username) == lower(lower(name)));
            }
        }
        first_where_replaced_other(t.user_ids, q, row, p);
    }
}

/// A username that is kept in another case is known as well.
pub proof fn kept_name_is_known(t: TablesView, i: int, asked: Seq<char>)
    requires
        0 <= i < t.user_ids.len(),
        lower(t.user_ids[i].username) == lower(asked),
        forall|j: int|
            0 <= j < i ==> lower((#[trigger] t.user_ids[j]).username) != lower(asked),
    ensures
        t.user_id_of(asked) == Some(t.user_ids[i].user_id),
{
    first_where_at(t.user_ids, i, id_named(asked));
}

/// After a rename every account of the player has the name, and none is left to rename; renaming
/// again to the same name changes nothing. The accounts of other players are as they were.
pub proof fn rename_settles(t: TablesView, user_id: i64, name: Seq<char>, qq: i64)
    ensures
        ({
            let after = t.renamed(user_id, name);
            &&& after.renamed(user_id, name) == after
            &&& after.bindings.filter(to_rename(user_id, name)).len() == 0
            &&& after.binding(qq) == match t.binding(qq) {
                Some(b) => Some(
                    if b.user_id == user_id {
                        BindingView { current_username: name, ..b }
                    } else {
                        b
                    },
                ),
                None => None,
            }
        }),
{
    let after = t.renamed(user_id, name);
    let again = after.renamed(user_id, name);
    first_where_updated(t.bindings, of_user(user_id), with_name(name), of_qq(qq));
    assert forall|i: int| 0 <= i < after.bindings.len() implies !to_rename(user_id, name)(
        #[trigger] after.bindings[i],
    ) by {
        let b = t.bindings[i];
        assert(after.bindings[i] == if of_user(user_id)(b) {
            with_name(name)(b)
        } else {
            b
        });
    }
    filter_none(after.bindings, to_rename(user_id, name));
    assert(again.bindings =~= after.bindings);
    assert(again =~= after);
}

/// A name has no number where none was set: among no rows there is none.
pub proof fn unknown_name_has_no_number(t: TablesView, name: Seq<char>)
    requires
        forall|u: UserIdView| #[trigger]
            t.user_ids.contains(u) ==> lower(u.username) != lower(name),
    ensures
        t.user_id_of(name) is None,
{
    first_where_facts(t.user_ids, id_named(name));
}

/// The tables once each name of a list has been given its number, one after the other.
pub open spec fn numbered(t: TablesView, names: Seq<Seq<char>>, ids: Seq<i64>) -> TablesView
    decreases names.len(),
{
    if names.len() == 0 {
        t
    } else {
        numbered(t, names.drop_last(), ids.drop_last()).with_user_id(names.last(), ids.last())
    }
}

/// Once every listed name has been given a number, whatever numbers they are, no bound name is
/// without one.
pub proof fn numbering_all_leaves_none(t: TablesView, ids: Seq<i64>)
    requires
        ids.len() == t.names_without_id().len(),
    ensures
        numbered(t, t.names_without_id(), ids).names_without_id().len() == 0,
{
    let names = t.names_without_id();
    let after = numbered(t, names, ids);
    let listed = t.bindings.filter(t.without_id());
    numbering_numbers(t, names, ids);
    assert forall|i: int| 0 <= i < after.bindings.len() implies !after.without_id()(
        #[trigger] after.bindings[i],
    ) by {
        let b = t.bindings[i];
        if t.without_id()(b) {
            filter_contains(t.bindings, t.without_id(), b);
            let k = choose|k: int| 0 <= k < listed.len() && listed[k] == b;
            assert(names[k] == b.current_username);
        }
    }
    filter_none(after.bindings, after.without_id());
}

/// Giving numbers to names leaves the bindings alone, and every name that is among them or had a
/// number before has one.
proof fn numbering_numbers(t: TablesView, names: Seq<Seq<char>>, ids: Seq<i64>)
    requires
        ids.len() == names.len(),
    ensures
        numbered(t, names, ids).bindings == t.bindings,
        forall|k: int|
            0 <= k < names.len() ==> numbered(t, names, ids).user_id_of(#[trigger] names[k]) is Some,
        forall|n: Seq<char>| #[trigger]
            t.user_id_of(n) is Some ==> numbered(t, names, ids).user_id_of(n) is Some,
    decreases names.len(),
{
    if names.len() > 0 {
        let before = numbered(t, names.drop_last(), ids.drop_last());
        let after = numbered(t, names, ids);
        numbering_numbers(t, names.drop_last(), ids.drop_last());
        user_id_leaves_others(before, names.last(), ids.last(), names.last());
        assert forall|n: Seq<char>| before.user_id_of(n) is Some implies #[trigger] after.user_id_of(
            n,
        ) is Some by {
            user_id_leaves_others(before, names.last(), ids.last(), n);
        }
        assert forall|k: int| 0 <= k < names.len() implies after.user_id_of(
            #[trigger] names[k],
        ) is Some by {
            if k < names.len() - 1 {
                assert(names.drop_last()[k] == names[k]);
                assert(before.user_id_of(names.drop_last()[k]) is Some);
            }
        }
        assert forall|n: Seq<char>| #[trigger] t.user_id_of(n) is Some implies after.user_id_of(
            n,
        ) is Some by {
            assert(before.user_id_of(n) is Some);
        }
    }
}

} // verus!
