//! Which chat account is bound to which player.
use crate::rows::{
    bindings_ok, other_next, other_username, qq_before, BindingRow, BindingView, NextUpdateRow,
    TablesView, UserIdRow, UserIdView,
};
use crate::storage::Storage;
use crate::table::{
    delete_where, exists_where, filter_all, filter_head, filter_holds, filter_pairwise, filter_tail,
    first_where, not, position_where, replace_where, select_where, update_pairwise, update_rows,
    update_where, views,
};
use crate::text::{ascii_lower, lower, same_name, text_eq};
use crate::types::{GameMode, StorageError};
use vstd::prelude::*;

verus! {

broadcast use crate::storage::group_storage;

/// The binding of the chat account `qq`.
pub open spec fn of_qq(qq: i64) -> spec_fn(BindingView) -> bool {
    |b: BindingView| b.qq == qq
}

/// The binding to the player `user_id`.
pub open spec fn of_user(user_id: i64) -> spec_fn(BindingView) -> bool {
    |b: BindingView| b.user_id == user_id
}

/// The bindings to the player under another name.
pub open spec fn to_rename(user_id: i64, name: Seq<char>) -> spec_fn(BindingView) -> bool {
    |b: BindingView| b.user_id == user_id && b.current_username != name
}

/// A binding of an account before `qq`.
pub open spec fn below_qq(qq: i64) -> spec_fn(BindingView) -> bool {
    |b: BindingView| b.qq < qq
}

/// A binding of an account after `qq`.
pub open spec fn above_qq(qq: i64) -> spec_fn(BindingView) -> bool {
    |b: BindingView| b.qq > qq
}

/// The bindings with `row` in its place, instead of what its account had.
pub open spec fn put_binding(s: Seq<BindingView>, row: BindingView) -> Seq<BindingView> {
    s.filter(below_qq(row.qq)).push(row) + s.filter(above_qq(row.qq))
}

/// The binding has this name but for ASCII case.
pub open spec fn named(name: Seq<char>) -> spec_fn(BindingView) -> bool {
    |b: BindingView| lower(b.current_username) == lower(name)
}

/// The username of the row is this one but for ASCII case.
pub open spec fn id_named(name: Seq<char>) -> spec_fn(UserIdView) -> bool {
    |u: UserIdView| lower(u.username) == lower(name)
}

/// The row has exactly this username.
pub open spec fn id_of(name: Seq<char>) -> spec_fn(UserIdView) -> bool {
    |u: UserIdView| u.username == name
}

/// The next updates of the player.
pub open spec fn next_of_user(user_id: i64) -> spec_fn(NextUpdateRow) -> bool {
    |n: NextUpdateRow| n.user_id == user_id
}

/// Gives a binding another default mode.
pub open spec fn with_mode(code: i32) -> spec_fn(BindingView) -> BindingView {
    |b: BindingView| BindingView { default_mode: code, ..b }
}

/// Gives a binding another name.
pub open spec fn with_name(name: Seq<char>) -> spec_fn(BindingView) -> BindingView {
    |b: BindingView| BindingView { current_username: name, ..b }
}

impl TablesView {
    /// The binding of an account.
    pub open spec fn binding(self, qq: i64) -> Option<BindingView> {
        first_where(self.bindings, of_qq(qq))
    }

    /// The account that `user_id` is bound to; where there are several, the first.
    pub open spec fn holder(self, user_id: i64) -> Option<BindingView> {
        first_where(self.bindings, of_user(user_id))
    }

    /// What `bind` makes of the tables: nothing where the player belongs to another account, else
    /// a new binding in the default mode.
    pub open spec fn bound(self, qq: i64, user_id: i64, name: Seq<char>) -> TablesView {
        match self.holder(user_id) {
            Some(b) if b.qq != qq => self,
            _ => TablesView {
                bindings: put_binding(
                    self.bindings,
                    BindingView { qq, user_id, current_username: name, default_mode: 0 },
                ),
                ..self
            },
        }
    }

    /// What `unbind` makes of the tables: the account has no binding, and a player without any
    /// account has no next update.
    pub open spec fn unbound(self, qq: i64) -> TablesView {
        let rest = TablesView { bindings: self.bindings.filter(not(of_qq(qq))), ..self };
        match self.binding(qq) {
            Some(b) if rest.holder(b.user_id) is None => TablesView {
                next_updates: self.next_updates.filter(not(next_of_user(b.user_id))),
                ..rest
            },
            _ => rest,
        }
    }

    /// The number that a username is known with.
    pub open spec fn user_id_of(self, name: Seq<char>) -> Option<i64> {
        match first_where(self.user_ids, id_named(name)) {
            Some(u) => Some(u.user_id),
            None => None,
        }
    }

    /// What `set_user_id` makes of the tables.
    pub open spec fn with_user_id(self, name: Seq<char>, user_id: i64) -> TablesView {
        TablesView {
            user_ids: replace_where(
                self.user_ids,
                id_of(lower(name)),
                UserIdView { username: lower(name), user_id },
            ),
            ..self
        }
    }

    /// The bindings whose username is known with no number.
    pub open spec fn without_id(self) -> spec_fn(BindingView) -> bool {
        |b: BindingView| self.user_id_of(b.current_username) is None
    }

    /// The names of those bindings, one for each, in the order of the accounts.
    pub open spec fn names_without_id(self) -> Seq<Seq<char>> {
        self.bindings.filter(self.without_id()).map_values(|b: BindingView| b.current_username)
    }

    /// The bindings, those that satisfy `p` changed by `f`.
    pub open spec fn bindings_updated(
        self,
        p: spec_fn(BindingView) -> bool,
        f: spec_fn(BindingView) -> BindingView,
    ) -> TablesView {
        TablesView { bindings: update_where(self.bindings, p, f), ..self }
    }

    /// What renaming a player makes of the tables: every binding to the player has the name.
    pub open spec fn renamed(self, user_id: i64, name: Seq<char>) -> TablesView {
        self.bindings_updated(of_user(user_id), with_name(name))
    }

    /// The account that is bound under a name, whatever its ASCII case.
    pub open spec fn qq_of(self, name: Seq<char>) -> Option<i64> {
        match first_where(self.bindings, named(name)) {
            Some(b) => Some(b.qq),
            None => None,
        }
    }
}

impl Storage {
    /// Binds `qq` to the player. Refuses, and says to whom, where the player is bound to another
    /// account. A new binding starts in the default mode, also where the account was bound before.
    pub fn bind(&mut self, qq: i64, user_id: i64, current_username: &str) -> (res: Result<(), i64>)
        requires
            old(self).wf(),
        ensures
            final(self).wf(),
            final(self)@ == old(self)@.bound(qq, user_id, current_username@),
            res == match old(self)@.holder(user_id) {
                Some(b) if b.qq != qq => Err(b.qq),
                _ => Ok(()),
            },
    {
        let holder = position_where(
            &self.tables.bindings,
            |b: &BindingRow| -> (r: bool) ensures r == (b.user_id == user_id) { b.user_id == user_id },
            Ghost(of_user(user_id)),
        );
        if let Some(i) = holder {
            let existing: i64 = self.tables.bindings[i].qq;
            if existing != qq {
                return Err(existing);
            }
        }
        let row = BindingRow {
            qq,
            user_id,
            current_username: current_username.to_owned(),
            default_mode: 0,
        };
        put(&mut self.tables.bindings, row);
        Ok(())
    }

    /// Removes the binding of the account. A player who is then bound to no account is not
    /// updated any more.
    pub fn unbind(&mut self, qq: i64)
        requires
            old(self).wf(),
        ensures
            final(self).wf(),
            final(self)@ == old(self)@.unbound(qq),
    {
        let found = position_where(
            &self.tables.bindings,
            |b: &BindingRow| -> (r: bool) ensures r == (b.qq == qq) { b.qq == qq },
            Ghost(of_qq(qq)),
        );
        let user_id: Option<i64> = match found {
            Some(i) => Some(self.tables.bindings[i].user_id),
            None => None,
        };
        delete_where(
            &mut self.tables.bindings,
            |b: &BindingRow| -> (r: bool) ensures r == (b.qq == qq) { b.qq == qq },
            Ghost(of_qq(qq)),
        );
        proof {
            filter_pairwise(old(self)@.bindings, not(of_qq(qq)), qq_before());
        }
        if let Some(uid) = user_id {
            let held = exists_where(
                &self.tables.bindings,
                |b: &BindingRow| -> (r: bool) ensures r == (b.user_id == uid) { b.user_id == uid },
                Ghost(of_user(uid)),
            );
            if !held {
                delete_where(
                    &mut self.tables.next_updates,
                    |n: &NextUpdateRow| -> (r: bool)
                        ensures r == (n.user_id == uid) { n.user_id == uid },
                    Ghost(next_of_user(uid)),
                );
                proof {
                    filter_pairwise(old(self)@.next_updates, not(next_of_user(uid)), other_next());
                }
            }
        }
    }

    /// Remembers the number of a username, whatever its ASCII case.
    pub fn set_user_id(&mut self, username: &str, user_id: i64)
        requires
            old(self).wf(),
        ensures
            final(self).wf(),
            final(self)@ == old(self)@.with_user_id(username@, user_id),
    {
        let name = ascii_lower(username);
        delete_where(
            &mut self.tables.user_ids,
            |u: &UserIdRow| -> (r: bool)
                ensures r == (u.username@ == name@) { text_eq(u.username.as_str(), name.as_str()) },
            Ghost(id_of(lower(username@))),
        );
        proof {
            filter_pairwise(old(self)@.user_ids, not(id_of(lower(username@))), other_username());
            filter_holds(old(self)@.user_ids, not(id_of(lower(username@))));
        }
        let ghost kept = self.tables.user_ids@;
        let row = UserIdRow { username: name, user_id };
        self.tables.user_ids.push(row);
        proof {
            assert(views(self.tables.user_ids@) =~= views(kept).push(row@));
        }
    }

    /// The number that a username is known with, whatever its ASCII case.
    pub fn get_user_id(&self, username: &str) -> (res: Option<i64>)
        requires
            self.wf(),
        ensures
            res == self@.user_id_of(username@),
    {
        let found = position_where(
            &self.tables.user_ids,
            |u: &UserIdRow| -> (r: bool)
                ensures r == (lower(u.username@) == lower(username@)) {
                same_name(u.username.as_str(), username)
            },
            Ghost(id_named(username@)),
        );
        match found {
            Some(i) => Some(self.tables.user_ids[i].user_id),
            None => None,
        }
    }

    /// The usernames of the bindings that are known with no number yet.
    pub fn get_users_without_ids(&self) -> (res: Vec<String>)
        requires
            self.wf(),
        ensures
            views(res@) == self@.names_without_id(),
    {
        select_where(
            &self.tables.bindings,
            |b: &BindingRow| -> (r: bool)
                ensures r == (self@.user_id_of(b.current_username@) is None) {
                self.get_user_id(b.current_username.as_str()).is_none()
            },
            |b: &BindingRow| -> (r: String)
                ensures r@ == b.current_username@ { b.current_username.clone() },
            Ghost(self@.without_id()),
            Ghost(|b: BindingView| b.current_username),
        )
    }

    /// The player that the account is bound to, and that player's name.
    pub fn get_binding(&self, qq: i64) -> (res: Option<(i64, String)>)
        requires
            self.wf(),
        ensures
            match self@.binding(qq) {
                Some(b) => res matches Some(found) && found.0 == b.user_id && found.1@
                    == b.current_username,
                None => res is None,
            },
    {
        let found = position_where(
            &self.tables.bindings,
            |b: &BindingRow| -> (r: bool) ensures r == (b.qq == qq) { b.qq == qq },
            Ghost(of_qq(qq)),
        );
        match found {
            Some(i) => Some(
                (
                    self.tables.bindings[i].user_id,
                    self.tables.bindings[i].current_username.clone(),
                ),
            ),
            None => None,
        }
    }

    /// The default mode of the account, if it is bound.
    pub fn get_default_mode(&self, qq: i64) -> (res: Result<Option<GameMode>, StorageError>)
        requires
            self.wf(),
        ensures
            match self@.binding(qq) {
                Some(b) => match GameMode::of_code(b.default_mode) {
                    Some(mode) => res == Ok::<Option<GameMode>, StorageError>(Some(mode)),
                    None => res == Err::<Option<GameMode>, StorageError>(
                        StorageError::InvalidDefaultMode,
                    ),
                },
                None => res == Ok::<Option<GameMode>, StorageError>(None),
            },
    {
        let found = position_where(
            &self.tables.bindings,
            |b: &BindingRow| -> (r: bool) ensures r == (b.qq == qq) { b.qq == qq },
            Ghost(of_qq(qq)),
        );
        match found {
            Some(i) => match GameMode::from_code(self.tables.bindings[i].default_mode) {
                Some(mode) => Ok(Some(mode)),
                None => Err(StorageError::InvalidDefaultMode),
            },
            None => Ok(None),
        }
    }

    /// Sets the default mode of the account, and says whether it is bound.
    pub fn set_default_mode(&mut self, qq: i64, mode: GameMode) -> (res: bool)
        requires
            old(self).wf(),
        ensures
            final(self).wf(),
            final(self)@ == old(self)@.bindings_updated(of_qq(qq), with_mode(mode.code())),
            res == (old(self)@.binding(qq) is Some),
    {
        let code: i32 = mode.to_code();
        let count = update_rows(
            &mut self.tables.bindings,
            |b: &BindingRow| -> (r: bool) ensures r == (b.qq == qq) { b.qq == qq },
            |b: &BindingRow| -> (r: BindingRow)
                ensures r@ == with_mode(code)(b@) {
                BindingRow {
                    qq: b.qq,
                    user_id: b.user_id,
                    current_username: b.current_username.clone(),
                    default_mode: code,
                }
            },
            Ghost(of_qq(qq)),
            Ghost(with_mode(code)),
        );
        proof {
            update_pairwise(old(self)@.bindings, of_qq(qq), with_mode(code), qq_before());
        }
        count > 0
    }

    /// The account that is bound under a name, whatever its ASCII case; where there are several,
    /// the first.
    pub fn find_qq_by_username(&self, username: &str) -> (res: Option<i64>)
        requires
            self.wf(),
        ensures
            res == self@.qq_of(username@),
    {
        let found = position_where(
            &self.tables.bindings,
            |b: &BindingRow| -> (r: bool)
                ensures r == (lower(b.current_username@) == lower(username@)) {
                same_name(b.current_username.as_str(), username)
            },
            Ghost(named(username@)),
        );
        match found {
            Some(i) => Some(self.tables.bindings[i].qq),
            None => None,
        }
    }

    /// Renames the player of the account.
    pub fn update_binding_username(&mut self, qq: i64, new_username: &str)
        requires
            old(self).wf(),
        ensures
            final(self).wf(),
            final(self)@ == old(self)@.bindings_updated(of_qq(qq), with_name(new_username@)),
    {
        update_rows(
            &mut self.tables.bindings,
            |b: &BindingRow| -> (r: bool) ensures r == (b.qq == qq) { b.qq == qq },
            |b: &BindingRow| -> (r: BindingRow)
                ensures r@ == with_name(new_username@)(b@) { renamed(b, new_username) },
            Ghost(of_qq(qq)),
            Ghost(with_name(new_username@)),
        );
        proof {
            update_pairwise(old(self)@.bindings, of_qq(qq), with_name(new_username@), qq_before());
        }
    }

    /// Renames the player in all bindings, and counts those that had another name.
    pub fn update_binding_username_by_user_id(&mut self, user_id: i64, new_username: &str) -> (res:
        u64)
        requires
            old(self).wf(),
        ensures
            final(self).wf(),
            final(self)@ == old(self)@.renamed(user_id, new_username@),
            res == old(self)@.bindings.filter(to_rename(user_id, new_username@)).len(),
    {
        let count = update_rows(
            &mut self.tables.bindings,
            |b: &BindingRow| -> (r: bool)
                ensures r == to_rename(user_id, new_username@)(b@) {
                b.user_id == user_id && !text_eq(b.current_username.as_str(), new_username)
            },
            |b: &BindingRow| -> (r: BindingRow)
                ensures r@ == with_name(new_username@)(b@) { renamed(b, new_username) },
            Ghost(to_rename(user_id, new_username@)),
            Ghost(with_name(new_username@)),
        );
        proof {
            update_pairwise(
                old(self)@.bindings,
                of_user(user_id),
                with_name(new_username@),
                qq_before(),
            );
            assert(self@.bindings =~= old(self)@.renamed(user_id, new_username@).bindings);
        }
        count
    }

    /// Every account with its player and the player's name, in the order of the accounts.
    pub fn get_all_user_bindings(&self) -> (res: Vec<(i64, i64, String)>)
        requires
            self.wf(),
        ensures
            views(res@) == self@.bindings.map_values(
                |b: BindingView| (b.qq, b.user_id, b.current_username),
            ),
    {
        let ghost all = |b: BindingView| true;
        proof {
            filter_all(self@.bindings, all);
        }
        select_where(
            &self.tables.bindings,
            |b: &BindingRow| -> (r: bool) ensures r { true },
            |b: &BindingRow| -> (r: (i64, i64, String))
                ensures r@ == (b.qq, b.user_id, b.current_username@) {
                (b.qq, b.user_id, b.current_username.clone())
            },
            Ghost(all),
            Ghost(|b: BindingView| (b.qq, b.user_id, b.current_username)),
        )
    }
}

/// A binding with another name.
fn renamed(b: &BindingRow, name: &str) -> (res: BindingRow)
    ensures
        res@ == with_name(name@)(b@),
{
    BindingRow {
        qq: b.qq,
        user_id: b.user_id,
        current_username: name.to_owned(),
        default_mode: b.default_mode,
    }
}

/// Puts a binding in its place.
fn put(rows: &mut Vec<BindingRow>, row: BindingRow)
    requires
        bindings_ok(views(old(rows)@)),
    ensures
        bindings_ok(views(final(rows)@)),
        views(final(rows)@) == put_binding(views(old(rows)@), row@),
{
    let ghost s = views(rows@);
    let qq: i64 = row.qq;
    let mut i: usize = 0;
    while i < rows.len() && rows[i].qq < qq
        invariant
            s == views(rows@),
            i <= rows@.len(),
            forall|j: int| 0 <= j < i ==> #[trigger] s[j].qq < qq,
        decreases rows@.len() - i,
    {
        assert(s[i as int].qq == rows@[i as int].qq);
        i += 1;
    }
    proof {
        assert(forall|j: int| 0 <= j < s.len() ==> #[trigger] s[j].qq == rows@[j].qq);
        assert(i < s.len() ==> qq <= s[i as int].qq);
        filter_head(s, i as int, below_qq(qq));
    }
    if i < rows.len() && rows[i].qq == qq {
        proof {
            filter_tail(s, i + 1, above_qq(qq));
        }
        rows.remove(i);
    } else {
        proof {
            filter_tail(s, i as int, above_qq(qq));
        }
    }
    rows.insert(i, row);
    assert(views(rows@) =~= put_binding(s, row@));
}

} // verus!
