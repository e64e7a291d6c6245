use vstd::prelude::*;
use vstd::string::StrSliceExecFns;

use crate::listing::{lemma_sorted_page_names, sorted_page, sorted_page_of, texts, Order};

use crate::database::{
    any_row, find_first, first_match, lemma_filter_all, lemma_filter_rows, lemma_filter_unique,
    lemma_first_match_none, lemma_push_unique, lemma_wf_accounts, membership_key, remove_where, session_id_key,
    session_token_key, user_key, Database, DatabaseView, MAX_ROW_ID,
};
use crate::group::{find_grant, find_group};
use crate::keys::{argon2_accepts, hash_password, key_material, keccak256_hex, password_matches};
use crate::login_session::{LoginSession, LoginSessionInsertError};
use crate::permission::MAX_NAME_LEN;

verus! {

broadcast use vstd::seq_lib::group_filter_ensures;

/// An account. `details` holds a structured document as text.
#[derive(Clone, Debug, PartialEq, Eq)]
pub struct User {
    pub login: String,
    pub password_hash: String,
    pub details: String,
}

/// A login and a password in clear, as a caller presents them.
#[derive(Clone, Debug, PartialEq, Eq)]
pub struct UserCredentials {
    pub login: String,
    pub password: String,
}

/// A row of the `users_groups` relation: the user is a member of the group.
#[derive(Clone, Debug, PartialEq, Eq)]
pub struct Membership {
    pub user_login: String,
    pub group_name: String,
}

#[derive(Clone, Copy, Debug, PartialEq, Eq)]
pub enum UserRetrieveError {
    /// No user has the login.
    NotFound,
}

#[derive(Clone, Debug, PartialEq, Eq)]
pub enum UserInsertError {
    /// A user with the login exists, or the login is too long.
    NameError,
    /// The password could not be hashed; the text says why.
    CannotHash(String),
}

#[derive(Clone, Copy, Debug, PartialEq, Eq)]
pub enum UserDeleteError {
    /// No user has the login.
    NotFound,
}

#[derive(Clone, Copy, Debug, PartialEq, Eq)]
pub enum UserHasPermissionError {
    /// The user does not hold the permission.
    Unauthorized,
}

#[derive(Clone, Debug, PartialEq, Eq)]
pub enum UserLoginError {
    /// No user has the login.
    NotFound,
    /// The password does not match.
    InvalidCredentials,
    /// The session token could not be derived; the text says why.
    CannotHash(String),
    /// A session with the derived token exists.
    TokenConflict,
    /// Every session identifier has been used.
    IdsExhausted,
}

#[derive(Clone, Copy, Debug, PartialEq, Eq)]
pub enum UserGrantError {
    /// No user has the login.
    NotFound,
    /// No group has the name.
    GroupNotFound,
}

#[derive(Clone, Copy, Debug, PartialEq, Eq)]
pub enum UserRevokeError {
    /// No user has the login.
    NotFound,
    /// No group has the name.
    GroupNotFound,
    /// The user is not a member of the group.
    NotGranted,
}

#[derive(Clone, Copy, Debug, PartialEq, Eq)]
pub enum UserVerifyPasswordError {
    /// No user has the login.
    NotFound,
    /// The password does not match.
    Unauthorized,
}

/// Selects the user whose login is `login`.
pub open spec fn user_named(login: Seq<char>) -> spec_fn(User) -> bool {
    |u: User| u.login@ == login
}

/// Selects every user but the one whose login is `login`.
pub open spec fn user_not_named(login: Seq<char>) -> spec_fn(User) -> bool {
    |u: User| u.login@ != login
}

/// Selects the memberships of every user but `login`.
pub open spec fn membership_not_of(login: Seq<char>) -> spec_fn(Membership) -> bool {
    |m: Membership| m.user_login@ != login
}

/// Selects the sessions of every user but `login`.
pub open spec fn session_not_of(login: Seq<char>) -> spec_fn(LoginSession) -> bool {
    |s: LoginSession| s.user_login@ != login
}

/// Selects the membership of `login` in `group`.
pub open spec fn membership_is(login: Seq<char>, group: Seq<char>) -> spec_fn(Membership) -> bool {
    |m: Membership| m.user_login@ == login && m.group_name@ == group
}

/// Selects every membership but that of `login` in `group`.
pub open spec fn membership_is_not(login: Seq<char>, group: Seq<char>) -> spec_fn(Membership) -> bool {
    |m: Membership| !(m.user_login@ == login && m.group_name@ == group)
}

impl DatabaseView {
    /// The logins of the users, in insertion order.
    pub open spec fn user_names(self) -> Seq<Seq<char>> {
        self.users.map_values(|u: User| u.login@)
    }

    pub open spec fn has_user(self, login: Seq<char>) -> bool {
        any_row(self.users, user_named(login))
    }

    /// The user whose login is `login`, if there is one.
    pub open spec fn user(self, login: Seq<char>) -> Option<User> {
        match first_match(self.users, user_named(login)) {
            Some(i) => Some(self.users[i]),
            None => None,
        }
    }

    /// Whether a new user with this login is refused.
    pub open spec fn user_insert_refused(self, login: Seq<char>) -> bool {
        self.has_user(login) || login.len() > MAX_NAME_LEN
    }

    /// The store with the user `u` added.
    pub open spec fn with_user(self, u: User) -> DatabaseView {
        DatabaseView { users: self.users.push(u), ..self }
    }

    /// The store without the user `login`, its memberships and its sessions.
    pub open spec fn without_user(self, login: Seq<char>) -> DatabaseView {
        DatabaseView {
            users: self.users.filter(user_not_named(login)),
            users_groups: self.users_groups.filter(membership_not_of(login)),
            login_sessions: self.login_sessions.filter(session_not_of(login)),
            ..self
        }
    }

    /// The user `login` is a member of the group `group`.
    pub open spec fn has_membership(self, login: Seq<char>, group: Seq<char>) -> bool {
        any_row(self.users_groups, membership_is(login, group))
    }

    /// The store after making `login` a member of `group`; nothing changes when it is one.
    pub open spec fn with_membership(self, login: String, group: String) -> DatabaseView {
        if self.has_membership(login@, group@) {
            self
        } else {
            DatabaseView {
                users_groups: self.users_groups.push(Membership { user_login: login, group_name: group }),
                ..self
            }
        }
    }

    /// The store without the membership of `login` in `group`.
    pub open spec fn without_membership(self, login: Seq<char>, group: Seq<char>) -> DatabaseView {
        DatabaseView { users_groups: self.users_groups.filter(membership_is_not(login, group)), ..self }
    }

    /// The user `login` exists and is a member of a group that holds `permission`.
    pub open spec fn user_has_permission(self, login: Seq<char>, permission: Seq<char>) -> bool {
        &&& self.has_user(login)
        &&& exists|i: int|
            0 <= i < self.users_groups.len() && self.users_groups[i].user_login@ == login
                && #[trigger] self.has_grant(self.users_groups[i].group_name@, permission)
    }

    /// The user `login` exists and Argon2 accepts `password` against its hash.
    pub open spec fn password_verifies(self, login: Seq<char>, password: Seq<char>) -> bool {
        match self.user(login) {
            Some(u) => argon2_accepts(password, u.password_hash@),
            None => false,
        }
    }
}

/// Finds the user whose login is `login` in `conn`.
pub(crate) fn find_user(conn: &Database, login: &String) -> (r: Option<usize>)
    ensures
        r is Some ==> first_match(conn@.users, user_named(login@)) == Some(r->0 as int),
        r is None ==> first_match(conn@.users, user_named(login@)) is None,
        r is Some <==> conn@.has_user(login@),
{
    let named = |u: &User| -> (b: bool)
        ensures
            b == (u.login@ == login@),
    {
        u.login == *login
    };
    let r = find_first(&conn.users, named, Ghost(user_named(login@)));
    proof {
        if r is Some {
            assert(user_named(login@)(conn@.users[r->0 as int]));
        } else {
            lemma_first_match_none(conn@.users, user_named(login@));
        }
    }
    r
}

/// Whether the user `login` holds the permission named `permission` through a group.
pub(crate) fn user_has_permission(conn: &Database, login: &String, permission: &String) -> (r: bool)
    ensures
        r == conn@.user_has_permission(login@, permission@),
{
    if find_user(conn, login).is_none() {
        return false;
    }
    let ghost ug = conn@.users_groups;
    let mut i: usize = 0;
    while i < conn.users_groups.len()
        invariant
            0 <= i <= ug.len(),
            ug == conn@.users_groups,
            conn@.has_user(login@),
            forall|j: int| 0 <= j < i ==> !(ug[j].user_login@ == login@ && #[trigger] conn@.has_grant(ug[j].group_name@, permission@)),
        decreases ug.len() - i,
    {
        let m = &conn.users_groups[i];
        if m.user_login == *login && find_grant(conn, &m.group_name, permission) {
            return true;
        }
        i = i + 1;
    }
    false
}

impl User {
    /// The user whose login is `login`.
    pub fn retrieve(conn: &Database, login: &String) -> (r: Result<User, UserRetrieveError>)
        ensures
            r == match conn@.user(login@) {
                Some(u) => Ok(u),
                None => Err(UserRetrieveError::NotFound),
            },
    {
        match find_user(conn, login) {
            Some(i) => {
                let row = &conn.users[i];
                Ok(User { login: row.login.clone(), password_hash: row.password_hash.clone(), details: row.details.clone() })
            },
            None => Err(UserRetrieveError::NotFound),
        }
    }

    /// A page of the users sorted by login: in `order` (ascending when absent), from
    /// `offset` (0 when absent), at most `limit` of them (`DEFAULT_LIMIT` when absent).
    pub fn list(conn: &Database, order: Option<Order>, offset: Option<usize>, limit: Option<usize>) -> (r: Vec<User>)
        ensures
            r@.len() == sorted_page(conn@.user_names(), order, offset, limit).len(),
            forall|k: int| 0 <= k < r@.len() ==> Some(#[trigger] r@[k]) == conn@.user(
                sorted_page(conn@.user_names(), order, offset, limit)[k],
            ),
    {
        let ghost all = conn@.user_names();
        let mut names: Vec<String> = Vec::new();
        let mut i: usize = 0;
        while i < conn.users.len()
            invariant
                0 <= i <= conn@.users.len(),
                all == conn@.user_names(),
                texts(names@) =~= all.subrange(0, i as int),
            decreases conn@.users.len() - i,
        {
            let ghost before = names@;
            names.push(conn.users[i].login.clone());
            proof {
                assert(texts(names@) =~= texts(before).push(all[i as int]));
                assert(all.subrange(0, i + 1) =~= all.subrange(0, i as int).push(all[i as int]));
            }
            i = i + 1;
        }
        proof {
            assert(all.subrange(0, i as int) =~= all);
        }
        let ghost page_names = sorted_page(all, order, offset, limit);
        let selected = sorted_page_of(names, order, offset, limit);
        proof {
            lemma_sorted_page_names(all, order, offset, limit);
        }
        let mut out: Vec<User> = Vec::new();
        let mut k: usize = 0;
        while k < selected.len()
            invariant
                0 <= k <= selected@.len(),
                all == conn@.user_names(),
                texts(selected@) == page_names,
                page_names == sorted_page(all, order, offset, limit),
                forall|m: int| 0 <= m < page_names.len() ==> all.contains(#[trigger] page_names[m]),
                out@.len() == k,
                forall|m: int| 0 <= m < k ==> Some(#[trigger] out@[m]) == conn@.user(page_names[m]),
            decreases selected@.len() - k,
        {
            proof {
                assert(all.contains(page_names[k as int]));
                let j = choose|j: int| 0 <= j < all.len() && all[j] == page_names[k as int];
                assert(user_named(selected@[k as int]@)(conn@.users[j]));
            }
            match User::retrieve(conn, &selected[k]) {
                Ok(p) => out.push(p),
                Err(_) => {
                    proof {
                        lemma_first_match_none(conn@.users, user_named(selected@[k as int]@));
                    }
                    return out;
                },
            }
            k = k + 1;
        }
        out
    }

    /// Adds a user whose password is hashed with a fresh salt first.
    pub fn insert(conn: &mut Database, login: &String, password: &String, details: &String) -> (r: Result<(), UserInsertError>)
        requires
            old(conn)@.wf(),
        ensures
            final(conn)@.wf(),
            match r {
                Ok(()) => !old(conn)@.user_insert_refused(login@) && exists|hash: String|
                    argon2_accepts(password@, hash@) && final(conn)@ == #[trigger] old(conn)@.with_user(
                        User { login: *login, password_hash: hash, details: *details },
                    ),
                Err(UserInsertError::NameError) => old(conn)@.user_insert_refused(login@) && final(conn)@ == old(conn)@,
                Err(UserInsertError::CannotHash(_)) => final(conn)@ == old(conn)@,
            },
    {
        let password_hash = match hash_password(password) {
            Ok(hash) => hash,
            Err(err) => return Err(UserInsertError::CannotHash(err)),
        };
        User::insert_unhashed(conn, login, &password_hash, details)
    }

    /// Adds a user whose password hash is already computed. The login must be new and at
    /// most `MAX_NAME_LEN` characters long.
    pub fn insert_unhashed(conn: &mut Database, login: &String, password: &String, details: &String) -> (r: Result<(), UserInsertError>)
        requires
            old(conn)@.wf(),
        ensures
            final(conn)@.wf(),
            old(conn)@.user_insert_refused(login@) ==> r == Err::<(), UserInsertError>(UserInsertError::NameError)
                && final(conn)@ == old(conn)@,
            !old(conn)@.user_insert_refused(login@) ==> r is Ok && final(conn)@ == old(conn)@.with_user(
                User { login: *login, password_hash: *password, details: *details },
            ),
            final(conn)@.has_user(login@) == (old(conn)@.has_user(login@) || r is Ok),
    {
        if login.as_str().unicode_len() > MAX_NAME_LEN || find_user(conn, login).is_some() {
            return Err(UserInsertError::NameError);
        }
        let ghost before = conn@;
        conn.users.push(User { login: login.clone(), password_hash: password.clone(), details: details.clone() });
        proof {
            let row = User { login: *login, password_hash: *password, details: *details };
            assert forall|i: int| 0 <= i < before.users.len() implies #[trigger] user_key()(before.users[i]) != user_key()(row) by {
                assert(!user_named(login@)(before.users[i]));
            }
            lemma_push_unique(before.users, user_key(), row);
            let after = conn@;
            assert forall|u: Seq<char>| before.has_user(u) implies after.has_user(u) by {
                let i = choose|i: int| 0 <= i < before.users.len() && #[trigger] user_named(u)(before.users[i]);
                assert(user_named(u)(after.users[i]));
            }
            assert forall|i: int| 0 <= i < after.users_groups.len() implies #[trigger] after.has_user(
                after.users_groups[i].user_login@) by {
                assert(before.has_user(before.users_groups[i].user_login@));
            }
            assert forall|i: int| 0 <= i < after.login_sessions.len() implies #[trigger] after.has_user(
                after.login_sessions[i].user_login@) by {
                assert(before.has_user(before.login_sessions[i].user_login@));
            }
            assert(after =~= before.with_user(row));
            lemma_wf_accounts(before, after);
            assert(user_named(login@)(after.users[after.users.len() - 1]));
        }
        Ok(())
    }

    /// Removes the user `login` together with its memberships and its sessions.
    pub fn delete(conn: &mut Database, login: String) -> (r: Result<(), UserDeleteError>)
        requires
            old(conn)@.wf(),
        ensures
            final(conn)@.wf(),
            !old(conn)@.has_user(login@) ==> r == Err::<(), UserDeleteError>(UserDeleteError::NotFound)
                && final(conn)@ == old(conn)@,
            old(conn)@.has_user(login@) ==> r is Ok && final(conn)@ == old(conn)@.without_user(login@),
    {
        if find_user(conn, &login).is_none() {
            return Err(UserDeleteError::NotFound);
        }
        let ghost before = conn@;
        let other_member = |m: &Membership| -> (b: bool)
            ensures
                b == (m.user_login@ != login@),
        {
            !(m.user_login == login)
        };
        remove_where(&mut conn.users_groups, other_member, Ghost(membership_not_of(login@)));
        proof {
            lemma_filter_unique(before.users_groups, membership_key(), membership_not_of(login@));
        }
        let other_session = |s: &LoginSession| -> (b: bool)
            ensures
                b == (s.user_login@ != login@),
        {
            !(s.user_login == login)
        };
        remove_where(&mut conn.login_sessions, other_session, Ghost(session_not_of(login@)));
        let other_user = |u: &User| -> (b: bool)
            ensures
                b == (u.login@ != login@),
        {
            !(u.login == login)
        };
        remove_where(&mut conn.users, other_user, Ghost(user_not_named(login@)));
        proof {
            let after = conn@;
            assert(after =~= before.without_user(login@));
            lemma_filter_unique(before.users, user_key(), user_not_named(login@));
            lemma_filter_unique(before.login_sessions, session_id_key(), session_not_of(login@));
            lemma_filter_unique(before.login_sessions, session_token_key(), session_not_of(login@));
            assert forall|u: Seq<char>| u != login@ && before.has_user(u) implies after.has_user(u) by {
                let i = choose|i: int| 0 <= i < before.users.len() && #[trigger] user_named(u)(before.users[i]);
                assert(user_not_named(login@)(before.users[i]));
                assert(after.users.contains(before.users[i]));
                let j = choose|j: int| 0 <= j < after.users.len() && after.users[j] == before.users[i];
                assert(user_named(u)(after.users[j]));
            }
            assert forall|i: int| 0 <= i < after.users_groups.len() implies #[trigger] after.has_user(
                after.users_groups[i].user_login@) by {
                lemma_filter_rows(before.users_groups, membership_not_of(login@), i);
                let j = choose|j: int| 0 <= j < before.users_groups.len() && before.users_groups[j] == after.users_groups[i];
                assert(before.has_user(before.users_groups[j].user_login@));
            }
            assert forall|i: int| 0 <= i < after.login_sessions.len() implies after.has_user(
                after.login_sessions[i].user_login@) && 1 <= #[trigger] session_id_key()(after.login_sessions[i]) < after.next_session_id by {
                lemma_filter_rows(before.login_sessions, session_not_of(login@), i);
                let j = choose|j: int| 0 <= j < before.login_sessions.len() && before.login_sessions[j] == after.login_sessions[i];
                assert(before.has_user(before.login_sessions[j].user_login@));
                assert(1 <= session_id_key()(before.login_sessions[j]) < before.next_session_id);
            }
            assert forall|i: int| 0 <= i < after.login_sessions.len() implies #[trigger] after.has_user(
                after.login_sessions[i].user_login@) by {
                assert(1 <= session_id_key()(after.login_sessions[i]));
            }
            lemma_wf_accounts(before, after);
        }
        Ok(())
    }

    /// Checks the password of the user `login`, then opens a session and returns its token.
    pub fn login(conn: &mut Database, login: &String, password: &String) -> (r: Result<String, UserLoginError>)
        requires
            old(conn)@.wf(),
        ensures
            final(conn)@.wf(),
            !old(conn)@.has_user(login@) ==> r == Err::<String, UserLoginError>(UserLoginError::NotFound)
                && final(conn)@ == old(conn)@,
            old(conn)@.has_user(login@) && !old(conn)@.password_verifies(login@, password@) ==> r == Err::<
                String,
                UserLoginError,
            >(UserLoginError::InvalidCredentials) && final(conn)@ == old(conn)@,
            match r {
                Ok(token) => old(conn)@.password_verifies(login@, password@) && !old(conn)@.has_token(token@)
                    && final(conn)@ == old(conn)@.with_session(*login, token)
                    && exists|seconds: nat| token@ == keccak256_hex(#[trigger] key_material(login@, seconds)),
                Err(UserLoginError::NotFound) => !old(conn)@.has_user(login@) && final(conn)@ == old(conn)@,
                Err(UserLoginError::InvalidCredentials) => old(conn)@.has_user(login@) && !old(
                    conn,
                )@.password_verifies(login@, password@) && final(conn)@ == old(conn)@,
                Err(UserLoginError::TokenConflict) => old(conn)@.password_verifies(login@, password@)
                    && old(conn)@.derived_token_taken(login@) && final(conn)@ == old(conn)@,
                Err(UserLoginError::IdsExhausted) => old(conn)@.password_verifies(login@, password@)
                    && old(conn)@.next_session_id == MAX_ROW_ID && final(conn)@ == old(conn)@,
                Err(UserLoginError::CannotHash(_)) => old(conn)@.password_verifies(login@, password@)
                    && final(conn)@ == old(conn)@,
            },
    {
        match User::verify_password(conn, login, password) {
            Ok(()) => {
                proof {
                    let i = first_match(conn@.users, user_named(login@))->0;
                    assert(user_named(login@)(conn@.users[i]));
                }
            },
            Err(UserVerifyPasswordError::NotFound) => return Err(UserLoginError::NotFound),
            Err(UserVerifyPasswordError::Unauthorized) => return Err(UserLoginError::InvalidCredentials),
        }
        match LoginSession::insert(conn, login.clone()) {
            Ok(token) => Ok(token),
            Err(LoginSessionInsertError::UserNotFound) => Err(UserLoginError::NotFound),
            Err(LoginSessionInsertError::CannotHash(err)) => Err(UserLoginError::CannotHash(err)),
            Err(LoginSessionInsertError::TokenConflict) => Err(UserLoginError::TokenConflict),
            Err(LoginSessionInsertError::IdsExhausted) => Err(UserLoginError::IdsExhausted),
        }
    }

    /// Whether this user holds the permission named `permission_name` through one of its groups.
    pub fn has_permission(&self, conn: &Database, permission_name: String) -> (r: bool)
        ensures
            r == conn@.user_has_permission(self.login@, permission_name@),
    {
        user_has_permission(conn, &self.login, &permission_name)
    }

    /// Makes the user `login` a member of the group `group_name`; making a member again
    /// changes nothing.
    pub fn grant_group(conn: &mut Database, login: &String, group_name: &String) -> (r: Result<(), UserGrantError>)
        requires
            old(conn)@.wf(),
        ensures
            final(conn)@.wf(),
            !old(conn)@.has_group(group_name@) ==> r == Err::<(), UserGrantError>(UserGrantError::GroupNotFound)
                && final(conn)@ == old(conn)@,
            old(conn)@.has_group(group_name@) && !old(conn)@.has_user(login@) ==> r == Err::<(), UserGrantError>(
                UserGrantError::NotFound,
            ) && final(conn)@ == old(conn)@,
            old(conn)@.has_group(group_name@) && old(conn)@.has_user(login@) ==> r is Ok && final(conn)@ == old(
                conn,
            )@.with_membership(*login, *group_name),
    {
        if find_group(conn, group_name).is_none() {
            return Err(UserGrantError::GroupNotFound);
        }
        if find_user(conn, login).is_none() {
            return Err(UserGrantError::NotFound);
        }
        let is = |m: &Membership| -> (b: bool)
            ensures
                b == (m.user_login@ == login@ && m.group_name@ == group_name@),
        {
            m.user_login == *login && m.group_name == *group_name
        };
        let found = find_first(&conn.users_groups, is, Ghost(membership_is(login@, group_name@)));
        if found.is_some() {
            proof {
                assert(membership_is(login@, group_name@)(conn@.users_groups[found->0 as int]));
            }
            return Ok(());
        }
        proof {
            lemma_first_match_none(conn@.users_groups, membership_is(login@, group_name@));
        }
        let ghost before = conn@;
        conn.users_groups.push(Membership { user_login: login.clone(), group_name: group_name.clone() });
        proof {
            let after = conn@;
            assert(after =~= before.with_membership(*login, *group_name));
            let row = Membership { user_login: *login, group_name: *group_name };
            assert forall|i: int| 0 <= i < before.users_groups.len() implies #[trigger] membership_key()(
                before.users_groups[i]) != membership_key()(row) by {
                assert(!membership_is(login@, group_name@)(before.users_groups[i]));
            }
            lemma_push_unique(before.users_groups, membership_key(), row);
            assert forall|i: int| 0 <= i < after.users_groups.len() implies #[trigger] after.has_user(
                after.users_groups[i].user_login@) by {
                if i < before.users_groups.len() {
                    assert(after.users_groups[i] == before.users_groups[i]);
                    assert(before.has_user(before.users_groups[i].user_login@));
                }
            }
            assert forall|i: int| 0 <= i < after.login_sessions.len() implies #[trigger] after.has_user(
                after.login_sessions[i].user_login@) by {
                assert(before.has_user(before.login_sessions[i].user_login@));
            }
            lemma_wf_accounts(before, after);
        }
        Ok(())
    }

    /// Ends the membership of the user `login` in the group `group_name`.
    pub fn revoke_group(conn: &mut Database, login: &String, group_name: &String) -> (r: Result<(), UserRevokeError>)
        requires
            old(conn)@.wf(),
        ensures
            final(conn)@.wf(),
            !old(conn)@.has_group(group_name@) ==> r == Err::<(), UserRevokeError>(UserRevokeError::GroupNotFound)
                && final(conn)@ == old(conn)@,
            old(conn)@.has_group(group_name@) && !old(conn)@.has_user(login@) ==> r == Err::<(), UserRevokeError>(
                UserRevokeError::NotFound,
            ) && final(conn)@ == old(conn)@,
            old(conn)@.has_group(group_name@) && old(conn)@.has_user(login@) && !old(conn)@.has_membership(
                login@,
                group_name@,
            ) ==> r == Err::<(), UserRevokeError>(UserRevokeError::NotGranted) && final(conn)@ == old(conn)@,
            old(conn)@.has_group(group_name@) && old(conn)@.has_user(login@) && old(conn)@.has_membership(
                login@,
                group_name@,
            ) ==> r is Ok && final(conn)@ == old(conn)@.without_membership(login@, group_name@),
    {
        if find_group(conn, group_name).is_none() {
            return Err(UserRevokeError::GroupNotFound);
        }
        if find_user(conn, login).is_none() {
            return Err(UserRevokeError::NotFound);
        }
        let ghost before = conn@;
        let is_not = |m: &Membership| -> (b: bool)
            ensures
                b == !(m.user_login@ == login@ && m.group_name@ == group_name@),
        {
            !(m.user_login == *login && m.group_name == *group_name)
        };
        let removed = remove_where(&mut conn.users_groups, is_not, Ghost(membership_is_not(login@, group_name@)));
        proof {
            lemma_filter_unique(before.users_groups, membership_key(), membership_is_not(login@, group_name@));
        }
        proof {
            let after = conn@;
            assert(after =~= before.without_membership(login@, group_name@));
            assert forall|i: int| 0 <= i < after.users_groups.len() implies #[trigger] after.has_user(
                after.users_groups[i].user_login@) by {
                lemma_filter_rows(before.users_groups, membership_is_not(login@, group_name@), i);
                let j = choose|j: int| 0 <= j < before.users_groups.len() && before.users_groups[j] == after.users_groups[i];
                assert(before.has_user(before.users_groups[j].user_login@));
            }
            assert forall|i: int| 0 <= i < after.login_sessions.len() implies #[trigger] after.has_user(
                after.login_sessions[i].user_login@) by {
                assert(before.has_user(before.login_sessions[i].user_login@));
            }
            lemma_wf_accounts(before, after);
            if before.has_membership(login@, group_name@) {
                let i = choose|i: int| 0 <= i < before.users_groups.len() && #[trigger] membership_is(login@, group_name@)(before.users_groups[i]);
                assert(!membership_is_not(login@, group_name@)(before.users_groups[i]));
            } else {
                assert forall|i: int| 0 <= i < before.users_groups.len() implies #[trigger] membership_is_not(login@, group_name@)(before.users_groups[i]) by {
                    assert(!membership_is(login@, group_name@)(before.users_groups[i]));
                }
                lemma_filter_all(before.users_groups, membership_is_not(login@, group_name@));
            }
        }
        if removed == 0 {
            Err(UserRevokeError::NotGranted)
        } else {
            Ok(())
        }
    }

    /// Checks `password` against the stored hash of the user `login`.
    pub fn verify_password(conn: &Database, login: &String, password: &String) -> (r: Result<(), UserVerifyPasswordError>)
        ensures
            !conn@.has_user(login@) ==> r == Err::<(), UserVerifyPasswordError>(UserVerifyPasswordError::NotFound),
            conn@.has_user(login@) && !conn@.password_verifies(login@, password@) ==> r == Err::<
                (),
                UserVerifyPasswordError,
            >(UserVerifyPasswordError::Unauthorized),
            conn@.password_verifies(login@, password@) ==> r is Ok,
    {
        let i = match find_user(conn, login) {
            Some(i) => i,
            None => return Err(UserVerifyPasswordError::NotFound),
        };
        if password_matches(password, &conn.users[i].password_hash) {
            Ok(())
        } else {
            Err(UserVerifyPasswordError::Unauthorized)
        }
    }
}

} // verus!
