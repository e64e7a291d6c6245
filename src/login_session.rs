use vstd::prelude::*;

use crate::database::{any_row, find_first, first_match, lemma_filter_all, lemma_filter_rows, lemma_filter_unique, lemma_first_match_none, lemma_push_unique, lemma_wf_accounts, remove_where, session_id_key, session_token_key, Database, DatabaseView, MAX_ROW_ID};
use crate::keys::{fresh_key, key_material, keccak256_hex};
use crate::user::{find_user, User};

verus! {

broadcast use vstd::seq_lib::group_filter_ensures;

/// An issued authentication token, owned by a user.
#[derive(Clone, Debug, PartialEq, Eq)]
pub struct LoginSession {
    pub id: i32,
    pub user_login: String,
    pub token: String,
}

#[derive(Clone, Copy, Debug, PartialEq, Eq)]
pub enum LoginSessionRetrieveError {
    /// No session has the token.
    NotFound,
}

#[derive(Clone, Debug, PartialEq, Eq)]
pub enum LoginSessionInsertError {
    /// No user has the login.
    UserNotFound,
    /// The token could not be derived; the text says why.
    CannotHash(String),
    /// A session with the derived token exists.
    TokenConflict,
    /// Every session identifier has been used.
    IdsExhausted,
}

#[derive(Clone, Copy, Debug, PartialEq, Eq)]
pub enum LoginSessionDeleteError {
    /// No session matched.
    NotFound,
}

#[derive(Clone, Copy, Debug, PartialEq, Eq)]
pub enum LoginSessionGetUserError {
    /// No session has the token.
    NotFound,
}

/// Selects the session whose token is `token`.
pub open spec fn session_with_token(token: Seq<char>) -> spec_fn(LoginSession) -> bool {
    |s: LoginSession| s.token@ == token
}

/// Selects every session but the one whose token is `token`.
pub open spec fn session_without_token(token: Seq<char>) -> spec_fn(LoginSession) -> bool {
    |s: LoginSession| s.token@ != token
}

/// Selects every session but the one whose identifier is `id`.
pub open spec fn session_without_id(id: int) -> spec_fn(LoginSession) -> bool {
    |s: LoginSession| s.id as int != id
}

impl DatabaseView {
    /// `e` is a reason that opening a session of `login` in this store may be refused for.
    pub open spec fn session_refusal(self, login: Seq<char>, e: LoginSessionInsertError) -> bool {
        match e {
            LoginSessionInsertError::UserNotFound => !self.has_user(login),
            LoginSessionInsertError::TokenConflict => self.has_user(login) && self.derived_token_taken(login),
            LoginSessionInsertError::IdsExhausted => self.has_user(login) && self.next_session_id == MAX_ROW_ID,
            LoginSessionInsertError::CannotHash(_) => self.has_user(login),
        }
    }

    /// Some session holds a token derived from `login` at some second.
    pub open spec fn derived_token_taken(self, login: Seq<char>) -> bool {
        exists|seconds: nat| self.has_token(keccak256_hex(#[trigger] key_material(login, seconds)))
    }

    /// Some session has the token `token`.
    pub open spec fn has_token(self, token: Seq<char>) -> bool {
        any_row(self.login_sessions, session_with_token(token))
    }

    /// Some session has the identifier `id`.
    pub open spec fn has_session_id(self, id: int) -> bool {
        exists|i: int| 0 <= i < self.login_sessions.len() && #[trigger] self.login_sessions[i].id as int == id
    }

    /// The session whose token is `token`, if there is one.
    pub open spec fn session(self, token: Seq<char>) -> Option<LoginSession> {
        match first_match(self.login_sessions, session_with_token(token)) {
            Some(i) => Some(self.login_sessions[i]),
            None => None,
        }
    }

    /// The user who owns the session whose token is `token`, if there is one.
    pub open spec fn session_user(self, token: Seq<char>) -> Option<User> {
        match self.session(token) {
            Some(s) => self.user(s.user_login@),
            None => None,
        }
    }

    /// The owner of the session whose token is `token` holds the permission `permission`.
    pub open spec fn session_has_permission(self, token: Seq<char>, permission: Seq<char>) -> bool {
        match self.session(token) {
            Some(s) => self.user_has_permission(s.user_login@, permission),
            None => false,
        }
    }

    /// The store with a new session of `user_login` holding `token`, under the next identifier.
    pub open spec fn with_session(self, user_login: String, token: String) -> DatabaseView {
        DatabaseView {
            login_sessions: self.login_sessions.push(
                LoginSession { id: self.next_session_id as i32, user_login, token },
            ),
            next_session_id: self.next_session_id + 1,
            ..self
        }
    }

    /// The store without the session whose identifier is `id`.
    pub open spec fn without_session_id(self, id: int) -> DatabaseView {
        DatabaseView { login_sessions: self.login_sessions.filter(session_without_id(id)), ..self }
    }

    /// The store without the session whose token is `token`.
    pub open spec fn without_session_token(self, token: Seq<char>) -> DatabaseView {
        DatabaseView { login_sessions: self.login_sessions.filter(session_without_token(token)), ..self }
    }
}

/// Finds the session whose token is `token` in `conn`.
fn find_session(conn: &Database, token: &String) -> (r: Option<usize>)
    ensures
        r is Some ==> first_match(conn@.login_sessions, session_with_token(token@)) == Some(r->0 as int),
        r is None ==> first_match(conn@.login_sessions, session_with_token(token@)) is None,
        r is Some <==> conn@.has_token(token@),
{
    let with = |s: &LoginSession| -> (b: bool)
        ensures
            b == (s.token@ == token@),
    {
        s.token == *token
    };
    let r = find_first(&conn.login_sessions, with, Ghost(session_with_token(token@)));
    proof {
        if r is Some {
            assert(session_with_token(token@)(conn@.login_sessions[r->0 as int]));
        } else {
            lemma_first_match_none(conn@.login_sessions, session_with_token(token@));
        }
    }
    r
}

/// Removing sessions keeps the invariants.
proof fn lemma_sessions_filtered(before: DatabaseView, keep: spec_fn(LoginSession) -> bool)
    requires
        before.wf(),
    ensures
        (DatabaseView { login_sessions: before.login_sessions.filter(keep), ..before }).wf(),
{
    let after = DatabaseView { login_sessions: before.login_sessions.filter(keep), ..before };
    lemma_filter_unique(before.login_sessions, session_id_key(), keep);
    lemma_filter_unique(before.login_sessions, session_token_key(), keep);
    assert forall|i: int| 0 <= i < after.login_sessions.len() implies after.has_user(
        after.login_sessions[i].user_login@) && 1 <= #[trigger] session_id_key()(after.login_sessions[i]) < after.next_session_id by {
        lemma_filter_rows(before.login_sessions, keep, i);
        let j = choose|j: int| 0 <= j < before.login_sessions.len() && before.login_sessions[j] == after.login_sessions[i];
        assert(before.has_user(before.login_sessions[j].user_login@));
        assert(1 <= session_id_key()(before.login_sessions[j]) < before.next_session_id);
    }
    assert forall|i: int| 0 <= i < after.login_sessions.len() implies #[trigger] after.has_user(
        after.login_sessions[i].user_login@) by {
        assert(1 <= session_id_key()(after.login_sessions[i]));
    }
    assert forall|i: int| 0 <= i < after.users_groups.len() implies #[trigger] after.has_user(
        after.users_groups[i].user_login@) by {
        assert(before.has_user(before.users_groups[i].user_login@));
    }
    lemma_wf_accounts(before, after);
}

impl LoginSession {
    /// The session whose token is `token`.
    pub fn retrieve(conn: &Database, token: &String) -> (r: Result<LoginSession, LoginSessionRetrieveError>)
        ensures
            r == match conn@.session(token@) {
                Some(s) => Ok(s),
                None => Err(LoginSessionRetrieveError::NotFound),
            },
    {
        match find_session(conn, token) {
            Some(i) => {
                let row = &conn.login_sessions[i];
                Ok(LoginSession { id: row.id, user_login: row.user_login.clone(), token: row.token.clone() })
            },
            None => Err(LoginSessionRetrieveError::NotFound),
        }
    }

    /// Opens a session of the user `user_login` that holds `token`, and returns the token.
    pub fn insert_with_token(conn: &mut Database, user_login: &String, token: String) -> (r: Result<String, LoginSessionInsertError>)
        requires
            old(conn)@.wf(),
        ensures
            final(conn)@.wf(),
            !old(conn)@.has_user(user_login@) ==> r == Err::<String, LoginSessionInsertError>(
                LoginSessionInsertError::UserNotFound,
            ) && final(conn)@ == old(conn)@,
            old(conn)@.has_user(user_login@) && old(conn)@.has_token(token@) ==> r == Err::<
                String,
                LoginSessionInsertError,
            >(LoginSessionInsertError::TokenConflict) && final(conn)@ == old(conn)@,
            old(conn)@.has_user(user_login@) && !old(conn)@.has_token(token@) && old(conn)@.next_session_id
                == MAX_ROW_ID ==> r == Err::<String, LoginSessionInsertError>(
                LoginSessionInsertError::IdsExhausted,
            ) && final(conn)@ == old(conn)@,
            old(conn)@.has_user(user_login@) && !old(conn)@.has_token(token@) && old(conn)@.next_session_id
                < MAX_ROW_ID ==> r == Ok::<String, LoginSessionInsertError>(token) && final(conn)@ == old(
                conn,
            )@.with_session(*user_login, token),
    {
        if find_user(conn, user_login).is_none() {
            return Err(LoginSessionInsertError::UserNotFound);
        }
        if find_session(conn, &token).is_some() {
            return Err(LoginSessionInsertError::TokenConflict);
        }
        if conn.next_session_id == MAX_ROW_ID {
            return Err(LoginSessionInsertError::IdsExhausted);
        }
        let ghost before = conn@;
        let row = LoginSession { id: conn.next_session_id, user_login: user_login.clone(), token: token.clone() };
        conn.login_sessions.push(row);
        conn.next_session_id = conn.next_session_id + 1;
        proof {
            let new_row = LoginSession { id: before.next_session_id as i32, user_login: *user_login, token };
            assert(conn@ =~= before.with_session(*user_login, token));
            assert forall|i: int| 0 <= i < before.login_sessions.len() implies #[trigger] session_id_key()(
                before.login_sessions[i]) != session_id_key()(new_row) by {
                assert(1 <= session_id_key()(before.login_sessions[i]) < before.next_session_id);
            }
            lemma_push_unique(before.login_sessions, session_id_key(), new_row);
            assert forall|i: int| 0 <= i < before.login_sessions.len() implies #[trigger] session_token_key()(
                before.login_sessions[i]) != session_token_key()(new_row) by {
                assert(!session_with_token(token@)(before.login_sessions[i]));
            }
            lemma_push_unique(before.login_sessions, session_token_key(), new_row);
            let after = conn@;
            assert forall|i: int| 0 <= i < after.login_sessions.len() implies after.has_user(
                after.login_sessions[i].user_login@) && 1 <= #[trigger] session_id_key()(after.login_sessions[i]) < after.next_session_id by {
                if i < before.login_sessions.len() {
                    assert(after.login_sessions[i] == before.login_sessions[i]);
                    assert(before.has_user(before.login_sessions[i].user_login@));
                    assert(1 <= session_id_key()(before.login_sessions[i]) < before.next_session_id);
                }
            }
            assert forall|i: int| 0 <= i < after.login_sessions.len() implies #[trigger] after.has_user(
                after.login_sessions[i].user_login@) by {
                assert(1 <= session_id_key()(after.login_sessions[i]));
            }
            assert forall|i: int| 0 <= i < after.users_groups.len() implies #[trigger] after.has_user(
                after.users_groups[i].user_login@) by {
                assert(before.has_user(before.users_groups[i].user_login@));
            }
            lemma_wf_accounts(before, after);
        }
        Ok(token)
    }

    /// Opens a session of the user `user_login`. Its token is derived from the login and
    /// the present second.
    pub fn insert(conn: &mut Database, user_login: String) -> (r: Result<String, LoginSessionInsertError>)
        requires
            old(conn)@.wf(),
        ensures
            final(conn)@.wf(),
            !old(conn)@.has_user(user_login@) ==> r == Err::<String, LoginSessionInsertError>(
                LoginSessionInsertError::UserNotFound,
            ),
            match r {
                Ok(token) => old(conn)@.has_user(user_login@) && !old(conn)@.has_token(token@)
                    && final(conn)@ == old(conn)@.with_session(user_login, token)
                    && exists|seconds: nat| token@ == keccak256_hex(#[trigger] key_material(user_login@, seconds)),
                Err(LoginSessionInsertError::UserNotFound) => !old(conn)@.has_user(user_login@)
                    && final(conn)@ == old(conn)@,
                Err(LoginSessionInsertError::TokenConflict) => old(conn)@.has_user(user_login@)
                    && old(conn)@.derived_token_taken(user_login@) && final(conn)@ == old(conn)@,
                Err(LoginSessionInsertError::IdsExhausted) => old(conn)@.has_user(user_login@)
                    && old(conn)@.next_session_id == MAX_ROW_ID && final(conn)@ == old(conn)@,
                Err(LoginSessionInsertError::CannotHash(_)) => old(conn)@.has_user(user_login@)
                    && final(conn)@ == old(conn)@,
            },
    {
        if find_user(conn, &user_login).is_none() {
            return Err(LoginSessionInsertError::UserNotFound);
        }
        match fresh_key(&user_login) {
            Ok(token) => {
                let ghost t = token@;
                let r = LoginSession::insert_with_token(conn, &user_login, token);
                proof {
                    let seconds = choose|seconds: nat| t == keccak256_hex(#[trigger] key_material(user_login@, seconds));
                    if r matches Err(LoginSessionInsertError::TokenConflict) {
                        assert(old(conn)@.has_token(keccak256_hex(key_material(user_login@, seconds))));
                    }
                }
                r
            },
            Err(err) => Err(LoginSessionInsertError::CannotHash(err)),
        }
    }

    /// Deletes the session whose identifier is `session_id`.
    pub fn delete(conn: &mut Database, session_id: i32) -> (r: Result<(), LoginSessionDeleteError>)
        requires
            old(conn)@.wf(),
        ensures
            final(conn)@.wf(),
            !old(conn)@.has_session_id(session_id as int) ==> r == Err::<(), LoginSessionDeleteError>(
                LoginSessionDeleteError::NotFound,
            ) && final(conn)@ == old(conn)@,
            old(conn)@.has_session_id(session_id as int) ==> r is Ok && final(conn)@ == old(
                conn,
            )@.without_session_id(session_id as int),
    {
        let ghost before = conn@;
        let other = |s: &LoginSession| -> (b: bool)
            ensures
                b == (s.id as int != session_id as int),
        {
            s.id != session_id
        };
        let removed = remove_where(&mut conn.login_sessions, other, Ghost(session_without_id(session_id as int)));
        proof {
            lemma_sessions_filtered(before, session_without_id(session_id as int));
            assert(conn@ =~= before.without_session_id(session_id as int));
            if before.has_session_id(session_id as int) {
                let i = choose|i: int| 0 <= i < before.login_sessions.len() && #[trigger] before.login_sessions[i].id as int == session_id as int;
                assert(!session_without_id(session_id as int)(before.login_sessions[i]));
            } else {
                assert forall|i: int| 0 <= i < before.login_sessions.len() implies #[trigger] session_without_id(session_id as int)(before.login_sessions[i]) by {
                    assert(before.login_sessions[i].id as int != session_id as int);
                }
                lemma_filter_all(before.login_sessions, session_without_id(session_id as int));
            }
        }
        if removed == 0 {
            Err(LoginSessionDeleteError::NotFound)
        } else {
            Ok(())
        }
    }

    /// Deletes the session whose token is `token`, which ends it.
    pub fn delete_by_token(conn: &mut Database, token: &String) -> (r: Result<(), LoginSessionDeleteError>)
        requires
            old(conn)@.wf(),
        ensures
            final(conn)@.wf(),
            !old(conn)@.has_token(token@) ==> r == Err::<(), LoginSessionDeleteError>(
                LoginSessionDeleteError::NotFound,
            ) && final(conn)@ == old(conn)@,
            old(conn)@.has_token(token@) ==> r is Ok && final(conn)@ == old(conn)@.without_session_token(token@),
    {
        let ghost before = conn@;
        let other = |s: &LoginSession| -> (b: bool)
            ensures
                b == (s.token@ != token@),
        {
            !(s.token == *token)
        };
        let removed = remove_where(&mut conn.login_sessions, other, Ghost(session_without_token(token@)));
        proof {
            lemma_sessions_filtered(before, session_without_token(token@));
            assert(conn@ =~= before.without_session_token(token@));
            if before.has_token(token@) {
                let i = choose|i: int| 0 <= i < before.login_sessions.len() && #[trigger] session_with_token(token@)(before.login_sessions[i]);
                assert(!session_without_token(token@)(before.login_sessions[i]));
            } else {
                assert forall|i: int| 0 <= i < before.login_sessions.len() implies #[trigger] session_without_token(token@)(before.login_sessions[i]) by {
                    assert(!session_with_token(token@)(before.login_sessions[i]));
                }
                lemma_filter_all(before.login_sessions, session_without_token(token@));
            }
        }
        if removed == 0 {
            Err(LoginSessionDeleteError::NotFound)
        } else {
            Ok(())
        }
    }

    /// The user who owns the session whose token is `token`.
    pub fn get_user(conn: &Database, token: &String) -> (r: Result<User, LoginSessionGetUserError>)
        ensures
            r == match conn@.session_user(token@) {
                Some(u) => Ok(u),
                None => Err(LoginSessionGetUserError::NotFound),
            },
    {
        let session = match LoginSession::retrieve(conn, token) {
            Ok(session) => session,
            Err(_) => return Err(LoginSessionGetUserError::NotFound),
        };
        match User::retrieve(conn, &session.user_login) {
            Ok(user) => Ok(user),
            Err(_) => Err(LoginSessionGetUserError::NotFound),
        }
    }

    /// Whether the owner of the session whose token is `token` holds the permission named
    /// `permission_name`; an unknown token holds none.
    pub fn has_permission(conn: &Database, token: &String, permission_name: &String) -> (r: bool)
        ensures
            r == conn@.session_has_permission(token@, permission_name@),
    {
        let session = match LoginSession::retrieve(conn, token) {
            Ok(session) => session,
            Err(_) => return false,
        };
        crate::user::user_has_permission(conn, &session.user_login, permission_name)
    }
}

} // verus!
