use vstd::prelude::*;

use crate::database::{login_event_id, first_match, lemma_filter_rows, lemma_filter_unique, lemma_push_unique, remove_where, Database, DatabaseView, MAX_ROW_ID};
use crate::event::EventCredentials;
use crate::keys::{fresh_key, key_material, keccak256_hex};
use crate::login_session::{LoginSession, LoginSessionInsertError};
use crate::user::{User, UserVerifyPasswordError};

verus! {

broadcast use vstd::seq_lib::group_filter_ensures;

/// A staged login of a user, waiting for its key: the password has been checked, and
/// committing opens the session.
#[derive(Clone, Debug, PartialEq, Eq)]
pub struct UserLoginEvent {
    pub(crate) id: i32,
    pub(crate) key: String,
    pub(crate) user_login: String,
}

#[derive(Clone, Copy, Debug, PartialEq, Eq)]
pub enum UserLoginEventRetrieveError {
    /// No staged login has the identifier.
    NotFound,
}

#[derive(Clone, Debug, PartialEq, Eq)]
pub enum UserLoginEventCommitError {
    /// The key does not match.
    Unauthorized,
    /// No staged login has the identifier.
    NotFound,
    /// The session could not be opened; the staged login is gone all the same.
    CannotCreateSession(LoginSessionInsertError),
}

#[derive(Clone, Debug, PartialEq, Eq)]
pub enum UserLoginEventInsertError {
    /// No user has the login.
    UserNotFound,
    /// The password does not match.
    Unauthorized,
    /// The key could not be derived; the text says why.
    CannotHash(String),
    /// Every event identifier has been used.
    IdsExhausted,
}

#[derive(Clone, Copy, Debug, PartialEq, Eq)]
pub enum UserLoginEventCancelError {
    /// The key does not match.
    Unauthorized,
    /// No staged login has the identifier.
    NotFound,
}

impl UserLoginEvent {
    pub open(crate) spec fn view_id(&self) -> int {
        self.id as int
    }

    pub open(crate) spec fn view_key(&self) -> Seq<char> {
        self.key@
    }

    pub open(crate) spec fn view_login(&self) -> Seq<char> {
        self.user_login@
    }

    /// The identifier of the staged login.
    pub fn id(&self) -> (r: i32)
        ensures
            r as int == self.view_id(),
    {
        self.id
    }

    pub open(crate) spec fn login_string(&self) -> String {
        self.user_login
    }

    /// The login of the user to log in.
    pub fn user_login(&self) -> (r: &String)
        ensures
            r@ == self.view_login(),
    {
        &self.user_login
    }
}

/// Selects the staged login whose identifier is `id`.
pub open spec fn login_event_with_id(id: int) -> spec_fn(UserLoginEvent) -> bool {
    |e: UserLoginEvent| e.view_id() == id
}

/// Selects every staged login but the one whose identifier is `id`.
pub open spec fn login_event_without_id(id: int) -> spec_fn(UserLoginEvent) -> bool {
    |e: UserLoginEvent| e.view_id() != id
}

impl DatabaseView {
    /// The staged login whose identifier is `id`, if there is one.
    pub open spec fn login_event(self, id: int) -> Option<UserLoginEvent> {
        match first_match(self.user_login_events, login_event_with_id(id)) {
            Some(i) => Some(self.user_login_events[i]),
            None => None,
        }
    }

    /// The store with the login of `user_login` staged under `key` and the next identifier.
    pub open(crate) spec fn with_login_event(self, key: String, user_login: String) -> DatabaseView {
        DatabaseView {
            user_login_events: self.user_login_events.push(
                UserLoginEvent { id: self.next_event_id as i32, key, user_login },
            ),
            next_event_id: self.next_event_id + 1,
            ..self
        }
    }

    /// The store without the staged login whose identifier is `id`.
    pub open spec fn without_login_event(self, id: int) -> DatabaseView {
        DatabaseView { user_login_events: self.user_login_events.filter(login_event_without_id(id)), ..self }
    }

    /// Committing the staged login `id` with `key` gets past the lookup and the key check.
    pub open spec fn login_commit_accepted(self, id: int, key: Seq<char>) -> bool {
        match self.login_event(id) {
            Some(e) => e.view_key() == key,
            None => false,
        }
    }

    /// What cancelling the staged login `id` with `key` returns.
    pub open spec fn login_cancel_result(self, id: int, key: Seq<char>) -> Result<(), UserLoginEventCancelError> {
        match self.login_event(id) {
            None => Err(UserLoginEventCancelError::NotFound),
            Some(e) => if e.view_key() != key {
                Err(UserLoginEventCancelError::Unauthorized)
            } else {
                Ok(())
            },
        }
    }
}

/// Finds the staged login whose identifier is `id`.
fn find_login_event(conn: &Database, id: i32) -> (r: Option<usize>)
    ensures
        r is Some ==> first_match(conn@.user_login_events, login_event_with_id(id as int)) == Some(r->0 as int),
        r is None ==> first_match(conn@.user_login_events, login_event_with_id(id as int)) is None,
{
    let with = |e: &UserLoginEvent| -> (b: bool)
        ensures
            b == (e.view_id() == id as int),
    {
        e.id == id
    };
    crate::database::find_first(&conn.user_login_events, with, Ghost(login_event_with_id(id as int)))
}

/// Removes the staged login `id`.
fn remove_login_event(conn: &mut Database, id: i32)
    requires
        old(conn)@.wf(),
    ensures
        final(conn)@.wf(),
        final(conn)@ == old(conn)@.without_login_event(id as int),
{
    let ghost before = conn@;
    let other = |e: &UserLoginEvent| -> (b: bool)
        ensures
            b == (e.view_id() != id as int),
    {
        e.id != id
    };
    remove_where(&mut conn.user_login_events, other, Ghost(login_event_without_id(id as int)));
    proof {
        let keep = login_event_without_id(id as int);
        let after = conn@;
        lemma_filter_unique(before.user_login_events, login_event_id(), keep);
        assert forall|i: int| 0 <= i < after.user_login_events.len() implies 1 <= #[trigger] login_event_id()(
            after.user_login_events[i]) < after.next_event_id by {
            lemma_filter_rows(before.user_login_events, keep, i);
        }
        assert forall|i: int, j: int| 0 <= i < after.user_register_events.len() && 0 <= j < after.user_login_events.len()
            implies #[trigger] crate::database::register_event_id()(after.user_register_events[i])
            != #[trigger] login_event_id()(after.user_login_events[j]) by {
            lemma_filter_rows(before.user_login_events, keep, j);
        }
        assert forall|i: int, j: int| 0 <= i < after.user_login_events.len() && 0 <= j < after.user_delete_events.len()
            implies #[trigger] login_event_id()(after.user_login_events[i])
            != #[trigger] crate::database::delete_event_id()(after.user_delete_events[j]) by {
            lemma_filter_rows(before.user_login_events, keep, i);
        }
        assert(after =~= before.without_login_event(id as int));
        crate::database::lemma_wf_events(before, after);
    }
}

impl UserLoginEvent {
    /// The staged login whose identifier is `id`.
    pub fn retrieve(conn: &Database, id: &i32) -> (r: Result<UserLoginEvent, UserLoginEventRetrieveError>)
        ensures
            r == match conn@.login_event(*id as int) {
                Some(e) => Ok(e),
                None => Err(UserLoginEventRetrieveError::NotFound),
            },
    {
        match find_login_event(conn, *id) {
            Some(i) => {
                let row = &conn.user_login_events[i];
                Ok(UserLoginEvent { id: row.id, key: row.key.clone(), user_login: row.user_login.clone() })
            },
            None => Err(UserLoginEventRetrieveError::NotFound),
        }
    }

    /// Checks the password of the user `user_login`, then stages its login under `key`, and
    /// returns its identifier and the key.
    pub fn insert_with_key(conn: &mut Database, user_login: &String, password: &String, key: String) -> (r: Result<EventCredentials, UserLoginEventInsertError>)
        requires
            old(conn)@.wf(),
        ensures
            final(conn)@.wf(),
            !old(conn)@.has_user(user_login@) ==> r == Err::<EventCredentials, UserLoginEventInsertError>(
                UserLoginEventInsertError::UserNotFound,
            ) && final(conn)@ == old(conn)@,
            old(conn)@.has_user(user_login@) && !old(conn)@.password_verifies(user_login@, password@) ==> r == Err::<
                EventCredentials,
                UserLoginEventInsertError,
            >(UserLoginEventInsertError::Unauthorized) && final(conn)@ == old(conn)@,
            old(conn)@.password_verifies(user_login@, password@) && old(conn)@.next_event_id == MAX_ROW_ID ==> r == Err::<
                EventCredentials,
                UserLoginEventInsertError,
            >(UserLoginEventInsertError::IdsExhausted) && final(conn)@ == old(conn)@,
            old(conn)@.password_verifies(user_login@, password@) && old(conn)@.next_event_id < MAX_ROW_ID ==> r == Ok::<
                EventCredentials,
                UserLoginEventInsertError,
            >(EventCredentials { id: old(conn)@.next_event_id as i32, key })
                && final(conn)@ == old(conn)@.with_login_event(key, *user_login),
    {
        match User::verify_password(conn, user_login, password) {
            Ok(()) => {},
            Err(UserVerifyPasswordError::NotFound) => return Err(UserLoginEventInsertError::UserNotFound),
            Err(UserVerifyPasswordError::Unauthorized) => return Err(UserLoginEventInsertError::Unauthorized),
        }
        if conn.next_event_id == MAX_ROW_ID {
            return Err(UserLoginEventInsertError::IdsExhausted);
        }
        let ghost before = conn@;
        let id = conn.next_event_id;
        let row = UserLoginEvent { id, key: key.clone(), user_login: user_login.clone() };
        conn.user_login_events.push(row);
        conn.next_event_id = id + 1;
        proof {
            let after = conn@;
            assert(after =~= before.with_login_event(key, *user_login));
            assert forall|i: int| 0 <= i < before.user_login_events.len() implies #[trigger] login_event_id()(
                before.user_login_events[i]) != login_event_id()(row) by {
                assert(1 <= login_event_id()(before.user_login_events[i]) < before.next_event_id);
            }
            lemma_push_unique(before.user_login_events, login_event_id(), row);
            crate::database::lemma_wf_events(before, after);
        }
        Ok(EventCredentials { id, key })
    }

    /// Checks the password of the user `user_login`, then stages its login under a key
    /// derived from the login and the present second, and returns its identifier and the key.
    pub fn insert(conn: &mut Database, user_login: &String, password: &String) -> (r: Result<EventCredentials, UserLoginEventInsertError>)
        requires
            old(conn)@.wf(),
        ensures
            final(conn)@.wf(),
            !old(conn)@.has_user(user_login@) ==> r == Err::<EventCredentials, UserLoginEventInsertError>(
                UserLoginEventInsertError::UserNotFound,
            ),
            old(conn)@.has_user(user_login@) && !old(conn)@.password_verifies(user_login@, password@) ==> r == Err::<
                EventCredentials,
                UserLoginEventInsertError,
            >(UserLoginEventInsertError::Unauthorized),
            match r {
                Ok(credentials) => old(conn)@.password_verifies(user_login@, password@) && credentials.id as int == old(conn)@.next_event_id
                    && final(conn)@ == old(conn)@.with_login_event(credentials.key, *user_login)
                    && exists|seconds: nat| credentials.key@ == keccak256_hex(#[trigger] key_material(user_login@, seconds)),
                Err(UserLoginEventInsertError::UserNotFound) => !old(conn)@.has_user(user_login@)
                    && final(conn)@ == old(conn)@,
                Err(UserLoginEventInsertError::Unauthorized) => old(conn)@.has_user(user_login@) && !old(
                    conn,
                )@.password_verifies(user_login@, password@) && final(conn)@ == old(conn)@,
                Err(UserLoginEventInsertError::IdsExhausted) => old(conn)@.password_verifies(user_login@, password@)
                    && old(conn)@.next_event_id == MAX_ROW_ID && final(conn)@ == old(conn)@,
                Err(UserLoginEventInsertError::CannotHash(_)) => old(conn)@.password_verifies(user_login@, password@)
                    && final(conn)@ == old(conn)@,
            },
    {
        match User::verify_password(conn, user_login, password) {
            Ok(()) => {},
            Err(UserVerifyPasswordError::NotFound) => return Err(UserLoginEventInsertError::UserNotFound),
            Err(UserVerifyPasswordError::Unauthorized) => return Err(UserLoginEventInsertError::Unauthorized),
        }
        match fresh_key(user_login) {
            Ok(key) => UserLoginEvent::insert_with_key(conn, user_login, password, key),
            Err(err) => Err(UserLoginEventInsertError::CannotHash(err)),
        }
    }

    /// Applies the staged login `id` if `key` matches: opens a session of its user and
    /// returns the session's token. The staged login is gone afterwards, whether the
    /// session could be opened or not.
    pub fn commit(conn: &mut Database, id: &i32, key: &String) -> (r: Result<String, UserLoginEventCommitError>)
        requires
            old(conn)@.wf(),
        ensures
            final(conn)@.wf(),
            old(conn)@.login_event(*id as int) is None ==> r == Err::<String, UserLoginEventCommitError>(
                UserLoginEventCommitError::NotFound,
            ) && final(conn)@ == old(conn)@,
            old(conn)@.login_event(*id as int) is Some && !old(conn)@.login_commit_accepted(*id as int, key@) ==> r
                == Err::<String, UserLoginEventCommitError>(UserLoginEventCommitError::Unauthorized) && final(conn)@
                == old(conn)@,
            old(conn)@.login_commit_accepted(*id as int, key@) ==> match r {
                Ok(token) => {
                    let login = old(conn)@.login_event(*id as int)->0.login_string();
                    &&& old(conn)@.has_user(login@)
                    &&& !old(conn)@.has_token(token@)
                    &&& final(conn)@ == old(conn)@.with_session(login, token).without_login_event(*id as int)
                },
                Err(UserLoginEventCommitError::CannotCreateSession(e)) => {
                    let login = old(conn)@.login_event(*id as int)->0.login_string();
                    &&& old(conn)@.session_refusal(login@, e)
                    &&& final(conn)@ == old(conn)@.without_login_event(*id as int)
                },
                Err(_) => false,
            },
    {
        let event = match UserLoginEvent::retrieve(conn, id) {
            Ok(event) => event,
            Err(_) => return Err(UserLoginEventCommitError::NotFound),
        };
        if !(event.key == *key) {
            return Err(UserLoginEventCommitError::Unauthorized);
        }
        let result = LoginSession::insert(conn, event.user_login);
        remove_login_event(conn, *id);
        match result {
            Ok(token) => Ok(token),
            Err(err) => Err(UserLoginEventCommitError::CannotCreateSession(err)),
        }
    }

    /// Discards the staged login `id` if `key` matches, with no other effect.
    pub fn cancel(conn: &mut Database, id: &i32, key: &String) -> (r: Result<(), UserLoginEventCancelError>)
        requires
            old(conn)@.wf(),
        ensures
            final(conn)@.wf(),
            r == old(conn)@.login_cancel_result(*id as int, key@),
            r is Ok ==> final(conn)@ == old(conn)@.without_login_event(*id as int),
            r is Err ==> final(conn)@ == old(conn)@,
    {
        let event = match UserLoginEvent::retrieve(conn, id) {
            Ok(event) => event,
            Err(_) => return Err(UserLoginEventCancelError::NotFound),
        };
        if !(event.key == *key) {
            return Err(UserLoginEventCancelError::Unauthorized);
        }
        remove_login_event(conn, *id);
        Ok(())
    }
}

} // verus!
