use vstd::prelude::*;

use crate::database::{register_event_id, first_match, lemma_filter_rows, lemma_filter_unique, lemma_push_unique, remove_where, Database, DatabaseView, MAX_ROW_ID};
use crate::event::EventCredentials;
use crate::keys::{argon2_accepts, fresh_key, hash_password, key_material, keccak256_hex};
use crate::user::{find_user, User};

verus! {

broadcast use vstd::seq_lib::group_filter_ensures;

/// A staged registration of a user, waiting for its key. The password is hashed when
/// the registration is staged, so that it is never kept in clear.
#[derive(Clone, Debug, PartialEq, Eq)]
pub struct UserRegisterEvent {
    pub(crate) id: i32,
    pub(crate) key: String,
    pub(crate) user_login: String,
    pub(crate) password_hash: String,
    pub(crate) details: String,
}

#[derive(Clone, Copy, Debug, PartialEq, Eq)]
pub enum UserRegisterEventRetrieveError {
    /// No staged registration has the identifier.
    NotFound,
}

#[derive(Clone, Copy, Debug, PartialEq, Eq)]
pub enum UserRegisterEventCommitError {
    /// The key does not match.
    Unauthorized,
    /// No staged registration has the identifier.
    NotFound,
    /// The login was taken since the registration was staged, or is too long; the staged
    /// registration is gone all the same.
    NameError,
}

#[derive(Clone, Debug, PartialEq, Eq)]
pub enum UserRegisterEventInsertError {
    /// A user with the login exists.
    AlreadyExists,
    /// The key could not be derived or the password could not be hashed; the text says why.
    CannotHash(String),
    /// Every event identifier has been used.
    IdsExhausted,
}

#[derive(Clone, Copy, Debug, PartialEq, Eq)]
pub enum UserRegisterEventCancelError {
    /// The key does not match.
    Unauthorized,
    /// No staged registration has the identifier.
    NotFound,
}

impl UserRegisterEvent {
    pub open(crate) spec fn view_id(&self) -> int {
        self.id as int
    }

    pub open(crate) spec fn view_key(&self) -> Seq<char> {
        self.key@
    }

    pub open(crate) spec fn view_login(&self) -> Seq<char> {
        self.user_login@
    }

    /// The identifier of the staged registration.
    pub fn id(&self) -> (r: i32)
        ensures
            r as int == self.view_id(),
    {
        self.id
    }

    pub open(crate) spec fn user_row(&self) -> User {
        User { login: self.user_login, password_hash: self.password_hash, details: self.details }
    }

    /// The login of the user to register.
    pub fn user_login(&self) -> (r: &String)
        ensures
            r@ == self.view_login(),
    {
        &self.user_login
    }
}

/// Selects the staged registration whose identifier is `id`.
pub open spec fn register_event_with_id(id: int) -> spec_fn(UserRegisterEvent) -> bool {
    |e: UserRegisterEvent| e.view_id() == id
}

/// Selects every staged registration but the one whose identifier is `id`.
pub open spec fn register_event_without_id(id: int) -> spec_fn(UserRegisterEvent) -> bool {
    |e: UserRegisterEvent| e.view_id() != id
}

impl DatabaseView {
    /// The staged registration whose identifier is `id`, if there is one.
    pub open spec fn register_event(self, id: int) -> Option<UserRegisterEvent> {
        match first_match(self.user_register_events, register_event_with_id(id)) {
            Some(i) => Some(self.user_register_events[i]),
            None => None,
        }
    }

    /// The store with the registration of `u` staged under `key` and the next identifier.
    pub open(crate) spec fn with_register_event(self, key: String, u: User) -> DatabaseView {
        DatabaseView {
            user_register_events: self.user_register_events.push(
                UserRegisterEvent {
                    id: self.next_event_id as i32,
                    key,
                    user_login: u.login,
                    password_hash: u.password_hash,
                    details: u.details,
                },
            ),
            next_event_id: self.next_event_id + 1,
            ..self
        }
    }

    /// The store without the staged registration whose identifier is `id`.
    pub open spec fn without_register_event(self, id: int) -> DatabaseView {
        DatabaseView { user_register_events: self.user_register_events.filter(register_event_without_id(id)), ..self }
    }

    /// What committing the staged registration `id` with `key` returns.
    pub open spec fn register_commit_result(self, id: int, key: Seq<char>) -> Result<(), UserRegisterEventCommitError> {
        match self.register_event(id) {
            None => Err(UserRegisterEventCommitError::NotFound),
            Some(e) => if e.view_key() != key {
                Err(UserRegisterEventCommitError::Unauthorized)
            } else if self.user_insert_refused(e.view_login()) {
                Err(UserRegisterEventCommitError::NameError)
            } else {
                Ok(())
            },
        }
    }

    /// The store after committing the staged registration `id` with `key`: on a matching
    /// key the user is added, if its login is still free, and the staged registration is
    /// gone either way.
    pub open spec fn register_commit_state(self, id: int, key: Seq<char>) -> DatabaseView {
        match self.register_event(id) {
            Some(e) => if e.view_key() != key {
                self
            } else if self.user_insert_refused(e.view_login()) {
                self.without_register_event(id)
            } else {
                self.with_user(e.user_row()).without_register_event(id)
            },
            None => self,
        }
    }

    /// What cancelling the staged registration `id` with `key` returns.
    pub open spec fn register_cancel_result(self, id: int, key: Seq<char>) -> Result<(), UserRegisterEventCancelError> {
        match self.register_event(id) {
            None => Err(UserRegisterEventCancelError::NotFound),
            Some(e) => if e.view_key() != key {
                Err(UserRegisterEventCancelError::Unauthorized)
            } else {
                Ok(())
            },
        }
    }
}

/// Finds the staged registration whose identifier is `id`.
fn find_register_event(conn: &Database, id: i32) -> (r: Option<usize>)
    ensures
        r is Some ==> first_match(conn@.user_register_events, register_event_with_id(id as int)) == Some(r->0 as int),
        r is None ==> first_match(conn@.user_register_events, register_event_with_id(id as int)) is None,
{
    let with = |e: &UserRegisterEvent| -> (b: bool)
        ensures
            b == (e.view_id() == id as int),
    {
        e.id == id
    };
    crate::database::find_first(&conn.user_register_events, with, Ghost(register_event_with_id(id as int)))
}

/// Removes the staged registration `id`.
fn remove_register_event(conn: &mut Database, id: i32)
    requires
        old(conn)@.wf(),
    ensures
        final(conn)@.wf(),
        final(conn)@ == old(conn)@.without_register_event(id as int),
{
    let ghost before = conn@;
    let other = |e: &UserRegisterEvent| -> (b: bool)
        ensures
            b == (e.view_id() != id as int),
    {
        e.id != id
    };
    remove_where(&mut conn.user_register_events, other, Ghost(register_event_without_id(id as int)));
    proof {
        let keep = register_event_without_id(id as int);
        let after = conn@;
        lemma_filter_unique(before.user_register_events, register_event_id(), keep);
        assert forall|i: int| 0 <= i < after.user_register_events.len() implies 1 <= #[trigger] register_event_id()(
            after.user_register_events[i]) < after.next_event_id by {
            lemma_filter_rows(before.user_register_events, keep, i);
        }
        assert forall|i: int, j: int| 0 <= i < after.user_register_events.len() && 0 <= j < after.user_login_events.len()
            implies #[trigger] register_event_id()(after.user_register_events[i])
            != #[trigger] crate::database::login_event_id()(after.user_login_events[j]) by {
            lemma_filter_rows(before.user_register_events, keep, i);
        }
        assert forall|i: int, j: int| 0 <= i < after.user_register_events.len() && 0 <= j < after.user_delete_events.len()
            implies #[trigger] register_event_id()(after.user_register_events[i])
            != #[trigger] crate::database::delete_event_id()(after.user_delete_events[j]) by {
            lemma_filter_rows(before.user_register_events, keep, i);
        }
        assert(after =~= before.without_register_event(id as int));
        crate::database::lemma_wf_events(before, after);
    }
}

impl UserRegisterEvent {
    /// The staged registration whose identifier is `id`.
    pub fn retrieve(conn: &Database, id: &i32) -> (r: Result<UserRegisterEvent, UserRegisterEventRetrieveError>)
        ensures
            r == match conn@.register_event(*id as int) {
                Some(e) => Ok(e),
                None => Err(UserRegisterEventRetrieveError::NotFound),
            },
    {
        match find_register_event(conn, *id) {
            Some(i) => {
                let row = &conn.user_register_events[i];
                Ok(UserRegisterEvent {
                    id: row.id,
                    key: row.key.clone(),
                    user_login: row.user_login.clone(),
                    password_hash: row.password_hash.clone(),
                    details: row.details.clone(),
                })
            },
            None => Err(UserRegisterEventRetrieveError::NotFound),
        }
    }

    /// Stages the registration of the user `user_login`, whose password is already hashed,
    /// under `key`, and returns its identifier and the key.
    pub fn insert_with(conn: &mut Database, user_login: &String, password_hash: String, details: &String, key: String) -> (r: Result<EventCredentials, UserRegisterEventInsertError>)
        requires
            old(conn)@.wf(),
        ensures
            final(conn)@.wf(),
            old(conn)@.has_user(user_login@) ==> r == Err::<EventCredentials, UserRegisterEventInsertError>(
                UserRegisterEventInsertError::AlreadyExists,
            ) && final(conn)@ == old(conn)@,
            !old(conn)@.has_user(user_login@) && old(conn)@.next_event_id == MAX_ROW_ID ==> r == Err::<
                EventCredentials,
                UserRegisterEventInsertError,
            >(UserRegisterEventInsertError::IdsExhausted) && final(conn)@ == old(conn)@,
            !old(conn)@.has_user(user_login@) && old(conn)@.next_event_id < MAX_ROW_ID ==> r == Ok::<
                EventCredentials,
                UserRegisterEventInsertError,
            >(EventCredentials { id: old(conn)@.next_event_id as i32, key })
                && final(conn)@ == old(conn)@.with_register_event(
                key,
                User { login: *user_login, password_hash, details: *details },
            ),
    {
        if find_user(conn, user_login).is_some() {
            return Err(UserRegisterEventInsertError::AlreadyExists);
        }
        if conn.next_event_id == MAX_ROW_ID {
            return Err(UserRegisterEventInsertError::IdsExhausted);
        }
        let ghost before = conn@;
        let ghost hash_view = password_hash;
        let id = conn.next_event_id;
        let row = UserRegisterEvent {
            id,
            key: key.clone(),
            user_login: user_login.clone(),
            password_hash,
            details: details.clone(),
        };
        let ghost row_view = row;
        conn.user_register_events.push(row);
        conn.next_event_id = id + 1;
        proof {
            let after = conn@;
            assert(after =~= before.with_register_event(key, User { login: *user_login, password_hash: hash_view, details: *details }));
            assert forall|i: int| 0 <= i < before.user_register_events.len() implies #[trigger] register_event_id()(
                before.user_register_events[i]) != register_event_id()(row_view) by {
                assert(1 <= register_event_id()(before.user_register_events[i]) < before.next_event_id);
            }
            lemma_push_unique(before.user_register_events, register_event_id(), row_view);
            crate::database::lemma_wf_events(before, after);
        }
        Ok(EventCredentials { id, key })
    }

    /// Stages the registration of the user `user_login`: hashes the password with a fresh
    /// salt and derives a key from the login and the present second; returns the identifier
    /// and the key.
    pub fn insert(conn: &mut Database, user_login: &String, password: &String, details: &String) -> (r: Result<EventCredentials, UserRegisterEventInsertError>)
        requires
            old(conn)@.wf(),
        ensures
            final(conn)@.wf(),
            old(conn)@.has_user(user_login@) ==> r == Err::<EventCredentials, UserRegisterEventInsertError>(
                UserRegisterEventInsertError::AlreadyExists,
            ),
            match r {
                Ok(credentials) => !old(conn)@.has_user(user_login@) && credentials.id as int == old(conn)@.next_event_id
                    && (exists|hash: String| argon2_accepts(password@, hash@)
                        && final(conn)@ == #[trigger] old(conn)@.with_register_event(
                        credentials.key,
                        User { login: *user_login, password_hash: hash, details: *details },
                    ))
                    && exists|seconds: nat| credentials.key@ == keccak256_hex(#[trigger] key_material(user_login@, seconds)),
                Err(UserRegisterEventInsertError::AlreadyExists) => old(conn)@.has_user(user_login@)
                    && final(conn)@ == old(conn)@,
                Err(UserRegisterEventInsertError::IdsExhausted) => !old(conn)@.has_user(user_login@)
                    && old(conn)@.next_event_id == MAX_ROW_ID && final(conn)@ == old(conn)@,
                Err(UserRegisterEventInsertError::CannotHash(_)) => !old(conn)@.has_user(user_login@)
                    && final(conn)@ == old(conn)@,
            },
    {
        if find_user(conn, user_login).is_some() {
            return Err(UserRegisterEventInsertError::AlreadyExists);
        }
        let key = match fresh_key(user_login) {
            Ok(key) => key,
            Err(err) => return Err(UserRegisterEventInsertError::CannotHash(err)),
        };
        let password_hash = match hash_password(password) {
            Ok(hash) => hash,
            Err(err) => return Err(UserRegisterEventInsertError::CannotHash(err)),
        };
        UserRegisterEvent::insert_with(conn, user_login, password_hash, details, key)
    }

    /// Applies the staged registration `id` if `key` matches: adds its user with the stored
    /// hash, then removes the staged registration, which goes even when the login is taken.
    pub fn commit(conn: &mut Database, id: &i32, key: &String) -> (r: Result<(), UserRegisterEventCommitError>)
        requires
            old(conn)@.wf(),
        ensures
            final(conn)@.wf(),
            r == old(conn)@.register_commit_result(*id as int, key@),
            final(conn)@ == old(conn)@.register_commit_state(*id as int, key@),
    {
        let event = match UserRegisterEvent::retrieve(conn, id) {
            Ok(event) => event,
            Err(_) => return Err(UserRegisterEventCommitError::NotFound),
        };
        if !(event.key == *key) {
            return Err(UserRegisterEventCommitError::Unauthorized);
        }
        let result = User::insert_unhashed(conn, &event.user_login, &event.password_hash, &event.details);
        remove_register_event(conn, *id);
        match result {
            Ok(()) => Ok(()),
            Err(_) => Err(UserRegisterEventCommitError::NameError),
        }
    }

    /// Discards the staged registration `id` if `key` matches, with no other effect.
    pub fn cancel(conn: &mut Database, id: &i32, key: &String) -> (r: Result<(), UserRegisterEventCancelError>)
        requires
            old(conn)@.wf(),
        ensures
            final(conn)@.wf(),
            r == old(conn)@.register_cancel_result(*id as int, key@),
            r is Ok ==> final(conn)@ == old(conn)@.without_register_event(*id as int),
            r is Err ==> final(conn)@ == old(conn)@,
    {
        let event = match UserRegisterEvent::retrieve(conn, id) {
            Ok(event) => event,
            Err(_) => return Err(UserRegisterEventCancelError::NotFound),
        };
        if !(event.key == *key) {
            return Err(UserRegisterEventCancelError::Unauthorized);
        }
        remove_register_event(conn, *id);
        Ok(())
    }
}

} // verus!
