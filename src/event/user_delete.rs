use vstd::prelude::*;

use crate::database::{delete_event_id, first_match, lemma_filter_rows, lemma_filter_unique, lemma_push_unique, remove_where, Database, DatabaseView, MAX_ROW_ID};
use crate::event::EventCredentials;
use crate::keys::{fresh_key, key_material, keccak256_hex};
use crate::user::{find_user, User, UserDeleteError};

verus! {

broadcast use vstd::seq_lib::group_filter_ensures;

/// A staged deletion of a user, waiting for its key.
#[derive(Clone, Debug, PartialEq, Eq)]
pub struct UserDeleteEvent {
    pub(crate) id: i32,
    pub(crate) key: String,
    pub(crate) user_login: String,
}

#[derive(Clone, Copy, Debug, PartialEq, Eq)]
pub enum UserDeleteEventRetrieveError {
    /// No staged deletion has the identifier.
    NotFound,
}

#[derive(Clone, Copy, Debug, PartialEq, Eq)]
pub enum UserDeleteEventCommitError {
    /// The key does not match.
    Unauthorized,
    /// No staged deletion has the identifier, or its user no longer exists.
    NotFound,
}

#[derive(Clone, Debug, PartialEq, Eq)]
pub enum UserDeleteEventInsertError {
    /// No user has the login.
    UserNotFound,
    /// The key could not be derived; the text says why.
    CannotHash(String),
    /// Every event identifier has been used.
    IdsExhausted,
}

#[derive(Clone, Copy, Debug, PartialEq, Eq)]
pub enum UserDeleteEventCancelError {
    /// The key does not match.
    Unauthorized,
    /// No staged deletion has the identifier.
    NotFound,
}

impl UserDeleteEvent {
    pub open(crate) spec fn view_id(&self) -> int {
        self.id as int
    }

    pub open(crate) spec fn view_key(&self) -> Seq<char> {
        self.key@
    }

    pub open(crate) spec fn view_login(&self) -> Seq<char> {
        self.user_login@
    }

    /// The identifier of the staged deletion.
    pub fn id(&self) -> (r: i32)
        ensures
            r as int == self.view_id(),
    {
        self.id
    }

    /// The login of the user to delete.
    pub fn user_login(&self) -> (r: &String)
        ensures
            r@ == self.view_login(),
    {
        &self.user_login
    }
}

/// Selects the staged deletion whose identifier is `id`.
pub open spec fn delete_event_with_id(id: int) -> spec_fn(UserDeleteEvent) -> bool {
    |e: UserDeleteEvent| e.view_id() == id
}

/// Selects every staged deletion but the one whose identifier is `id`.
pub open spec fn delete_event_without_id(id: int) -> spec_fn(UserDeleteEvent) -> bool {
    |e: UserDeleteEvent| e.view_id() != id
}

impl DatabaseView {
    /// The staged deletion whose identifier is `id`, if there is one.
    pub open spec fn delete_event(self, id: int) -> Option<UserDeleteEvent> {
        match first_match(self.user_delete_events, delete_event_with_id(id)) {
            Some(i) => Some(self.user_delete_events[i]),
            None => None,
        }
    }

    /// The store with the deletion of `user_login` staged under `key` and the next identifier.
    pub open(crate) spec fn with_delete_event(self, key: String, user_login: String) -> DatabaseView {
        DatabaseView {
            user_delete_events: self.user_delete_events.push(
                UserDeleteEvent { id: self.next_event_id as i32, key, user_login },
            ),
            next_event_id: self.next_event_id + 1,
            ..self
        }
    }

    /// The store without the staged deletion whose identifier is `id`.
    pub open spec fn without_delete_event(self, id: int) -> DatabaseView {
        DatabaseView { user_delete_events: self.user_delete_events.filter(delete_event_without_id(id)), ..self }
    }

    /// What committing the staged deletion `id` with `key` returns.
    pub open spec fn delete_commit_result(self, id: int, key: Seq<char>) -> Result<(), UserDeleteEventCommitError> {
        match self.delete_event(id) {
            None => Err(UserDeleteEventCommitError::NotFound),
            Some(e) => if e.view_key() != key {
                Err(UserDeleteEventCommitError::Unauthorized)
            } else if self.has_user(e.view_login()) {
                Ok(())
            } else {
                Err(UserDeleteEventCommitError::NotFound)
            },
        }
    }

    /// The store after committing the staged deletion `id` with `key`: on a matching key the
    /// user is deleted, if it still exists, and the staged deletion is gone either way.
    pub open spec fn delete_commit_state(self, id: int, key: Seq<char>) -> DatabaseView {
        match self.delete_event(id) {
            Some(e) => if e.view_key() != key {
                self
            } else if self.has_user(e.view_login()) {
                self.without_user(e.view_login()).without_delete_event(id)
            } else {
                self.without_delete_event(id)
            },
            None => self,
        }
    }

    /// What cancelling the staged deletion `id` with `key` returns.
    pub open spec fn delete_cancel_result(self, id: int, key: Seq<char>) -> Result<(), UserDeleteEventCancelError> {
        match self.delete_event(id) {
            None => Err(UserDeleteEventCancelError::NotFound),
            Some(e) => if e.view_key() != key {
                Err(UserDeleteEventCancelError::Unauthorized)
            } else {
                Ok(())
            },
        }
    }
}

/// Finds the staged deletion whose identifier is `id`.
fn find_delete_event(conn: &Database, id: i32) -> (r: Option<usize>)
    ensures
        r is Some ==> first_match(conn@.user_delete_events, delete_event_with_id(id as int)) == Some(r->0 as int),
        r is None ==> first_match(conn@.user_delete_events, delete_event_with_id(id as int)) is None,
{
    let with = |e: &UserDeleteEvent| -> (b: bool)
        ensures
            b == (e.view_id() == id as int),
    {
        e.id == id
    };
    crate::database::find_first(&conn.user_delete_events, with, Ghost(delete_event_with_id(id as int)))
}

/// Removes the staged deletion `id`.
fn remove_delete_event(conn: &mut Database, id: i32)
    requires
        old(conn)@.wf(),
    ensures
        final(conn)@.wf(),
        final(conn)@ == old(conn)@.without_delete_event(id as int),
{
    let ghost before = conn@;
    let other = |e: &UserDeleteEvent| -> (b: bool)
        ensures
            b == (e.view_id() != id as int),
    {
        e.id != id
    };
    remove_where(&mut conn.user_delete_events, other, Ghost(delete_event_without_id(id as int)));
    proof {
        let keep = delete_event_without_id(id as int);
        let after = conn@;
        lemma_filter_unique(before.user_delete_events, delete_event_id(), keep);
        assert forall|i: int| 0 <= i < after.user_delete_events.len() implies 1 <= #[trigger] delete_event_id()(
            after.user_delete_events[i]) < after.next_event_id by {
            lemma_filter_rows(before.user_delete_events, keep, i);
        }
        assert forall|i: int, j: int| 0 <= i < after.user_register_events.len() && 0 <= j < after.user_delete_events.len()
            implies #[trigger] crate::database::register_event_id()(after.user_register_events[i])
            != #[trigger] delete_event_id()(after.user_delete_events[j]) by {
            lemma_filter_rows(before.user_delete_events, keep, j);
        }
        assert forall|i: int, j: int| 0 <= i < after.user_login_events.len() && 0 <= j < after.user_delete_events.len()
            implies #[trigger] crate::database::login_event_id()(after.user_login_events[i])
            != #[trigger] delete_event_id()(after.user_delete_events[j]) by {
            lemma_filter_rows(before.user_delete_events, keep, j);
        }
        assert(after =~= before.without_delete_event(id as int));
        crate::database::lemma_wf_events(before, after);
    }
}

impl UserDeleteEvent {
    /// The staged deletion whose identifier is `id`.
    pub fn retrieve(conn: &Database, id: &i32) -> (r: Result<UserDeleteEvent, UserDeleteEventRetrieveError>)
        ensures
            r == match conn@.delete_event(*id as int) {
                Some(e) => Ok(e),
                None => Err(UserDeleteEventRetrieveError::NotFound),
            },
    {
        match find_delete_event(conn, *id) {
            Some(i) => {
                let row = &conn.user_delete_events[i];
                Ok(UserDeleteEvent { id: row.id, key: row.key.clone(), user_login: row.user_login.clone() })
            },
            None => Err(UserDeleteEventRetrieveError::NotFound),
        }
    }

    /// Stages the deletion of the user `user_login` under `key`, and returns its identifier
    /// and the key.
    pub fn insert_with_key(conn: &mut Database, user_login: &String, key: String) -> (r: Result<EventCredentials, UserDeleteEventInsertError>)
        requires
            old(conn)@.wf(),
        ensures
            final(conn)@.wf(),
            !old(conn)@.has_user(user_login@) ==> r == Err::<EventCredentials, UserDeleteEventInsertError>(
                UserDeleteEventInsertError::UserNotFound,
            ) && final(conn)@ == old(conn)@,
            old(conn)@.has_user(user_login@) && old(conn)@.next_event_id == MAX_ROW_ID ==> r == Err::<
                EventCredentials,
                UserDeleteEventInsertError,
            >(UserDeleteEventInsertError::IdsExhausted) && final(conn)@ == old(conn)@,
            old(conn)@.has_user(user_login@) && old(conn)@.next_event_id < MAX_ROW_ID ==> r == Ok::<
                EventCredentials,
                UserDeleteEventInsertError,
            >(EventCredentials { id: old(conn)@.next_event_id as i32, key })
                && final(conn)@ == old(conn)@.with_delete_event(key, *user_login),
    {
        if find_user(conn, user_login).is_none() {
            return Err(UserDeleteEventInsertError::UserNotFound);
        }
        if conn.next_event_id == MAX_ROW_ID {
            return Err(UserDeleteEventInsertError::IdsExhausted);
        }
        let ghost before = conn@;
        let id = conn.next_event_id;
        let row = UserDeleteEvent { id, key: key.clone(), user_login: user_login.clone() };
        conn.user_delete_events.push(row);
        conn.next_event_id = id + 1;
        proof {
            let after = conn@;
            assert(after =~= before.with_delete_event(key, *user_login));
            assert forall|i: int| 0 <= i < before.user_delete_events.len() implies #[trigger] delete_event_id()(
                before.user_delete_events[i]) != delete_event_id()(row) by {
                assert(1 <= delete_event_id()(before.user_delete_events[i]) < before.next_event_id);
            }
            lemma_push_unique(before.user_delete_events, delete_event_id(), row);
            crate::database::lemma_wf_events(before, after);
        }
        Ok(EventCredentials { id, key })
    }

    /// Stages the deletion of the user `user_login` under a key derived from the login and
    /// the present second, and returns its identifier and the key.
    pub fn insert(conn: &mut Database, user_login: &String) -> (r: Result<EventCredentials, UserDeleteEventInsertError>)
        requires
            old(conn)@.wf(),
        ensures
            final(conn)@.wf(),
            !old(conn)@.has_user(user_login@) ==> r == Err::<EventCredentials, UserDeleteEventInsertError>(
                UserDeleteEventInsertError::UserNotFound,
            ),
            match r {
                Ok(credentials) => old(conn)@.has_user(user_login@) && credentials.id as int == old(conn)@.next_event_id
                    && final(conn)@ == old(conn)@.with_delete_event(credentials.key, *user_login)
                    && exists|seconds: nat| credentials.key@ == keccak256_hex(#[trigger] key_material(user_login@, seconds)),
                Err(UserDeleteEventInsertError::UserNotFound) => !old(conn)@.has_user(user_login@)
                    && final(conn)@ == old(conn)@,
                Err(UserDeleteEventInsertError::IdsExhausted) => old(conn)@.has_user(user_login@)
                    && old(conn)@.next_event_id == MAX_ROW_ID && final(conn)@ == old(conn)@,
                Err(UserDeleteEventInsertError::CannotHash(_)) => old(conn)@.has_user(user_login@)
                    && final(conn)@ == old(conn)@,
            },
    {
        if find_user(conn, user_login).is_none() {
            return Err(UserDeleteEventInsertError::UserNotFound);
        }
        match fresh_key(user_login) {
            Ok(key) => UserDeleteEvent::insert_with_key(conn, user_login, key),
            Err(err) => Err(UserDeleteEventInsertError::CannotHash(err)),
        }
    }

    /// Applies the staged deletion `id` if `key` matches: deletes its user, then the staged
    /// deletion itself, which goes even when the user no longer exists.
    pub fn commit(conn: &mut Database, id: &i32, key: &String) -> (r: Result<(), UserDeleteEventCommitError>)
        requires
            old(conn)@.wf(),
        ensures
            final(conn)@.wf(),
            r == old(conn)@.delete_commit_result(*id as int, key@),
            final(conn)@ == old(conn)@.delete_commit_state(*id as int, key@),
    {
        let event = match UserDeleteEvent::retrieve(conn, id) {
            Ok(event) => event,
            Err(_) => return Err(UserDeleteEventCommitError::NotFound),
        };
        if !(event.key == *key) {
            return Err(UserDeleteEventCommitError::Unauthorized);
        }
        let result = User::delete(conn, event.user_login);
        remove_delete_event(conn, *id);
        match result {
            Ok(()) => Ok(()),
            Err(UserDeleteError::NotFound) => Err(UserDeleteEventCommitError::NotFound),
        }
    }

    /// Discards the staged deletion `id` if `key` matches, with no other effect.
    pub fn cancel(conn: &mut Database, id: &i32, key: &String) -> (r: Result<(), UserDeleteEventCancelError>)
        requires
            old(conn)@.wf(),
        ensures
            final(conn)@.wf(),
            r == old(conn)@.delete_cancel_result(*id as int, key@),
            r is Ok ==> final(conn)@ == old(conn)@.without_delete_event(*id as int),
            r is Err ==> final(conn)@ == old(conn)@,
    {
        let event = match UserDeleteEvent::retrieve(conn, id) {
            Ok(event) => event,
            Err(_) => return Err(UserDeleteEventCancelError::NotFound),
        };
        if !(event.key == *key) {
            return Err(UserDeleteEventCancelError::Unauthorized);
        }
        remove_delete_event(conn, *id);
        Ok(())
    }
}

} // verus!
