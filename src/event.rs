use vstd::prelude::*;

pub mod user_delete;
pub mod user_login;
pub mod user_register;

use crate::database::{Database, DatabaseView, MAX_ROW_ID};
use crate::login_session::LoginSessionInsertError;
use crate::event::user_delete::{UserDeleteEvent, UserDeleteEventCommitError};
use crate::event::user_login::{UserLoginEvent, UserLoginEventCommitError};
use crate::event::user_register::{UserRegisterEvent, UserRegisterEventCommitError};

verus! {

/// What `insert` of a staged event hands to its creator, once: the identifier of the
/// event and the key that commits or cancels it.
#[derive(Clone, Debug, PartialEq, Eq)]
pub struct EventCredentials {
    pub id: i32,
    pub key: String,
}

/// The three kinds of staged event.
#[derive(Clone, Copy, Debug, PartialEq, Eq)]
pub enum EventType {
    UserRegister,
    UserLogin,
    UserDelete,
}

/// A staged event of any kind.
#[derive(Clone, Debug, PartialEq, Eq)]
pub enum Event {
    UserRegister(UserRegisterEvent),
    UserLogin(UserLoginEvent),
    UserDelete(UserDeleteEvent),
}

#[derive(Clone, Copy, Debug, PartialEq, Eq)]
pub enum EventRetrieveError {
    /// No staged event has the identifier.
    NotFound,
}

#[derive(Clone, Debug, PartialEq, Eq)]
pub enum EventCommitError {
    /// No staged event has the identifier.
    NotFound,
    /// The key does not match.
    Unauthorized,
    /// The key matched but the event's effect could not be applied; the event is gone.
    CannotCommit,
    /// The key matched but no session token could be derived, the text says why; the
    /// event is gone.
    CannotHash(String),
}

#[derive(Clone, Copy, Debug, PartialEq, Eq)]
pub enum EventDeleteError {
    /// No staged event has the identifier, or the key does not match.
    CannotInteract,
}

impl EventType {
    /// The name of the kind.
    pub fn name(&self) -> (r: &'static str)
        ensures
            r@ == self.spec_name(),
    {
        match self {
            EventType::UserRegister => {
                proof { reveal_strlit("UserRegister"); }
                "UserRegister"
            },
            EventType::UserLogin => {
                proof { reveal_strlit("UserLogin"); }
                "UserLogin"
            },
            EventType::UserDelete => {
                proof { reveal_strlit("UserDelete"); }
                "UserDelete"
            },
        }
    }

    pub open spec fn spec_name(&self) -> Seq<char> {
        match self {
            EventType::UserRegister => seq!['U', 's', 'e', 'r', 'R', 'e', 'g', 'i', 's', 't', 'e', 'r'],
            EventType::UserLogin => seq!['U', 's', 'e', 'r', 'L', 'o', 'g', 'i', 'n'],
            EventType::UserDelete => seq!['U', 's', 'e', 'r', 'D', 'e', 'l', 'e', 't', 'e'],
        }
    }
}

impl DatabaseView {
    /// The staged event whose identifier is `id`, whatever its kind.
    pub open spec fn event(self, id: int) -> Option<Event> {
        if self.register_event(id) is Some {
            Some(Event::UserRegister(self.register_event(id)->0))
        } else if self.login_event(id) is Some {
            Some(Event::UserLogin(self.login_event(id)->0))
        } else if self.delete_event(id) is Some {
            Some(Event::UserDelete(self.delete_event(id)->0))
        } else {
            None
        }
    }
}

impl Event {
    /// The kind of the event.
    pub fn event_type(&self) -> (r: EventType)
        ensures
            r == match self {
                Event::UserRegister(_) => EventType::UserRegister,
                Event::UserLogin(_) => EventType::UserLogin,
                Event::UserDelete(_) => EventType::UserDelete,
            },
    {
        match self {
            Event::UserRegister(_) => EventType::UserRegister,
            Event::UserLogin(_) => EventType::UserLogin,
            Event::UserDelete(_) => EventType::UserDelete,
        }
    }

    /// The staged event whose identifier is `id`.
    pub fn retrieve(conn: &Database, id: i32) -> (r: Result<Event, EventRetrieveError>)
        ensures
            r == match conn@.event(id as int) {
                Some(e) => Ok(e),
                None => Err(EventRetrieveError::NotFound),
            },
    {
        if let Ok(e) = UserRegisterEvent::retrieve(conn, &id) {
            return Ok(Event::UserRegister(e));
        }
        if let Ok(e) = UserLoginEvent::retrieve(conn, &id) {
            return Ok(Event::UserLogin(e));
        }
        if let Ok(e) = UserDeleteEvent::retrieve(conn, &id) {
            return Ok(Event::UserDelete(e));
        }
        Err(EventRetrieveError::NotFound)
    }

    /// Commits the staged event `id` with `key`, whatever its kind. A committed login
    /// returns the token of the session it opened.
    pub fn commit(conn: &mut Database, id: i32, key: &String) -> (r: Result<Option<String>, EventCommitError>)
        requires
            old(conn)@.wf(),
        ensures
            final(conn)@.wf(),
            old(conn)@.event(id as int) is None ==> r == Err::<Option<String>, EventCommitError>(
                EventCommitError::NotFound,
            ) && final(conn)@ == old(conn)@,
            old(conn)@.register_event(id as int) is Some ==> final(conn)@ == old(conn)@.register_commit_state(
                id as int,
                key@,
            ) && r == match old(conn)@.register_commit_result(id as int, key@) {
                Ok(()) => Ok(None::<String>),
                Err(UserRegisterEventCommitError::Unauthorized) => Err(EventCommitError::Unauthorized),
                Err(UserRegisterEventCommitError::NotFound) => Err(EventCommitError::NotFound),
                Err(UserRegisterEventCommitError::NameError) => Err(EventCommitError::CannotCommit),
            },
            old(conn)@.register_event(id as int) is None && old(conn)@.login_event(id as int) is Some ==> {
                &&& !old(conn)@.login_commit_accepted(id as int, key@) ==> r == Err::<Option<String>, EventCommitError>(
                    EventCommitError::Unauthorized,
                ) && final(conn)@ == old(conn)@
                &&& old(conn)@.login_commit_accepted(id as int, key@) ==> match r {
                    Ok(Some(token)) => {
                        let login = old(conn)@.login_event(id as int)->0.login_string();
                        &&& old(conn)@.has_user(login@)
                        &&& !old(conn)@.has_token(token@)
                        &&& final(conn)@ == old(conn)@.with_session(login, token).without_login_event(id as int)
                    },
                    Err(EventCommitError::CannotCommit) => {
                        let login = old(conn)@.login_event(id as int)->0.login_string();
                        &&& !old(conn)@.has_user(login@) || old(conn)@.derived_token_taken(login@)
                            || old(conn)@.next_session_id == MAX_ROW_ID
                        &&& final(conn)@ == old(conn)@.without_login_event(id as int)
                    },
                    Err(EventCommitError::CannotHash(_)) => {
                        let login = old(conn)@.login_event(id as int)->0.login_string();
                        &&& old(conn)@.has_user(login@)
                        &&& final(conn)@ == old(conn)@.without_login_event(id as int)
                    },
                    _ => false,
                }
            },
            old(conn)@.register_event(id as int) is None && old(conn)@.login_event(id as int) is None
                && old(conn)@.delete_event(id as int) is Some ==> final(conn)@ == old(conn)@.delete_commit_state(
                id as int,
                key@,
            ) && r == match old(conn)@.delete_commit_result(id as int, key@) {
                Ok(()) => Ok(None::<String>),
                Err(UserDeleteEventCommitError::Unauthorized) => Err(EventCommitError::Unauthorized),
                Err(UserDeleteEventCommitError::NotFound) => Err(EventCommitError::CannotCommit),
            },
    {
        if UserRegisterEvent::retrieve(conn, &id).is_ok() {
            return match UserRegisterEvent::commit(conn, &id, key) {
                Ok(()) => Ok(None),
                Err(UserRegisterEventCommitError::Unauthorized) => Err(EventCommitError::Unauthorized),
                Err(UserRegisterEventCommitError::NotFound) => Err(EventCommitError::NotFound),
                Err(UserRegisterEventCommitError::NameError) => Err(EventCommitError::CannotCommit),
            };
        }
        if UserLoginEvent::retrieve(conn, &id).is_ok() {
            return match UserLoginEvent::commit(conn, &id, key) {
                Ok(token) => Ok(Some(token)),
                Err(UserLoginEventCommitError::Unauthorized) => Err(EventCommitError::Unauthorized),
                Err(UserLoginEventCommitError::NotFound) => Err(EventCommitError::NotFound),
                Err(UserLoginEventCommitError::CannotCreateSession(LoginSessionInsertError::CannotHash(err))) => {
                    Err(EventCommitError::CannotHash(err))
                },
                Err(UserLoginEventCommitError::CannotCreateSession(_)) => Err(EventCommitError::CannotCommit),
            };
        }
        if UserDeleteEvent::retrieve(conn, &id).is_ok() {
            return match UserDeleteEvent::commit(conn, &id, key) {
                Ok(()) => Ok(None),
                Err(UserDeleteEventCommitError::Unauthorized) => Err(EventCommitError::Unauthorized),
                Err(UserDeleteEventCommitError::NotFound) => Err(EventCommitError::CannotCommit),
            };
        }
        Err(EventCommitError::NotFound)
    }

    /// Cancels the staged event `id` with `key`, whatever its kind.
    pub fn delete(conn: &mut Database, id: i32, key: &String) -> (r: Result<(), EventDeleteError>)
        requires
            old(conn)@.wf(),
        ensures
            final(conn)@.wf(),
            old(conn)@.event(id as int) is None ==> r == Err::<(), EventDeleteError>(EventDeleteError::CannotInteract)
                && final(conn)@ == old(conn)@,
            old(conn)@.register_event(id as int) is Some ==> r is Ok == old(conn)@.register_cancel_result(
                id as int,
                key@,
            ) is Ok && final(conn)@ == if r is Ok {
                old(conn)@.without_register_event(id as int)
            } else {
                old(conn)@
            },
            old(conn)@.register_event(id as int) is None && old(conn)@.login_event(id as int) is Some ==> r is Ok
                == old(conn)@.login_cancel_result(id as int, key@) is Ok && final(conn)@ == if r is Ok {
                old(conn)@.without_login_event(id as int)
            } else {
                old(conn)@
            },
            old(conn)@.register_event(id as int) is None && old(conn)@.login_event(id as int) is None
                && old(conn)@.delete_event(id as int) is Some ==> r is Ok == old(conn)@.delete_cancel_result(
                id as int,
                key@,
            ) is Ok && final(conn)@ == if r is Ok {
                old(conn)@.without_delete_event(id as int)
            } else {
                old(conn)@
            },
    {
        let cancelled = if UserRegisterEvent::retrieve(conn, &id).is_ok() {
            UserRegisterEvent::cancel(conn, &id, key).is_ok()
        } else if UserLoginEvent::retrieve(conn, &id).is_ok() {
            UserLoginEvent::cancel(conn, &id, key).is_ok()
        } else if UserDeleteEvent::retrieve(conn, &id).is_ok() {
            UserDeleteEvent::cancel(conn, &id, key).is_ok()
        } else {
            false
        };
        if cancelled {
            Ok(())
        } else {
            Err(EventDeleteError::CannotInteract)
        }
    }
}

} // verus!
