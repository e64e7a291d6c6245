use cauth::database::Database;
use cauth::event::user_delete::{UserDeleteEvent, UserDeleteEventCancelError, UserDeleteEventCommitError, UserDeleteEventInsertError};
use cauth::event::user_login::{UserLoginEvent, UserLoginEventCommitError, UserLoginEventInsertError};
use cauth::event::user_register::{UserRegisterEvent, UserRegisterEventCommitError, UserRegisterEventInsertError};
use cauth::event::{Event, EventCommitError, EventDeleteError, EventRetrieveError, EventType};
use cauth::keys::derive_key;
use cauth::login_session::LoginSession;
use cauth::user::{User, UserRetrieveError};

fn s(text: &str) -> String {
    text.to_string()
}

fn store_with_alice() -> Database {
    let mut db = Database::new();
    User::insert(&mut db, &s("alice"), &s("pw"), &s("{\"age\":3}")).unwrap();
    db
}

#[test]
fn delete_event_commit_is_single_use() {
    let mut db = store_with_alice();
    let credentials = UserDeleteEvent::insert(&mut db, &s("alice")).unwrap();
    assert_eq!(credentials.id, 1);
    assert_eq!(credentials.key.len(), 64);
    assert_eq!(UserDeleteEvent::commit(&mut db, &credentials.id, &credentials.key), Ok(()));
    assert_eq!(User::retrieve(&db, &s("alice")), Err(UserRetrieveError::NotFound));
    assert_eq!(UserDeleteEvent::commit(&mut db, &credentials.id, &credentials.key), Err(UserDeleteEventCommitError::NotFound));
}

#[test]
fn delete_event_wrong_key_keeps_event() {
    let mut db = store_with_alice();
    let credentials = UserDeleteEvent::insert_with_key(&mut db, &s("alice"), s("right")).unwrap();
    assert_eq!(UserDeleteEvent::commit(&mut db, &credentials.id, &s("wrong")), Err(UserDeleteEventCommitError::Unauthorized));
    let staged = UserDeleteEvent::retrieve(&db, &credentials.id).unwrap();
    assert_eq!(staged.user_login(), "alice");
    assert!(User::retrieve(&db, &s("alice")).is_ok());
    assert_eq!(UserDeleteEvent::commit(&mut db, &credentials.id, &s("right")), Ok(()));
    assert!(User::retrieve(&db, &s("alice")).is_err());
}

#[test]
fn delete_event_of_vanished_user_is_still_removed() {
    let mut db = store_with_alice();
    let credentials = UserDeleteEvent::insert_with_key(&mut db, &s("alice"), s("k")).unwrap();
    User::delete(&mut db, s("alice")).unwrap();
    assert_eq!(UserDeleteEvent::commit(&mut db, &credentials.id, &s("k")), Err(UserDeleteEventCommitError::NotFound));
    assert!(UserDeleteEvent::retrieve(&db, &credentials.id).is_err());
}

#[test]
fn delete_event_insert_and_cancel() {
    let mut db = store_with_alice();
    assert_eq!(UserDeleteEvent::insert(&mut db, &s("bob")), Err(UserDeleteEventInsertError::UserNotFound));
    let credentials = UserDeleteEvent::insert_with_key(&mut db, &s("alice"), s("k")).unwrap();
    assert_eq!(UserDeleteEvent::cancel(&mut db, &credentials.id, &s("x")), Err(UserDeleteEventCancelError::Unauthorized));
    assert_eq!(UserDeleteEvent::cancel(&mut db, &credentials.id, &s("k")), Ok(()));
    assert_eq!(UserDeleteEvent::cancel(&mut db, &credentials.id, &s("k")), Err(UserDeleteEventCancelError::NotFound));
    assert!(User::retrieve(&db, &s("alice")).is_ok());
}

#[test]
fn register_event_hashes_at_staging_and_commits() {
    let mut db = store_with_alice();
    assert_eq!(
        UserRegisterEvent::insert(&mut db, &s("alice"), &s("pw"), &s("{}")),
        Err(UserRegisterEventInsertError::AlreadyExists)
    );
    let credentials = UserRegisterEvent::insert(&mut db, &s("carol"), &s("secret"), &s("{}")).unwrap();
    assert!(User::retrieve(&db, &s("carol")).is_err());
    assert_eq!(UserRegisterEvent::commit(&mut db, &credentials.id, &s("bad")), Err(UserRegisterEventCommitError::Unauthorized));
    assert_eq!(UserRegisterEvent::commit(&mut db, &credentials.id, &credentials.key), Ok(()));
    let carol = User::retrieve(&db, &s("carol")).unwrap();
    assert_ne!(carol.password_hash, "secret");
    assert_eq!(User::verify_password(&db, &s("carol"), &s("secret")), Ok(()));
    assert_eq!(UserRegisterEvent::commit(&mut db, &credentials.id, &credentials.key), Err(UserRegisterEventCommitError::NotFound));
}

#[test]
fn register_event_commit_when_login_taken() {
    let mut db = Database::new();
    let credentials = UserRegisterEvent::insert_with(&mut db, &s("dave"), s("h"), &s("{}"), s("k")).unwrap();
    User::insert_unhashed(&mut db, &s("dave"), &s("other"), &s("{}")).unwrap();
    assert_eq!(UserRegisterEvent::commit(&mut db, &credentials.id, &s("k")), Err(UserRegisterEventCommitError::NameError));
    assert!(UserRegisterEvent::retrieve(&db, &credentials.id).is_err());
    assert_eq!(User::retrieve(&db, &s("dave")).unwrap().password_hash, "other");
}

#[test]
fn login_event_opens_session_on_commit() {
    let mut db = store_with_alice();
    assert_eq!(UserLoginEvent::insert(&mut db, &s("alice"), &s("bad")), Err(UserLoginEventInsertError::Unauthorized));
    assert_eq!(UserLoginEvent::insert(&mut db, &s("zed"), &s("pw")), Err(UserLoginEventInsertError::UserNotFound));
    let credentials = UserLoginEvent::insert_with_key(&mut db, &s("alice"), &s("pw"), s("k")).unwrap();
    assert_eq!(UserLoginEvent::commit(&mut db, &credentials.id, &s("j")), Err(UserLoginEventCommitError::Unauthorized));
    let token = UserLoginEvent::commit(&mut db, &credentials.id, &s("k")).unwrap();
    assert_eq!(LoginSession::get_user(&db, &token).unwrap().login, "alice");
    assert_eq!(UserLoginEvent::commit(&mut db, &credentials.id, &s("k")), Err(UserLoginEventCommitError::NotFound));
}

#[test]
fn event_identifiers_are_shared_across_kinds() {
    let mut db = store_with_alice();
    let a = UserDeleteEvent::insert_with_key(&mut db, &s("alice"), s("k1")).unwrap();
    let b = UserRegisterEvent::insert_with(&mut db, &s("erin"), s("h"), &s("{}"), s("k2")).unwrap();
    let c = UserLoginEvent::insert_with_key(&mut db, &s("alice"), &s("pw"), s("k3")).unwrap();
    assert_eq!((a.id, b.id, c.id), (1, 2, 3));
    assert_eq!(Event::retrieve(&db, 1).unwrap().event_type(), EventType::UserDelete);
    assert_eq!(Event::retrieve(&db, 2).unwrap().event_type(), EventType::UserRegister);
    assert_eq!(Event::retrieve(&db, 3).unwrap().event_type(), EventType::UserLogin);
    assert_eq!(Event::retrieve(&db, 4), Err(EventRetrieveError::NotFound));
    assert_eq!(EventType::UserLogin.name(), "UserLogin");
}

#[test]
fn generic_commit_and_delete() {
    let mut db = store_with_alice();
    let login = UserLoginEvent::insert_with_key(&mut db, &s("alice"), &s("pw"), s("k1")).unwrap();
    let register = UserRegisterEvent::insert_with(&mut db, &s("erin"), s("h"), &s("{}"), s("k2")).unwrap();
    let delete = UserDeleteEvent::insert_with_key(&mut db, &s("alice"), s("k3")).unwrap();
    assert_eq!(Event::commit(&mut db, 99, &s("k1")), Err(EventCommitError::NotFound));
    assert_eq!(Event::commit(&mut db, login.id, &s("no")), Err(EventCommitError::Unauthorized));
    let token = Event::commit(&mut db, login.id, &s("k1")).unwrap().unwrap();
    assert!(LoginSession::retrieve(&db, &token).is_ok());
    assert_eq!(Event::delete(&mut db, register.id, &s("no")), Err(EventDeleteError::CannotInteract));
    assert_eq!(Event::delete(&mut db, register.id, &s("k2")), Ok(()));
    assert_eq!(Event::delete(&mut db, register.id, &s("k2")), Err(EventDeleteError::CannotInteract));
    assert_eq!(Event::commit(&mut db, delete.id, &s("k3")), Ok(None));
    assert!(LoginSession::retrieve(&db, &token).is_err());
}

#[test]
fn derived_keys_are_hex_digests() {
    let a = derive_key(&s("alice"), 0);
    let b = derive_key(&s("alice"), 1);
    assert_eq!(a.len(), 64);
    assert!(a.chars().all(|c| c.is_ascii_hexdigit() && !c.is_ascii_uppercase()));
    assert_ne!(a, "alice0");
    assert_ne!(a, b);
    assert_eq!(a, derive_key(&s("alice"), 0));
    assert_eq!(derive_key(&s("alice1"), 23), derive_key(&s("alice12"), 3));
}

#[test]
fn snapshot_round_trip_keeps_everything() {
    let mut db = store_with_alice();
    let staged = UserDeleteEvent::insert_with_key(&mut db, &s("alice"), s("k")).unwrap();
    let token = User::login(&mut db, &s("alice"), &s("pw")).unwrap();
    let rows = db.export();
    let mut restored = Database::import(rows.clone()).unwrap();
    assert_eq!(restored.export(), rows);
    assert_eq!(LoginSession::get_user(&restored, &token).unwrap().login, "alice");
    assert_eq!(UserDeleteEvent::commit(&mut restored, &staged.id, &s("k")), Ok(()));
    assert!(User::retrieve(&restored, &s("alice")).is_err());
}

#[test]
fn snapshot_import_refuses_broken_rows() {
    let mut db = store_with_alice();
    LoginSession::insert_with_token(&mut db, &s("alice"), s("t")).unwrap();
    let rows = db.export();
    let mut duplicated = rows.clone();
    duplicated.users.push(duplicated.users[0].clone());
    assert!(Database::import(duplicated).is_none());
    let mut dangling = rows.clone();
    dangling.login_sessions[0].user_login = s("nobody");
    assert!(Database::import(dangling).is_none());
    let mut stale_counter = rows.clone();
    stale_counter.next_session_id = 1;
    assert!(Database::import(stale_counter).is_none());
    assert!(Database::import(rows).is_some());
}

#[test]
fn snapshot_import_refuses_duplicate_grants() {
    let mut db = Database::new();
    cauth::permission::Permission::insert(&mut db, &s("p"), &s("d")).unwrap();
    cauth::group::Group::insert(&mut db, &s("g"), &s("d"), &vec![s("p")]).unwrap();
    let mut rows = db.export();
    rows.groups_permissions.push(rows.groups_permissions[0].clone());
    assert!(Database::import(rows).is_none());
}
