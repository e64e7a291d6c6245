use cauth::database::Database;
use cauth::listing::Order;
use cauth::group::{Group, GroupDeleteError, GroupGrantError, GroupInsertError, GroupRetrieveError, GroupRevokeError};
use cauth::login_session::{LoginSession, LoginSessionDeleteError, LoginSessionGetUserError, LoginSessionInsertError};
use cauth::permission::{Permission, PermissionDeleteError, PermissionInsertError, PermissionRetrieveError};
use cauth::user::{User, UserDeleteError, UserGrantError, UserInsertError, UserLoginError, UserRevokeError, UserVerifyPasswordError};

fn s(text: &str) -> String {
    text.to_string()
}

fn store_with_permissions(names: &[&str]) -> Database {
    let mut db = Database::new();
    for name in names {
        Permission::insert(&mut db, &s(name), &s("a permission")).unwrap();
    }
    db
}

#[test]
fn permission_insert_then_retrieve_returns_description() {
    let mut db = Database::new();
    Permission::insert(&mut db, &s("docs:read"), &s("read the docs")).unwrap();
    let p = Permission::retrieve(&db, &s("docs:read")).unwrap();
    assert_eq!(p.name, "docs:read");
    assert_eq!(p.description, "read the docs");
}

#[test]
fn permission_inserted_twice_is_refused() {
    let mut db = Database::new();
    Permission::insert(&mut db, &s("docs:read"), &s("first")).unwrap();
    assert_eq!(Permission::insert(&mut db, &s("docs:read"), &s("second")), Err(PermissionInsertError::NameError));
    assert_eq!(Permission::retrieve(&db, &s("docs:read")).unwrap().description, "first");
}

#[test]
fn permission_name_and_description_limits() {
    let mut db = Database::new();
    let long_name = "n".repeat(256);
    let longest_name = "n".repeat(255);
    let long_description = "d".repeat(3001);
    assert_eq!(Permission::insert(&mut db, &long_name, &s("d")), Err(PermissionInsertError::NameError));
    assert_eq!(Permission::insert(&mut db, &s("p"), &long_description), Err(PermissionInsertError::NameError));
    assert!(Permission::insert(&mut db, &longest_name, &"d".repeat(3000)).is_ok());
}

#[test]
fn permission_retrieve_and_delete_missing() {
    let mut db = Database::new();
    assert_eq!(Permission::retrieve(&db, &s("nope")), Err(PermissionRetrieveError::NotFound));
    assert_eq!(Permission::delete(&mut db, &s("nope")), Err(PermissionDeleteError::NotFound));
}

#[test]
fn permission_delete_keeps_grants() {
    let mut db = store_with_permissions(&["p"]);
    Group::insert(&mut db, &s("g"), &s("d"), &vec![s("p")]).unwrap();
    Permission::delete(&mut db, &s("p")).unwrap();
    assert_eq!(Permission::retrieve(&db, &s("p")), Err(PermissionRetrieveError::NotFound));
    assert_eq!(Group::retrieve(&db, &s("g")).unwrap().permissions, vec![s("p")]);
}

#[test]
fn group_insert_with_missing_permission_leaves_nothing() {
    let mut db = store_with_permissions(&["p1"]);
    let result = Group::insert(&mut db, &s("g"), &s("d"), &vec![s("p1"), s("p2")]);
    assert_eq!(result, Err(GroupInsertError::PermissionNotFound));
    assert_eq!(Group::retrieve(&db, &s("g")), Err(GroupRetrieveError::NotFound));
    assert_eq!(Group::has_permission(&db, &s("g"), &s("p1")), Err(GroupRetrieveError::NotFound));
}

#[test]
fn group_insert_twice_is_refused() {
    let mut db = store_with_permissions(&["p"]);
    Group::insert(&mut db, &s("g"), &s("d"), &vec![]).unwrap();
    assert_eq!(Group::insert(&mut db, &s("g"), &s("d"), &vec![s("p")]), Err(GroupInsertError::NameError));
    assert_eq!(Group::retrieve(&db, &s("g")).unwrap().permissions, Vec::<String>::new());
}

#[test]
fn group_retrieve_lists_grants_in_order() {
    let mut db = store_with_permissions(&["a", "b", "c"]);
    Group::insert(&mut db, &s("g"), &s("desc"), &vec![s("b"), s("a"), s("b")]).unwrap();
    Group::grant_permission(&mut db, &s("g"), &s("c")).unwrap();
    let g = Group::retrieve(&db, &s("g")).unwrap();
    assert_eq!(g.name, "g");
    assert_eq!(g.description, "desc");
    assert_eq!(g.permissions, vec![s("b"), s("a"), s("c")]);
    assert_eq!(Group::has_permission(&db, &s("g"), &s("a")), Ok(true));
    assert_eq!(Group::has_permission(&db, &s("g"), &s("z")), Ok(false));
}

#[test]
fn group_grant_errors_and_regrant() {
    let mut db = store_with_permissions(&["p"]);
    Group::insert(&mut db, &s("g"), &s("d"), &vec![]).unwrap();
    assert_eq!(Group::grant_permission(&mut db, &s("g"), &s("missing")), Err(GroupGrantError::PermissionNotFound));
    assert_eq!(Group::grant_permission(&mut db, &s("nog"), &s("p")), Err(GroupGrantError::NotFound));
    Group::grant_permission(&mut db, &s("g"), &s("p")).unwrap();
    Group::grant_permission(&mut db, &s("g"), &s("p")).unwrap();
    assert_eq!(Group::retrieve(&db, &s("g")).unwrap().permissions, vec![s("p")]);
}

#[test]
fn group_revoke_never_granted_is_not_granted() {
    let mut db = store_with_permissions(&["p"]);
    Group::insert(&mut db, &s("g"), &s("d"), &vec![]).unwrap();
    assert_eq!(Group::revoke_permission(&mut db, &s("g"), &s("p")), Err(GroupRevokeError::PermissionNotGranted));
}

#[test]
fn group_revoke_errors_and_success() {
    let mut db = store_with_permissions(&["p"]);
    Group::insert(&mut db, &s("g"), &s("d"), &vec![s("p")]).unwrap();
    assert_eq!(Group::revoke_permission(&mut db, &s("g"), &s("q")), Err(GroupRevokeError::PermissionNotFound));
    assert_eq!(Group::revoke_permission(&mut db, &s("h"), &s("p")), Err(GroupRevokeError::NotFound));
    Group::revoke_permission(&mut db, &s("g"), &s("p")).unwrap();
    assert_eq!(Group::has_permission(&db, &s("g"), &s("p")), Ok(false));
}

#[test]
fn group_delete_removes_grants() {
    let mut db = store_with_permissions(&["p"]);
    Group::insert(&mut db, &s("g"), &s("d"), &vec![s("p")]).unwrap();
    Group::delete(&mut db, &s("g")).unwrap();
    assert_eq!(Group::retrieve(&db, &s("g")), Err(GroupRetrieveError::NotFound));
    assert_eq!(Group::delete(&mut db, &s("g")), Err(GroupDeleteError::NotFound));
    Group::insert(&mut db, &s("g"), &s("d"), &vec![]).unwrap();
    assert_eq!(Group::retrieve(&db, &s("g")).unwrap().permissions, Vec::<String>::new());
}

#[test]
fn user_insert_hashes_password() {
    let mut db = Database::new();
    User::insert(&mut db, &s("bob"), &s("hunter2"), &s("{}")).unwrap();
    let u = User::retrieve(&db, &s("bob")).unwrap();
    assert_ne!(u.password_hash, "hunter2");
    assert!(u.password_hash.starts_with("$argon2"));
    assert_eq!(u.details, "{}");
    assert_eq!(User::verify_password(&db, &s("bob"), &s("hunter2")), Ok(()));
    assert_eq!(User::verify_password(&db, &s("bob"), &s("hunter3")), Err(UserVerifyPasswordError::Unauthorized));
    assert_eq!(User::verify_password(&db, &s("eve"), &s("hunter2")), Err(UserVerifyPasswordError::NotFound));
}

#[test]
fn user_insert_errors() {
    let mut db = Database::new();
    User::insert_unhashed(&mut db, &s("bob"), &s("not-a-hash"), &s("{}")).unwrap();
    assert_eq!(User::insert(&mut db, &s("bob"), &s("pw"), &s("{}")), Err(UserInsertError::NameError));
    assert_eq!(User::insert_unhashed(&mut db, &"x".repeat(256), &s("h"), &s("{}")), Err(UserInsertError::NameError));
    assert_eq!(User::verify_password(&db, &s("bob"), &s("pw")), Err(UserVerifyPasswordError::Unauthorized));
}

#[test]
fn user_login_errors() {
    let mut db = Database::new();
    User::insert(&mut db, &s("bob"), &s("hunter2"), &s("{}")).unwrap();
    assert_eq!(User::login(&mut db, &s("eve"), &s("hunter2")), Err(UserLoginError::NotFound));
    assert_eq!(User::login(&mut db, &s("bob"), &s("wrong")), Err(UserLoginError::InvalidCredentials));
}

#[test]
fn user_grant_and_revoke_group() {
    let mut db = store_with_permissions(&["p"]);
    Group::insert(&mut db, &s("g"), &s("d"), &vec![s("p")]).unwrap();
    User::insert_unhashed(&mut db, &s("bob"), &s("h"), &s("{}")).unwrap();
    assert_eq!(User::grant_group(&mut db, &s("bob"), &s("h")), Err(UserGrantError::GroupNotFound));
    assert_eq!(User::grant_group(&mut db, &s("eve"), &s("g")), Err(UserGrantError::NotFound));
    let bob = User::retrieve(&db, &s("bob")).unwrap();
    assert!(!bob.has_permission(&db, s("p")));
    User::grant_group(&mut db, &s("bob"), &s("g")).unwrap();
    assert!(bob.has_permission(&db, s("p")));
    assert!(!bob.has_permission(&db, s("q")));
    assert_eq!(User::revoke_group(&mut db, &s("bob"), &s("h")), Err(UserRevokeError::GroupNotFound));
    assert_eq!(User::revoke_group(&mut db, &s("eve"), &s("g")), Err(UserRevokeError::NotFound));
    User::revoke_group(&mut db, &s("bob"), &s("g")).unwrap();
    assert_eq!(User::revoke_group(&mut db, &s("bob"), &s("g")), Err(UserRevokeError::NotGranted));
    assert!(!bob.has_permission(&db, s("p")));
}

#[test]
fn user_delete_cascades_to_memberships_and_sessions() {
    let mut db = store_with_permissions(&["p"]);
    Group::insert(&mut db, &s("g"), &s("d"), &vec![s("p")]).unwrap();
    User::insert(&mut db, &s("alice"), &s("pw"), &s("{}")).unwrap();
    User::grant_group(&mut db, &s("alice"), &s("g")).unwrap();
    let token = User::login(&mut db, &s("alice"), &s("pw")).unwrap();
    assert_eq!(LoginSession::get_user(&db, &token).unwrap().login, "alice");
    User::delete(&mut db, s("alice")).unwrap();
    assert_eq!(LoginSession::get_user(&db, &token), Err(LoginSessionGetUserError::NotFound));
    assert!(!LoginSession::has_permission(&db, &token, &s("p")));
    assert_eq!(User::delete(&mut db, s("alice")), Err(UserDeleteError::NotFound));
    User::insert_unhashed(&mut db, &s("alice"), &s("h"), &s("{}")).unwrap();
    let again = User::retrieve(&db, &s("alice")).unwrap();
    assert!(!again.has_permission(&db, s("p")));
}

#[test]
fn session_insert_with_token_errors() {
    let mut db = Database::new();
    assert_eq!(LoginSession::insert_with_token(&mut db, &s("bob"), s("t1")), Err(LoginSessionInsertError::UserNotFound));
    User::insert_unhashed(&mut db, &s("bob"), &s("h"), &s("{}")).unwrap();
    assert_eq!(LoginSession::insert_with_token(&mut db, &s("bob"), s("t1")), Ok(s("t1")));
    assert_eq!(LoginSession::insert_with_token(&mut db, &s("bob"), s("t1")), Err(LoginSessionInsertError::TokenConflict));
    assert_eq!(LoginSession::insert_with_token(&mut db, &s("bob"), s("t2")), Ok(s("t2")));
    let first = LoginSession::retrieve(&db, &s("t1")).unwrap();
    let second = LoginSession::retrieve(&db, &s("t2")).unwrap();
    assert_eq!(first.id, 1);
    assert_eq!(second.id, 2);
    assert_eq!(first.user_login, "bob");
}

#[test]
fn session_delete_by_id_and_token() {
    let mut db = Database::new();
    User::insert_unhashed(&mut db, &s("bob"), &s("h"), &s("{}")).unwrap();
    LoginSession::insert_with_token(&mut db, &s("bob"), s("t1")).unwrap();
    LoginSession::insert_with_token(&mut db, &s("bob"), s("t2")).unwrap();
    LoginSession::delete(&mut db, 1).unwrap();
    assert_eq!(LoginSession::delete(&mut db, 1), Err(LoginSessionDeleteError::NotFound));
    assert!(LoginSession::retrieve(&db, &s("t1")).is_err());
    LoginSession::delete_by_token(&mut db, &s("t2")).unwrap();
    assert_eq!(LoginSession::delete_by_token(&mut db, &s("t2")), Err(LoginSessionDeleteError::NotFound));
    assert_eq!(LoginSession::get_user(&db, &s("t2")), Err(LoginSessionGetUserError::NotFound));
}

#[test]
fn readers_scenario() {
    let mut db = Database::new();
    Permission::insert(&mut db, &s("docs:read"), &s("read the docs")).unwrap();
    Group::insert(&mut db, &s("readers"), &s("people who read"), &vec![s("docs:read")]).unwrap();
    User::insert(&mut db, &s("bob"), &s("hunter2"), &s("{}")).unwrap();
    User::grant_group(&mut db, &s("bob"), &s("readers")).unwrap();
    let bob = User::retrieve(&db, &s("bob")).unwrap();
    assert!(bob.has_permission(&db, s("docs:read")));
    let token = User::login(&mut db, &s("bob"), &s("hunter2")).unwrap();
    assert!(!token.is_empty());
    assert!(LoginSession::has_permission(&db, &token, &s("docs:read")));
    assert!(!LoginSession::has_permission(&db, &token, &s("docs:write")));
    assert!(!LoginSession::has_permission(&db, &s("unknown"), &s("docs:read")));
}

#[test]
fn permission_list_orders_and_pages() {
    let mut db = Database::new();
    for name in ["b", "a", "d", "c", "ab"] {
        Permission::insert(&mut db, &s(name), &s("x")).unwrap();
    }
    let names = |v: Vec<Permission>| v.into_iter().map(|p| p.name).collect::<Vec<String>>();
    assert_eq!(names(Permission::list(&db, None, None, None)), vec![s("a"), s("ab"), s("b"), s("c"), s("d")]);
    assert_eq!(names(Permission::list(&db, Some(Order::Descending), None, Some(2))), vec![s("d"), s("c")]);
    assert_eq!(names(Permission::list(&db, Some(Order::Ascending), Some(1), Some(2))), vec![s("ab"), s("b")]);
    assert_eq!(names(Permission::list(&db, Some(Order::Descending), Some(3), Some(10))), vec![s("ab"), s("a")]);
    assert!(Permission::list(&db, None, Some(5), None).is_empty());
    assert!(Permission::list(&Database::new(), None, None, None).is_empty());
}

#[test]
fn permission_list_default_limit_is_ten() {
    let mut db = Database::new();
    for i in 0..12 {
        Permission::insert(&mut db, &format!("p{:02}", i), &s("x")).unwrap();
    }
    let listed = Permission::list(&db, None, None, None);
    assert_eq!(listed.len(), 10);
    assert_eq!(listed[0].name, "p00");
    assert_eq!(listed[9].name, "p09");
}

#[test]
fn group_and_user_lists() {
    let mut db = Database::new();
    Permission::insert(&mut db, &s("p"), &s("x")).unwrap();
    Group::insert(&mut db, &s("zeta"), &s("z"), &vec![s("p")]).unwrap();
    Group::insert(&mut db, &s("alpha"), &s("a"), &vec![]).unwrap();
    let groups = Group::list(&db, None, None, None);
    assert_eq!(groups.len(), 2);
    assert_eq!(groups[0].name, "alpha");
    assert_eq!(groups[1].name, "zeta");
    assert_eq!(groups[1].permissions, vec![s("p")]);
    User::insert_unhashed(&mut db, &s("mallory"), &s("h"), &s("{}")).unwrap();
    User::insert_unhashed(&mut db, &s("bob"), &s("h"), &s("{}")).unwrap();
    let users = User::list(&db, Some(Order::Descending), None, None);
    assert_eq!(users.iter().map(|u| u.login.clone()).collect::<Vec<String>>(), vec![s("mallory"), s("bob")]);
}

#[test]
fn permission_event_handle() {
    assert_eq!(Permission::event(), cauth::permission::PermissionEvent);
}
