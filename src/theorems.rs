use vstd::prelude::*;

use crate::database::{first_match, lemma_filter_rows, lemma_first_match_of_match, session_token_key, DatabaseView};
use crate::event::user_delete::{delete_event_with_id, delete_event_without_id, UserDeleteEventCommitError};
use crate::login_session::session_with_token;
use crate::permission::{permission_named, Permission};
use crate::event::user_login::{login_event_with_id, login_event_without_id};
use crate::event::user_register::{register_event_with_id, register_event_without_id, UserRegisterEventCommitError};
use crate::group::{group_named, GroupRevokeError};
use crate::user::{membership_not_of, session_not_of};

verus! {

broadcast use vstd::seq_lib::group_filter_ensures;

/// A permission inserted under a free name is retrieved with the description it was
/// inserted with, and inserting its name again is refused, whatever the description.
pub proof fn permission_insert_then_retrieve(
    db: DatabaseView,
    name: String,
    description: String,
    other_description: Seq<char>,
)
    requires
        db.wf(),
        !db.permission_insert_refused(name@, description@),
    ensures
        db.with_permission(Permission { name, description }).permission(name@) == Some(
            Permission { name, description },
        ),
        db.with_permission(Permission { name, description }).permission_insert_refused(name@, other_description),
{
    let p = Permission { name, description };
    let after = db.with_permission(p);
    let ps = after.permissions;
    let last = ps.len() - 1;
    assert(permission_named(name@)(ps[last]));
    assert forall|j: int| 0 <= j < last implies !#[trigger] permission_named(name@)(ps[j]) by {
        assert(ps[j] == db.permissions[j]);
    }
    lemma_first_match_of_match(ps, permission_named(name@), last);
    let k = first_match(ps, permission_named(name@))->0;
    if k < last {
        assert(!permission_named(name@)(ps[k]));
    }
}

/// Deleting a user leaves no membership and no session of it, and no token of its
/// sessions resolves to a user any more.
pub proof fn user_delete_cascades(db: DatabaseView, login: Seq<char>, token: Seq<char>)
    requires
        db.wf(),
        db.has_user(login),
        db.session(token) is Some,
        db.session(token)->0.user_login@ == login,
    ensures
        forall|i: int|
            0 <= i < db.without_user(login).users_groups.len() ==> (#[trigger] db.without_user(
                login,
            ).users_groups[i]).user_login@ != login,
        forall|i: int|
            0 <= i < db.without_user(login).login_sessions.len() ==> (#[trigger] db.without_user(
                login,
            ).login_sessions[i]).user_login@ != login,
        !db.without_user(login).has_user(login),
        db.without_user(login).session_user(token) is None,
{
    let after = db.without_user(login);
    assert forall|i: int| 0 <= i < after.users_groups.len() implies (#[trigger] after.users_groups[i]).user_login@
        != login by {
        assert(membership_not_of(login)(after.users_groups[i]));
    }
    assert forall|i: int| 0 <= i < after.login_sessions.len() implies (#[trigger] after.login_sessions[i]).user_login@
        != login by {
        assert(session_not_of(login)(after.login_sessions[i]));
    }
    if after.has_user(login) {
        let i = choose|i: int| 0 <= i < after.users.len() && #[trigger] crate::user::user_named(login)(after.users[i]);
        assert(crate::user::user_not_named(login)(after.users[i]));
    }
    let k = first_match(db.login_sessions, session_with_token(token))->0;
    if first_match(after.login_sessions, session_with_token(token)) is Some {
        let i = first_match(after.login_sessions, session_with_token(token))->0;
        lemma_filter_rows(db.login_sessions, session_not_of(login), i);
        let j = choose|j: int| 0 <= j < db.login_sessions.len() && db.login_sessions[j] == after.login_sessions[i];
        assert(session_token_key()(db.login_sessions[j]) == session_token_key()(db.login_sessions[k]));
        assert(j == k);
        assert(session_not_of(login)(after.login_sessions[i]));
    }
}

/// A staged deletion is applied at most once: after a commit that got past the key check,
/// committing again with the same key finds nothing and changes nothing, and the user is
/// gone.
pub proof fn delete_event_single_use(db: DatabaseView, id: int, key: Seq<char>)
    requires
        db.wf(),
        db.delete_commit_result(id, key) is Ok,
    ensures
        db.delete_commit_state(id, key) == db.without_user(db.delete_event(id)->0.view_login()).without_delete_event(id),
        !db.delete_commit_state(id, key).has_user(db.delete_event(id)->0.view_login()),
        db.delete_commit_state(id, key).delete_commit_result(id, key) == Err::<(), UserDeleteEventCommitError>(
            UserDeleteEventCommitError::NotFound,
        ),
        db.delete_commit_state(id, key).delete_commit_state(id, key) == db.delete_commit_state(id, key),
{
    let login = db.delete_event(id)->0.view_login();
    let after = db.delete_commit_state(id, key);
    assert(after == db.without_user(login).without_delete_event(id));
    if after.has_user(login) {
        let i = choose|i: int| 0 <= i < after.users.len() && #[trigger] crate::user::user_named(login)(after.users[i]);
        assert(crate::user::user_not_named(login)(after.users[i]));
    }
    let events = after.user_delete_events;
    if first_match(events, delete_event_with_id(id)) is Some {
        let i = first_match(events, delete_event_with_id(id))->0;
        assert(delete_event_without_id(id)(events[i]));
    }
}

/// A commit with a wrong key is refused and changes nothing, so the staged deletion is
/// still there; a later commit with the right key gets past the key check and removes it.
pub proof fn delete_event_wrong_key(db: DatabaseView, id: int, key: Seq<char>, wrong_key: Seq<char>)
    requires
        db.wf(),
        db.delete_event(id) is Some,
        db.delete_event(id)->0.view_key() == key,
        wrong_key != key,
    ensures
        db.delete_commit_result(id, wrong_key) == Err::<(), UserDeleteEventCommitError>(
            UserDeleteEventCommitError::Unauthorized,
        ),
        db.delete_commit_state(id, wrong_key) == db,
        db.delete_commit_result(id, key) is Ok <==> db.has_user(db.delete_event(id)->0.view_login()),
        db.delete_commit_state(id, key).delete_event(id) is None,
{
    let login = db.delete_event(id)->0.view_login();
    let after = db.delete_commit_state(id, key);
    let events = after.user_delete_events;
    if first_match(events, delete_event_with_id(id)) is Some {
        let i = first_match(events, delete_event_with_id(id))->0;
        assert(delete_event_without_id(id)(events[i]));
    }
}

/// A group insertion refused because a listed permission is missing leaves the store
/// as it was, so the group is not found afterwards.
pub proof fn group_insert_all_or_nothing(db: DatabaseView, name: Seq<char>, description: Seq<char>, permissions: Seq<String>)
    requires
        db.wf(),
        !db.group_insert_name_refused(name, description),
        !db.all_permissions_exist(permissions),
    ensures
        db.group(name) is None,
{
    if db.group(name) is Some {
        let i = first_match(db.groups, group_named(name))->0;
        assert(group_named(name)(db.groups[i]));
    }
}

/// Revoking from an existing group an existing permission that it never held is refused
/// as not granted, not as a missing group or permission.
pub proof fn revoke_never_granted(db: DatabaseView, group: Seq<char>, permission: Seq<char>)
    requires
        db.wf(),
        db.has_group(group),
        db.has_permission_row(permission),
        !db.has_grant(group, permission),
    ensures
        db.group_revoke_outcome(group, permission) == Err::<(), GroupRevokeError>(GroupRevokeError::PermissionNotGranted),
{
}

/// A staged registration is applied at most once: after a commit that got past the
/// key check, committing again with the same key finds nothing and changes nothing.
pub proof fn register_event_single_use(db: DatabaseView, id: int, key: Seq<char>)
    requires
        db.wf(),
        db.register_event(id) is Some,
        db.register_event(id)->0.view_key() == key,
    ensures
        db.register_commit_state(id, key).register_commit_result(id, key) == Err::<(), UserRegisterEventCommitError>(
            UserRegisterEventCommitError::NotFound,
        ),
        db.register_commit_state(id, key).register_commit_state(id, key) == db.register_commit_state(id, key),
{
    let after = db.register_commit_state(id, key);
    let events = after.user_register_events;
    if first_match(events, register_event_with_id(id)) is Some {
        let i = first_match(events, register_event_with_id(id))->0;
        assert(register_event_without_id(id)(events[i]));
    }
}

/// A staged login is applied at most once: whether the commit that got past the key
/// check opened a session or not, the staged login is gone afterwards.
pub proof fn login_event_single_use(db: DatabaseView, id: int, login: String, token: String)
    requires
        db.wf(),
    ensures
        db.without_login_event(id).login_event(id) is None,
        db.with_session(login, token).without_login_event(id).login_event(id) is None,
{
    let a = db.without_login_event(id).user_login_events;
    if first_match(a, login_event_with_id(id)) is Some {
        let i = first_match(a, login_event_with_id(id))->0;
        assert(login_event_without_id(id)(a[i]));
    }
    let b = db.with_session(login, token).without_login_event(id).user_login_events;
    if first_match(b, login_event_with_id(id)) is Some {
        let i = first_match(b, login_event_with_id(id))->0;
        assert(login_event_without_id(id)(b[i]));
    }
}

} // verus!
