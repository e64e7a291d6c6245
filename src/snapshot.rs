use vstd::prelude::*;

use crate::database::{
    delete_event_id, grant_key, group_key, membership_key, ids_apart, ids_in_range, keys_unique, login_event_id, permission_key,
    register_event_id, session_id_key, session_token_key, user_key, Database, DatabaseView, MAX_ROW_ID,
};
use crate::event::user_delete::UserDeleteEvent;
use crate::event::user_login::UserLoginEvent;
use crate::event::user_register::UserRegisterEvent;
use crate::group::{find_group, Grant, GroupRecord};
use crate::login_session::LoginSession;
use crate::permission::Permission;
use crate::user::{find_user, Membership, User};

verus! {

/// A staged login or deletion as stored.
#[derive(Clone, Debug, PartialEq, Eq)]
pub struct EventRow {
    pub id: i32,
    pub key: String,
    pub user_login: String,
}

/// A staged registration as stored.
#[derive(Clone, Debug, PartialEq, Eq)]
pub struct RegisterEventRow {
    pub id: i32,
    pub key: String,
    pub user_login: String,
    pub password_hash: String,
    pub details: String,
}

/// Every row of a store, and its two identifier counters.
#[derive(Clone, Debug, PartialEq, Eq)]
pub struct Snapshot {
    pub permissions: Vec<Permission>,
    pub groups: Vec<GroupRecord>,
    pub groups_permissions: Vec<Grant>,
    pub users: Vec<User>,
    pub users_groups: Vec<Membership>,
    pub login_sessions: Vec<LoginSession>,
    pub user_register_events: Vec<RegisterEventRow>,
    pub user_login_events: Vec<EventRow>,
    pub user_delete_events: Vec<EventRow>,
    pub next_session_id: i32,
    pub next_event_id: i32,
}

pub open(crate) spec fn register_event_of(r: RegisterEventRow) -> UserRegisterEvent {
    UserRegisterEvent {
        id: r.id,
        key: r.key,
        user_login: r.user_login,
        password_hash: r.password_hash,
        details: r.details,
    }
}

pub open(crate) spec fn login_event_of(r: EventRow) -> UserLoginEvent {
    UserLoginEvent { id: r.id, key: r.key, user_login: r.user_login }
}

pub open(crate) spec fn delete_event_of(r: EventRow) -> UserDeleteEvent {
    UserDeleteEvent { id: r.id, key: r.key, user_login: r.user_login }
}

pub open(crate) spec fn register_events_of(rows: Seq<RegisterEventRow>) -> Seq<UserRegisterEvent> {
    rows.map_values(|r: RegisterEventRow| register_event_of(r))
}

pub open(crate) spec fn login_events_of(rows: Seq<EventRow>) -> Seq<UserLoginEvent> {
    rows.map_values(|r: EventRow| login_event_of(r))
}

pub open(crate) spec fn delete_events_of(rows: Seq<EventRow>) -> Seq<UserDeleteEvent> {
    rows.map_values(|r: EventRow| delete_event_of(r))
}

impl Snapshot {
    /// The store that these rows describe.
    pub open spec fn store(&self) -> DatabaseView {
        DatabaseView {
            permissions: self.permissions@,
            groups: self.groups@,
            groups_permissions: self.groups_permissions@,
            users: self.users@,
            users_groups: self.users_groups@,
            login_sessions: self.login_sessions@,
            user_register_events: register_events_of(self.user_register_events@),
            user_login_events: login_events_of(self.user_login_events@),
            user_delete_events: delete_events_of(self.user_delete_events@),
            next_session_id: self.next_session_id as int,
            next_event_id: self.next_event_id as int,
        }
    }
}

fn copy_permissions(v: &Vec<Permission>) -> (r: Vec<Permission>)
    ensures
        r@ == v@,
{
    let mut out: Vec<Permission> = Vec::new();
    let mut i: usize = 0;
    while i < v.len()
        invariant
            0 <= i <= v@.len(),
            out@ =~= v@.subrange(0, i as int),
        decreases v@.len() - i,
    {
        out.push(Permission { name: v[i].name.clone(), description: v[i].description.clone() });
        i = i + 1;
    }
    proof {
        assert(v@.subrange(0, i as int) =~= v@);
    }
    out
}

fn copy_groups(v: &Vec<GroupRecord>) -> (r: Vec<GroupRecord>)
    ensures
        r@ == v@,
{
    let mut out: Vec<GroupRecord> = Vec::new();
    let mut i: usize = 0;
    while i < v.len()
        invariant
            0 <= i <= v@.len(),
            out@ =~= v@.subrange(0, i as int),
        decreases v@.len() - i,
    {
        out.push(GroupRecord { name: v[i].name.clone(), description: v[i].description.clone() });
        i = i + 1;
    }
    proof {
        assert(v@.subrange(0, i as int) =~= v@);
    }
    out
}

fn copy_grants(v: &Vec<Grant>) -> (r: Vec<Grant>)
    ensures
        r@ == v@,
{
    let mut out: Vec<Grant> = Vec::new();
    let mut i: usize = 0;
    while i < v.len()
        invariant
            0 <= i <= v@.len(),
            out@ =~= v@.subrange(0, i as int),
        decreases v@.len() - i,
    {
        out.push(Grant { group_name: v[i].group_name.clone(), permission_name: v[i].permission_name.clone() });
        i = i + 1;
    }
    proof {
        assert(v@.subrange(0, i as int) =~= v@);
    }
    out
}

fn copy_users(v: &Vec<User>) -> (r: Vec<User>)
    ensures
        r@ == v@,
{
    let mut out: Vec<User> = Vec::new();
    let mut i: usize = 0;
    while i < v.len()
        invariant
            0 <= i <= v@.len(),
            out@ =~= v@.subrange(0, i as int),
        decreases v@.len() - i,
    {
        out.push(User { login: v[i].login.clone(), password_hash: v[i].password_hash.clone(), details: v[i].details.clone() });
        i = i + 1;
    }
    proof {
        assert(v@.subrange(0, i as int) =~= v@);
    }
    out
}

fn copy_memberships(v: &Vec<Membership>) -> (r: Vec<Membership>)
    ensures
        r@ == v@,
{
    let mut out: Vec<Membership> = Vec::new();
    let mut i: usize = 0;
    while i < v.len()
        invariant
            0 <= i <= v@.len(),
            out@ =~= v@.subrange(0, i as int),
        decreases v@.len() - i,
    {
        out.push(Membership { user_login: v[i].user_login.clone(), group_name: v[i].group_name.clone() });
        i = i + 1;
    }
    proof {
        assert(v@.subrange(0, i as int) =~= v@);
    }
    out
}

fn copy_sessions(v: &Vec<LoginSession>) -> (r: Vec<LoginSession>)
    ensures
        r@ == v@,
{
    let mut out: Vec<LoginSession> = Vec::new();
    let mut i: usize = 0;
    while i < v.len()
        invariant
            0 <= i <= v@.len(),
            out@ =~= v@.subrange(0, i as int),
        decreases v@.len() - i,
    {
        out.push(LoginSession { id: v[i].id, user_login: v[i].user_login.clone(), token: v[i].token.clone() });
        i = i + 1;
    }
    proof {
        assert(v@.subrange(0, i as int) =~= v@);
    }
    out
}

impl Database {
    /// Every row of the store, to be kept elsewhere.
    pub fn export(&self) -> (r: Snapshot)
        ensures
            r.store() == self@,
    {
        let mut register: Vec<RegisterEventRow> = Vec::new();
        let mut i: usize = 0;
        while i < self.user_register_events.len()
            invariant
                0 <= i <= self@.user_register_events.len(),
                register_events_of(register@) =~= self@.user_register_events.subrange(0, i as int),
            decreases self@.user_register_events.len() - i,
        {
            let e = &self.user_register_events[i];
            let ghost before = register@;
            let row = RegisterEventRow {
                id: e.id,
                key: e.key.clone(),
                user_login: e.user_login.clone(),
                password_hash: e.password_hash.clone(),
                details: e.details.clone(),
            };
            proof {
                assert(register_event_of(row) == *e);
            }
            register.push(row);
            proof {
                assert(register_events_of(register@) =~= register_events_of(before).push(*e));
                assert(self@.user_register_events.subrange(0, i + 1) =~= self@.user_register_events.subrange(0, i as int).push(*e));
            }
            i = i + 1;
        }
        let mut login: Vec<EventRow> = Vec::new();
        let mut i: usize = 0;
        while i < self.user_login_events.len()
            invariant
                0 <= i <= self@.user_login_events.len(),
                login_events_of(login@) =~= self@.user_login_events.subrange(0, i as int),
            decreases self@.user_login_events.len() - i,
        {
            let e = &self.user_login_events[i];
            let ghost before = login@;
            let row = EventRow { id: e.id, key: e.key.clone(), user_login: e.user_login.clone() };
            proof {
                assert(login_event_of(row) == *e);
            }
            login.push(row);
            proof {
                assert(login_events_of(login@) =~= login_events_of(before).push(*e));
                assert(self@.user_login_events.subrange(0, i + 1) =~= self@.user_login_events.subrange(0, i as int).push(*e));
            }
            i = i + 1;
        }
        let mut delete: Vec<EventRow> = Vec::new();
        let mut i: usize = 0;
        while i < self.user_delete_events.len()
            invariant
                0 <= i <= self@.user_delete_events.len(),
                delete_events_of(delete@) =~= self@.user_delete_events.subrange(0, i as int),
            decreases self@.user_delete_events.len() - i,
        {
            let e = &self.user_delete_events[i];
            let ghost before = delete@;
            let row = EventRow { id: e.id, key: e.key.clone(), user_login: e.user_login.clone() };
            proof {
                assert(delete_event_of(row) == *e);
            }
            delete.push(row);
            proof {
                assert(delete_events_of(delete@) =~= delete_events_of(before).push(*e));
                assert(self@.user_delete_events.subrange(0, i + 1) =~= self@.user_delete_events.subrange(0, i as int).push(*e));
            }
            i = i + 1;
        }
        let r = Snapshot {
            permissions: copy_permissions(&self.permissions),
            groups: copy_groups(&self.groups),
            groups_permissions: copy_grants(&self.groups_permissions),
            users: copy_users(&self.users),
            users_groups: copy_memberships(&self.users_groups),
            login_sessions: copy_sessions(&self.login_sessions),
            user_register_events: register,
            user_login_events: login,
            user_delete_events: delete,
            next_session_id: self.next_session_id,
            next_event_id: self.next_event_id,
        };
        proof {
            assert(self@.user_register_events.subrange(0, self@.user_register_events.len() as int) =~= self@.user_register_events);
            assert(self@.user_login_events.subrange(0, self@.user_login_events.len() as int) =~= self@.user_login_events);
            assert(self@.user_delete_events.subrange(0, self@.user_delete_events.len() as int) =~= self@.user_delete_events);
            assert(r.store() =~= self@);
        }
        r
    }
}

fn grants_name_groups(db: &Database) -> (r: bool)
    ensures
        r == forall|i: int|
            0 <= i < db@.groups_permissions.len() ==> #[trigger] db@.has_group(db@.groups_permissions[i].group_name@),
{
    let mut i: usize = 0;
    while i < db.groups_permissions.len()
        invariant
            0 <= i <= db@.groups_permissions.len(),
            forall|j: int| 0 <= j < i ==> #[trigger] db@.has_group(db@.groups_permissions[j].group_name@),
        decreases db@.groups_permissions.len() - i,
    {
        if find_group(db, &db.groups_permissions[i].group_name).is_none() {
            return false;
        }
        i = i + 1;
    }
    true
}

fn memberships_name_users(db: &Database) -> (r: bool)
    ensures
        r == forall|i: int|
            0 <= i < db@.users_groups.len() ==> #[trigger] db@.has_user(db@.users_groups[i].user_login@),
{
    let mut i: usize = 0;
    while i < db.users_groups.len()
        invariant
            0 <= i <= db@.users_groups.len(),
            forall|j: int| 0 <= j < i ==> #[trigger] db@.has_user(db@.users_groups[j].user_login@),
        decreases db@.users_groups.len() - i,
    {
        if find_user(db, &db.users_groups[i].user_login).is_none() {
            return false;
        }
        i = i + 1;
    }
    true
}

fn sessions_name_users(db: &Database) -> (r: bool)
    ensures
        r == forall|i: int|
            0 <= i < db@.login_sessions.len() ==> #[trigger] db@.has_user(db@.login_sessions[i].user_login@),
{
    let mut i: usize = 0;
    while i < db.login_sessions.len()
        invariant
            0 <= i <= db@.login_sessions.len(),
            forall|j: int| 0 <= j < i ==> #[trigger] db@.has_user(db@.login_sessions[j].user_login@),
        decreases db@.login_sessions.len() - i,
    {
        if find_user(db, &db.login_sessions[i].user_login).is_none() {
            return false;
        }
        i = i + 1;
    }
    true
}

/// Whether the store keeps its invariants.
fn check_invariants(db: &Database) -> (r: bool)
    ensures
        r == db@.wf(),
{
    let same_permission = |a: &Permission, b: &Permission| -> (x: bool)
        ensures
            x == (permission_key()(*a) == permission_key()(*b)),
    {
        a.name == b.name
    };
    let same_group = |a: &GroupRecord, b: &GroupRecord| -> (x: bool)
        ensures
            x == (group_key()(*a) == group_key()(*b)),
    {
        a.name == b.name
    };
    let same_grant = |a: &Grant, b: &Grant| -> (x: bool)
        ensures
            x == (grant_key()(*a) == grant_key()(*b)),
    {
        a.group_name == b.group_name && a.permission_name == b.permission_name
    };
    let same_membership = |a: &Membership, b: &Membership| -> (x: bool)
        ensures
            x == (membership_key()(*a) == membership_key()(*b)),
    {
        a.user_login == b.user_login && a.group_name == b.group_name
    };
    let same_user = |a: &User, b: &User| -> (x: bool)
        ensures
            x == (user_key()(*a) == user_key()(*b)),
    {
        a.login == b.login
    };
    let same_session_id = |a: &LoginSession, b: &LoginSession| -> (x: bool)
        ensures
            x == (session_id_key()(*a) == session_id_key()(*b)),
    {
        a.id == b.id
    };
    let same_token = |a: &LoginSession, b: &LoginSession| -> (x: bool)
        ensures
            x == (session_token_key()(*a) == session_token_key()(*b)),
    {
        a.token == b.token
    };
    let session_id = |a: &LoginSession| -> (x: i32)
        ensures
            x as int == session_id_key()(*a),
    {
        a.id
    };
    let register_id = |a: &UserRegisterEvent| -> (x: i32)
        ensures
            x as int == register_event_id()(*a),
    {
        a.id
    };
    let login_id = |a: &UserLoginEvent| -> (x: i32)
        ensures
            x as int == login_event_id()(*a),
    {
        a.id
    };
    let delete_id = |a: &UserDeleteEvent| -> (x: i32)
        ensures
            x as int == delete_event_id()(*a),
    {
        a.id
    };
    let same_register = |a: &UserRegisterEvent, b: &UserRegisterEvent| -> (x: bool)
        ensures
            x == (register_event_id()(*a) == register_event_id()(*b)),
    {
        a.id == b.id
    };
    let same_login = |a: &UserLoginEvent, b: &UserLoginEvent| -> (x: bool)
        ensures
            x == (login_event_id()(*a) == login_event_id()(*b)),
    {
        a.id == b.id
    };
    let same_delete = |a: &UserDeleteEvent, b: &UserDeleteEvent| -> (x: bool)
        ensures
            x == (delete_event_id()(*a) == delete_event_id()(*b)),
    {
        a.id == b.id
    };
    keys_unique::<Permission, Seq<char>, _>(&db.permissions, same_permission, Ghost(permission_key()))
        && keys_unique::<GroupRecord, Seq<char>, _>(&db.groups, same_group, Ghost(group_key()))
        && keys_unique::<Grant, (Seq<char>, Seq<char>), _>(&db.groups_permissions, same_grant, Ghost(grant_key()))
        && grants_name_groups(db)
        && keys_unique::<User, Seq<char>, _>(&db.users, same_user, Ghost(user_key()))
        && keys_unique::<Membership, (Seq<char>, Seq<char>), _>(&db.users_groups, same_membership, Ghost(membership_key()))
        && memberships_name_users(db)
        && keys_unique::<LoginSession, int, _>(&db.login_sessions, same_session_id, Ghost(session_id_key()))
        && keys_unique::<LoginSession, Seq<char>, _>(&db.login_sessions, same_token, Ghost(session_token_key()))
        && ids_in_range(&db.login_sessions, session_id, Ghost(session_id_key()), db.next_session_id)
        && sessions_name_users(db)
        && keys_unique::<UserRegisterEvent, int, _>(&db.user_register_events, same_register, Ghost(register_event_id()))
        && keys_unique::<UserLoginEvent, int, _>(&db.user_login_events, same_login, Ghost(login_event_id()))
        && keys_unique::<UserDeleteEvent, int, _>(&db.user_delete_events, same_delete, Ghost(delete_event_id()))
        && ids_in_range(&db.user_register_events, register_id, Ghost(register_event_id()), db.next_event_id)
        && ids_in_range(&db.user_login_events, login_id, Ghost(login_event_id()), db.next_event_id)
        && ids_in_range(&db.user_delete_events, delete_id, Ghost(delete_event_id()), db.next_event_id)
        && ids_apart(&db.user_register_events, register_id, Ghost(register_event_id()), &db.user_login_events, login_id, Ghost(login_event_id()))
        && ids_apart(&db.user_register_events, register_id, Ghost(register_event_id()), &db.user_delete_events, delete_id, Ghost(delete_event_id()))
        && ids_apart(&db.user_login_events, login_id, Ghost(login_event_id()), &db.user_delete_events, delete_id, Ghost(delete_event_id()))
        && 1 <= db.next_session_id && db.next_session_id <= MAX_ROW_ID
        && 1 <= db.next_event_id && db.next_event_id <= MAX_ROW_ID
}

impl Database {
    /// The store that `snapshot` describes, if its rows keep the invariants of a store.
    pub fn import(snapshot: Snapshot) -> (r: Option<Database>)
        ensures
            r is Some <==> snapshot.store().wf(),
            r is Some ==> r->0@ == snapshot.store(),
    {
        let ghost expected = snapshot.store();
        let mut register: Vec<UserRegisterEvent> = Vec::new();
        let mut i: usize = 0;
        while i < snapshot.user_register_events.len()
            invariant
                0 <= i <= snapshot.user_register_events@.len(),
                register@ =~= register_events_of(snapshot.user_register_events@).subrange(0, i as int),
            decreases snapshot.user_register_events@.len() - i,
        {
            let row = &snapshot.user_register_events[i];
            register.push(UserRegisterEvent {
                id: row.id,
                key: row.key.clone(),
                user_login: row.user_login.clone(),
                password_hash: row.password_hash.clone(),
                details: row.details.clone(),
            });
            i = i + 1;
        }
        let mut login: Vec<UserLoginEvent> = Vec::new();
        let mut i: usize = 0;
        while i < snapshot.user_login_events.len()
            invariant
                0 <= i <= snapshot.user_login_events@.len(),
                login@ =~= login_events_of(snapshot.user_login_events@).subrange(0, i as int),
            decreases snapshot.user_login_events@.len() - i,
        {
            let row = &snapshot.user_login_events[i];
            login.push(UserLoginEvent { id: row.id, key: row.key.clone(), user_login: row.user_login.clone() });
            i = i + 1;
        }
        let mut delete: Vec<UserDeleteEvent> = Vec::new();
        let mut i: usize = 0;
        while i < snapshot.user_delete_events.len()
            invariant
                0 <= i <= snapshot.user_delete_events@.len(),
                delete@ =~= delete_events_of(snapshot.user_delete_events@).subrange(0, i as int),
            decreases snapshot.user_delete_events@.len() - i,
        {
            let row = &snapshot.user_delete_events[i];
            delete.push(UserDeleteEvent { id: row.id, key: row.key.clone(), user_login: row.user_login.clone() });
            i = i + 1;
        }
        proof {
            assert(register@ =~= register_events_of(snapshot.user_register_events@));
            assert(login@ =~= login_events_of(snapshot.user_login_events@));
            assert(delete@ =~= delete_events_of(snapshot.user_delete_events@));
        }
        let db = Database {
            permissions: snapshot.permissions,
            groups: snapshot.groups,
            groups_permissions: snapshot.groups_permissions,
            users: snapshot.users,
            users_groups: snapshot.users_groups,
            login_sessions: snapshot.login_sessions,
            user_register_events: register,
            user_login_events: login,
            user_delete_events: delete,
            next_session_id: snapshot.next_session_id,
            next_event_id: snapshot.next_event_id,
        };
        proof {
            assert(db@ =~= expected);
        }
        if check_invariants(&db) {
            Some(db)
        } else {
            None
        }
    }
}

} // verus!
