use vstd::prelude::*;

use crate::event::user_delete::UserDeleteEvent;
use crate::event::user_login::UserLoginEvent;
use crate::event::user_register::UserRegisterEvent;
use crate::group::{Grant, GroupRecord};
use crate::login_session::LoginSession;
use crate::permission::Permission;
use crate::user::{Membership, User};

verus! {

broadcast use vstd::seq_lib::group_filter_ensures;

/// The largest identifier that a row of `login_sessions` or of an event relation can get.
pub const MAX_ROW_ID: i32 = 2147483647;

/// The relations of the store, as sequences of rows in insertion order.
pub struct DatabaseView {
    pub permissions: Seq<Permission>,
    pub groups: Seq<GroupRecord>,
    pub groups_permissions: Seq<Grant>,
    pub users: Seq<User>,
    pub users_groups: Seq<Membership>,
    pub login_sessions: Seq<LoginSession>,
    pub user_register_events: Seq<UserRegisterEvent>,
    pub user_login_events: Seq<UserLoginEvent>,
    pub user_delete_events: Seq<UserDeleteEvent>,
    /// The identifier that the next login session gets.
    pub next_session_id: int,
    /// The identifier that the next staged event gets, whatever its variant.
    pub next_event_id: int,
}

/// The relational store that every operation of the library reads and changes.
/// Each operation takes it as a transaction handle: it either applies all its
/// changes or leaves the store as it was.
pub struct Database {
    pub(crate) permissions: Vec<Permission>,
    pub(crate) groups: Vec<GroupRecord>,
    pub(crate) groups_permissions: Vec<Grant>,
    pub(crate) users: Vec<User>,
    pub(crate) users_groups: Vec<Membership>,
    pub(crate) login_sessions: Vec<LoginSession>,
    pub(crate) user_register_events: Vec<UserRegisterEvent>,
    pub(crate) user_login_events: Vec<UserLoginEvent>,
    pub(crate) user_delete_events: Vec<UserDeleteEvent>,
    pub(crate) next_session_id: i32,
    pub(crate) next_event_id: i32,
}

impl View for Database {
    type V = DatabaseView;

    open(crate) spec fn view(&self) -> DatabaseView {
        DatabaseView {
            permissions: self.permissions@,
            groups: self.groups@,
            groups_permissions: self.groups_permissions@,
            users: self.users@,
            users_groups: self.users_groups@,
            login_sessions: self.login_sessions@,
            user_register_events: self.user_register_events@,
            user_login_events: self.user_login_events@,
            user_delete_events: self.user_delete_events@,
            next_session_id: self.next_session_id as int,
            next_event_id: self.next_event_id as int,
        }
    }
}

/// No two rows of `s` have the same key.
pub open spec fn unique_by<T, K>(s: Seq<T>, key: spec_fn(T) -> K) -> bool {
    forall|i: int, j: int|
        0 <= i < s.len() && 0 <= j < s.len() && i != j ==> #[trigger] key(s[i]) != #[trigger] key(
            s[j],
        )
}

/// Some row of `s` satisfies `p`.
pub open spec fn any_row<T>(s: Seq<T>, p: spec_fn(T) -> bool) -> bool {
    exists|i: int| 0 <= i < s.len() && #[trigger] p(s[i])
}

/// Index `i` holds the first row of `s` that satisfies `p`.
pub open spec fn is_first_match<T>(s: Seq<T>, p: spec_fn(T) -> bool, i: int) -> bool {
    &&& 0 <= i < s.len()
    &&& p(s[i])
    &&& forall|j: int| 0 <= j < i ==> !#[trigger] p(s[j])
}

/// The index of the first row of `s` that satisfies `p`, if there is one.
pub open spec fn first_match<T>(s: Seq<T>, p: spec_fn(T) -> bool) -> Option<int> {
    if exists|i: int| is_first_match(s, p, i) {
        Some(choose|i: int| is_first_match(s, p, i))
    } else {
        None
    }
}

/// Every key of `s` lies in `[1, bound)`.
pub open spec fn ids_below<T>(s: Seq<T>, id: spec_fn(T) -> int, bound: int) -> bool {
    forall|i: int| 0 <= i < s.len() ==> 1 <= #[trigger] id(s[i]) < bound
}

/// No key of `a` is a key of `b`.
pub open spec fn ids_disjoint<T, U>(a: Seq<T>, ida: spec_fn(T) -> int, b: Seq<U>, idb: spec_fn(U) -> int) -> bool {
    forall|i: int, j: int|
        0 <= i < a.len() && 0 <= j < b.len() ==> #[trigger] ida(a[i]) != #[trigger] idb(b[j])
}

pub proof fn lemma_first_match_of_match<T>(s: Seq<T>, p: spec_fn(T) -> bool, i: int)
    requires
        0 <= i < s.len(),
        p(s[i]),
    ensures
        first_match(s, p) is Some,
        0 <= first_match(s, p)->0 <= i,
        is_first_match(s, p, first_match(s, p)->0),
    decreases i,
{
    if forall|j: int| 0 <= j < i ==> !#[trigger] p(s[j]) {
        assert(is_first_match(s, p, i));
        let k = choose|k: int| is_first_match(s, p, k);
        if k < i {
            assert(p(s[k]));
        }
        if k > i {
            assert(!p(s[i]));
        }
    } else {
        let j = choose|j: int| 0 <= j < i && #[trigger] p(s[j]);
        lemma_first_match_of_match(s, p, j);
    }
}

pub proof fn lemma_first_match_none<T>(s: Seq<T>, p: spec_fn(T) -> bool)
    requires
        first_match(s, p) is None,
    ensures
        !any_row(s, p),
{
    if any_row(s, p) {
        let i = choose|i: int| 0 <= i < s.len() && #[trigger] p(s[i]);
        lemma_first_match_of_match(s, p, i);
    }
}

pub proof fn lemma_filter_unique<T, K>(s: Seq<T>, key: spec_fn(T) -> K, keep: spec_fn(T) -> bool)
    requires
        unique_by(s, key),
    ensures
        unique_by(s.filter(keep), key),
    decreases s.len(),
{
    reveal(Seq::filter);
    if s.len() > 0 {
        let rest = s.drop_last();
        assert(unique_by(rest, key)) by {
            assert forall|i: int, j: int|
                0 <= i < rest.len() && 0 <= j < rest.len() && i != j implies #[trigger] key(
                rest[i],
            ) != #[trigger] key(rest[j]) by {
                assert(rest[i] == s[i] && rest[j] == s[j]);
            }
        }
        lemma_filter_unique(rest, key, keep);
        let f = rest.filter(keep);
        if keep(s.last()) {
            let g = f.push(s.last());
            assert forall|i: int, j: int|
                0 <= i < g.len() && 0 <= j < g.len() && i != j implies #[trigger] key(g[i])
                != #[trigger] key(g[j]) by {
                if i == f.len() || j == f.len() {
                    let o = if i == f.len() {
                        j
                    } else {
                        i
                    };
                    assert(f.contains(f[o]));
                    rest.lemma_filter_contains_rev(keep, f[o]);
                    let m = choose|m: int| 0 <= m < rest.len() && rest[m] == f[o];
                    assert(s[m] == f[o]);
                    assert(key(s[m]) != key(s[s.len() - 1]));
                } else {
                    assert(g[i] == f[i] && g[j] == f[j]);
                }
            }
        }
    }
}

pub proof fn lemma_push_unique<T, K>(s: Seq<T>, key: spec_fn(T) -> K, x: T)
    requires
        unique_by(s, key),
        forall|i: int| 0 <= i < s.len() ==> #[trigger] key(s[i]) != key(x),
    ensures
        unique_by(s.push(x), key),
{
    let t = s.push(x);
    assert forall|i: int, j: int| 0 <= i < t.len() && 0 <= j < t.len() && i != j implies #[trigger] key(t[i])
        != #[trigger] key(t[j]) by {
        if i < s.len() && j < s.len() {
            assert(t[i] == s[i] && t[j] == s[j]);
        } else if i < s.len() {
            assert(t[i] == s[i]);
        } else {
            assert(t[j] == s[j]);
        }
    }
}

/// Every row of `s.filter(keep)` is a row of `s`.
pub proof fn lemma_filter_rows<T>(s: Seq<T>, keep: spec_fn(T) -> bool, i: int)
    requires
        0 <= i < s.filter(keep).len(),
    ensures
        exists|j: int| 0 <= j < s.len() && s[j] == #[trigger] s.filter(keep)[i],
        keep(s.filter(keep)[i]),
{
    assert(s.filter(keep).contains(s.filter(keep)[i]));
    s.lemma_filter_contains_rev(keep, s.filter(keep)[i]);
}

/// The index of the first element of `v` that `f` accepts; `f` decides as `p` does.
pub(crate) fn find_first<T, F: Fn(&T) -> bool>(v: &Vec<T>, f: F, Ghost(p): Ghost<spec_fn(T) -> bool>) -> (r: Option<usize>)
    requires
        forall|t: &T| #[trigger] f.requires((t,)),
        forall|t: &T, b: bool| f.ensures((t,), b) ==> b == p(*t),
    ensures
        r is Some ==> first_match(v@, p) == Some(r->0 as int),
        r is None ==> first_match(v@, p) is None,
{
    let mut i: usize = 0;
    while i < v.len()
        invariant
            0 <= i <= v@.len(),
            forall|j: int| 0 <= j < i ==> !#[trigger] p(v@[j]),
            forall|t: &T| #[trigger] f.requires((t,)),
            forall|t: &T, b: bool| f.ensures((t,), b) ==> b == p(*t),
        decreases v@.len() - i,
    {
        if f(&v[i]) {
            proof {
                assert(is_first_match(v@, p, i as int));
                let k = choose|k: int| is_first_match(v@, p, k);
                if k < i {
                    assert(!p(v@[k]));
                }
                if k > i {
                    assert(!p(v@[i as int]));
                }
            }
            return Some(i);
        }
        i = i + 1;
    }
    proof {
        if exists|k: int| is_first_match(v@, p, k) {
            let k = choose|k: int| is_first_match(v@, p, k);
            assert(p(v@[k]));
        }
    }
    None
}

/// Keeps the elements of `v` that `f` accepts, in their order; `f` decides as `keep` does.
/// Returns how many were removed.
pub(crate) fn remove_where<T, F: Fn(&T) -> bool>(v: &mut Vec<T>, f: F, Ghost(keep): Ghost<spec_fn(T) -> bool>) -> (removed: usize)
    requires
        forall|t: &T| #[trigger] f.requires((t,)),
        forall|t: &T, b: bool| f.ensures((t,), b) ==> b == keep(*t),
    ensures
        final(v)@ == old(v)@.filter(keep),
        removed == old(v)@.len() - final(v)@.len(),
        removed == 0 <==> forall|j: int| 0 <= j < old(v)@.len() ==> #[trigger] keep(old(v)@[j]),
{
    let ghost o = v@;
    let n = v.len();
    let ghost mut k: int = 0;
    let mut i: usize = 0;
    let mut removed: usize = 0;
    assert(o.take(0).filter(keep) =~= Seq::<T>::empty()) by {
        reveal(Seq::filter);
    }
    assert(o.skip(0) =~= o);
    assert(v@ =~= o.take(0).filter(keep) + o.skip(0));
    while i < v.len()
        invariant
            0 <= k <= o.len(),
            o.len() == n,
            v@ == o.take(k).filter(keep) + o.skip(k),
            i as int == o.take(k).filter(keep).len(),
            removed as int == k - i,
            (removed == 0) <==> (forall|j: int| 0 <= j < k ==> #[trigger] keep(o[j])),
            forall|t: &T| #[trigger] f.requires((t,)),
            forall|t: &T, b: bool| f.ensures((t,), b) ==> b == keep(*t),
        decreases v@.len() - i,
    {
        let ghost a = o.take(k).filter(keep);
        assert(o.take(k + 1) =~= o.take(k).push(o[k]));
        assert(o.skip(k) =~= seq![o[k]] + o.skip(k + 1));
        assert(v@[i as int] == o[k]);
        proof {
            o.take(k).lemma_filter_push(o[k], keep);
        }
        if f(&v[i]) {
            assert(a.push(o[k]) + o.skip(k + 1) =~= a + o.skip(k));
            i = i + 1;
        } else {
            v.remove(i);
            assert(v@ =~= a + o.skip(k + 1));
            removed = removed + 1;
        }
        proof {
            k = k + 1;
        }
    }
    assert(k == o.len());
    assert(o.take(k) =~= o);
    assert(o.skip(k) =~= Seq::<T>::empty());
    assert(v@ =~= o.filter(keep));
    removed
}

/// The key of `permissions`.
pub open spec fn permission_key() -> spec_fn(Permission) -> Seq<char> {
    |p: Permission| p.name@
}

/// The key of `groups`.
pub open spec fn group_key() -> spec_fn(GroupRecord) -> Seq<char> {
    |g: GroupRecord| g.name@
}

/// The key of `groups_permissions`: a group holds a permission at most once.
pub open spec fn grant_key() -> spec_fn(Grant) -> (Seq<char>, Seq<char>) {
    |g: Grant| (g.group_name@, g.permission_name@)
}

/// The key of `users_groups`: a user is a member of a group at most once.
pub open spec fn membership_key() -> spec_fn(Membership) -> (Seq<char>, Seq<char>) {
    |m: Membership| (m.user_login@, m.group_name@)
}

/// The key of `users`.
pub open spec fn user_key() -> spec_fn(User) -> Seq<char> {
    |u: User| u.login@
}

/// The identifier of a login session.
pub open spec fn session_id_key() -> spec_fn(LoginSession) -> int {
    |s: LoginSession| s.id as int
}

/// The token of a login session.
pub open spec fn session_token_key() -> spec_fn(LoginSession) -> Seq<char> {
    |s: LoginSession| s.token@
}

pub open spec fn register_event_id() -> spec_fn(UserRegisterEvent) -> int {
    |e: UserRegisterEvent| e.view_id()
}

pub open spec fn login_event_id() -> spec_fn(UserLoginEvent) -> int {
    |e: UserLoginEvent| e.view_id()
}

pub open spec fn delete_event_id() -> spec_fn(UserDeleteEvent) -> int {
    |e: UserDeleteEvent| e.view_id()
}

pub proof fn lemma_filter_all<T>(s: Seq<T>, keep: spec_fn(T) -> bool)
    requires
        forall|i: int| 0 <= i < s.len() ==> #[trigger] keep(s[i]),
    ensures
        s.filter(keep) == s,
    decreases s.len(),
{
    reveal(Seq::filter);
    if s.len() > 0 {
        let rest = s.drop_last();
        assert forall|i: int| 0 <= i < rest.len() implies #[trigger] keep(rest[i]) by {
            assert(rest[i] == s[i]);
        }
        lemma_filter_all(rest, keep);
        assert(keep(s[s.len() - 1]));
        assert(rest.push(s.last()) =~= s);
    }
}

/// Whether no two elements of `v` have the same key; `same` compares keys as `key` does.
pub(crate) fn keys_unique<T, K, F: Fn(&T, &T) -> bool>(v: &Vec<T>, same: F, Ghost(key): Ghost<spec_fn(T) -> K>) -> (r: bool)
    requires
        forall|a: &T, b: &T| #[trigger] same.requires((a, b)),
        forall|a: &T, b: &T, x: bool| same.ensures((a, b), x) ==> x == (key(*a) == key(*b)),
    ensures
        r == unique_by(v@, key),
{
    let mut i: usize = 0;
    while i < v.len()
        invariant
            0 <= i <= v@.len(),
            forall|a: int, b: int| 0 <= a < i && 0 <= b < i && a != b ==> #[trigger] key(v@[a]) != #[trigger] key(v@[b]),
            forall|a: &T, b: &T| #[trigger] same.requires((a, b)),
            forall|a: &T, b: &T, x: bool| same.ensures((a, b), x) ==> x == (key(*a) == key(*b)),
        decreases v@.len() - i,
    {
        let mut j: usize = 0;
        while j < i
            invariant
                0 <= j <= i < v@.len(),
                forall|a: int, b: int| 0 <= a < i && 0 <= b < i && a != b ==> #[trigger] key(v@[a]) != #[trigger] key(v@[b]),
                forall|b: int| 0 <= b < j ==> key(v@[i as int]) != #[trigger] key(v@[b]),
                forall|a: &T, b: &T| #[trigger] same.requires((a, b)),
                forall|a: &T, b: &T, x: bool| same.ensures((a, b), x) ==> x == (key(*a) == key(*b)),
            decreases i - j,
        {
            if same(&v[j], &v[i]) {
                proof {
                    assert(key(v@[j as int]) == key(v@[i as int]));
                }
                return false;
            }
            j = j + 1;
        }
        i = i + 1;
    }
    true
}

/// Whether every identifier of `v` lies in `[1, bound)`; `id_of` reads them as `id` does.
pub(crate) fn ids_in_range<T, F: Fn(&T) -> i32>(v: &Vec<T>, id_of: F, Ghost(id): Ghost<spec_fn(T) -> int>, bound: i32) -> (r: bool)
    requires
        forall|a: &T| #[trigger] id_of.requires((a,)),
        forall|a: &T, x: i32| id_of.ensures((a,), x) ==> x as int == id(*a),
    ensures
        r == ids_below(v@, id, bound as int),
{
    let mut i: usize = 0;
    while i < v.len()
        invariant
            0 <= i <= v@.len(),
            forall|a: int| 0 <= a < i ==> 1 <= #[trigger] id(v@[a]) < bound,
            forall|a: &T| #[trigger] id_of.requires((a,)),
            forall|a: &T, x: i32| id_of.ensures((a,), x) ==> x as int == id(*a),
        decreases v@.len() - i,
    {
        let x = id_of(&v[i]);
        if x < 1 || x >= bound {
            return false;
        }
        i = i + 1;
    }
    true
}

/// Whether no identifier of `a` is an identifier of `b`.
pub(crate) fn ids_apart<T, U, F: Fn(&T) -> i32, G: Fn(&U) -> i32>(
    a: &Vec<T>,
    id_a: F,
    Ghost(ida): Ghost<spec_fn(T) -> int>,
    b: &Vec<U>,
    id_b: G,
    Ghost(idb): Ghost<spec_fn(U) -> int>,
) -> (r: bool)
    requires
        forall|x: &T| #[trigger] id_a.requires((x,)),
        forall|x: &T, y: i32| id_a.ensures((x,), y) ==> y as int == ida(*x),
        forall|x: &U| #[trigger] id_b.requires((x,)),
        forall|x: &U, y: i32| id_b.ensures((x,), y) ==> y as int == idb(*x),
    ensures
        r == ids_disjoint(a@, ida, b@, idb),
{
    let mut i: usize = 0;
    while i < a.len()
        invariant
            0 <= i <= a@.len(),
            forall|p: int, q: int| 0 <= p < i && 0 <= q < b@.len() ==> #[trigger] ida(a@[p]) != #[trigger] idb(b@[q]),
            forall|x: &T| #[trigger] id_a.requires((x,)),
            forall|x: &T, y: i32| id_a.ensures((x,), y) ==> y as int == ida(*x),
            forall|x: &U| #[trigger] id_b.requires((x,)),
            forall|x: &U, y: i32| id_b.ensures((x,), y) ==> y as int == idb(*x),
        decreases a@.len() - i,
    {
        let x = id_a(&a[i]);
        let mut j: usize = 0;
        while j < b.len()
            invariant
                0 <= i < a@.len(),
                0 <= j <= b@.len(),
                x as int == ida(a@[i as int]),
                forall|p: int, q: int| 0 <= p < i && 0 <= q < b@.len() ==> #[trigger] ida(a@[p]) != #[trigger] idb(b@[q]),
                forall|q: int| 0 <= q < j ==> ida(a@[i as int]) != #[trigger] idb(b@[q]),
                forall|x: &U| #[trigger] id_b.requires((x,)),
                forall|x: &U, y: i32| id_b.ensures((x,), y) ==> y as int == idb(*x),
            decreases b@.len() - j,
        {
            if id_b(&b[j]) == x {
                return false;
            }
            j = j + 1;
        }
        proof {
            assert forall|p: int, q: int| 0 <= p < i + 1 && 0 <= q < b@.len() implies #[trigger] ida(a@[p])
                != #[trigger] idb(b@[q]) by {
                if p == i {
                    assert(ida(a@[i as int]) != idb(b@[q]));
                }
            }
        }
        i = i + 1;
    }
    true
}

impl DatabaseView {
    /// The invariants of the store.
    pub open spec fn wf(self) -> bool {
        &&& unique_by(self.permissions, permission_key())
        &&& unique_by(self.groups, group_key())
        &&& unique_by(self.groups_permissions, grant_key())
        &&& forall|i: int|
            0 <= i < self.groups_permissions.len() ==> #[trigger] self.has_group(
                self.groups_permissions[i].group_name@,
            )
        &&& unique_by(self.users, user_key())
        &&& unique_by(self.users_groups, membership_key())
        &&& forall|i: int|
            0 <= i < self.users_groups.len() ==> #[trigger] self.has_user(
                self.users_groups[i].user_login@,
            )
        &&& unique_by(self.login_sessions, session_id_key())
        &&& unique_by(self.login_sessions, session_token_key())
        &&& ids_below(self.login_sessions, session_id_key(), self.next_session_id)
        &&& forall|i: int|
            0 <= i < self.login_sessions.len() ==> #[trigger] self.has_user(
                self.login_sessions[i].user_login@,
            )
        &&& unique_by(self.user_register_events, register_event_id())
        &&& unique_by(self.user_login_events, login_event_id())
        &&& unique_by(self.user_delete_events, delete_event_id())
        &&& ids_below(self.user_register_events, register_event_id(), self.next_event_id)
        &&& ids_below(self.user_login_events, login_event_id(), self.next_event_id)
        &&& ids_below(self.user_delete_events, delete_event_id(), self.next_event_id)
        &&& ids_disjoint(self.user_register_events, register_event_id(), self.user_login_events, login_event_id())
        &&& ids_disjoint(self.user_register_events, register_event_id(), self.user_delete_events, delete_event_id())
        &&& ids_disjoint(self.user_login_events, login_event_id(), self.user_delete_events, delete_event_id())
        &&& 1 <= self.next_session_id <= MAX_ROW_ID
        &&& 1 <= self.next_event_id <= MAX_ROW_ID
    }
}

/// Changing only `permissions` keeps the invariants when names stay unique.
pub proof fn lemma_wf_permissions(before: DatabaseView, after: DatabaseView)
    requires
        before.wf(),
        after == (DatabaseView { permissions: after.permissions, ..before }),
        unique_by(after.permissions, permission_key()),
    ensures
        after.wf(),
{
    assert forall|i: int| 0 <= i < after.groups_permissions.len() implies #[trigger] after.has_group(
        after.groups_permissions[i].group_name@) by {
        assert(before.has_group(before.groups_permissions[i].group_name@));
    }
    assert forall|i: int| 0 <= i < after.users_groups.len() implies #[trigger] after.has_user(
        after.users_groups[i].user_login@) by {
        assert(before.has_user(before.users_groups[i].user_login@));
    }
    assert forall|i: int| 0 <= i < after.login_sessions.len() implies #[trigger] after.has_user(
        after.login_sessions[i].user_login@) by {
        assert(before.has_user(before.login_sessions[i].user_login@));
    }
}

/// Changing only `groups` and `groups_permissions` keeps the invariants when group
/// names stay unique and every grant names a group.
pub proof fn lemma_wf_groups(before: DatabaseView, after: DatabaseView)
    requires
        before.wf(),
        after == (DatabaseView { groups: after.groups, groups_permissions: after.groups_permissions, ..before }),
        unique_by(after.groups, group_key()),
        unique_by(after.groups_permissions, grant_key()),
        forall|i: int|
            0 <= i < after.groups_permissions.len() ==> #[trigger] after.has_group(
                after.groups_permissions[i].group_name@,
            ),
    ensures
        after.wf(),
{
    assert forall|i: int| 0 <= i < after.users_groups.len() implies #[trigger] after.has_user(
        after.users_groups[i].user_login@) by {
        assert(before.has_user(before.users_groups[i].user_login@));
    }
    assert forall|i: int| 0 <= i < after.login_sessions.len() implies #[trigger] after.has_user(
        after.login_sessions[i].user_login@) by {
        assert(before.has_user(before.login_sessions[i].user_login@));
    }
}

/// Changing only the users, their memberships and their sessions keeps the
/// invariants when what they state of those relations holds afterwards.
pub proof fn lemma_wf_accounts(before: DatabaseView, after: DatabaseView)
    requires
        before.wf(),
        after == (DatabaseView {
            users: after.users,
            users_groups: after.users_groups,
            login_sessions: after.login_sessions,
            next_session_id: after.next_session_id,
            ..before
        }),
        unique_by(after.users, user_key()),
        unique_by(after.users_groups, membership_key()),
        forall|i: int|
            0 <= i < after.users_groups.len() ==> #[trigger] after.has_user(
                after.users_groups[i].user_login@,
            ),
        unique_by(after.login_sessions, session_id_key()),
        unique_by(after.login_sessions, session_token_key()),
        ids_below(after.login_sessions, session_id_key(), after.next_session_id),
        forall|i: int|
            0 <= i < after.login_sessions.len() ==> #[trigger] after.has_user(
                after.login_sessions[i].user_login@,
            ),
        1 <= after.next_session_id <= MAX_ROW_ID,
    ensures
        after.wf(),
{
    assert forall|i: int| 0 <= i < after.groups_permissions.len() implies #[trigger] after.has_group(
        after.groups_permissions[i].group_name@) by {
        assert(before.has_group(before.groups_permissions[i].group_name@));
    }
}

/// Changing only the staged events keeps the invariants when their identifiers stay
/// unique, below the next identifier, and apart across the three relations.
pub proof fn lemma_wf_events(before: DatabaseView, after: DatabaseView)
    requires
        before.wf(),
        after == (DatabaseView {
            user_register_events: after.user_register_events,
            user_login_events: after.user_login_events,
            user_delete_events: after.user_delete_events,
            next_event_id: after.next_event_id,
            ..before
        }),
        unique_by(after.user_register_events, register_event_id()),
        unique_by(after.user_login_events, login_event_id()),
        unique_by(after.user_delete_events, delete_event_id()),
        ids_below(after.user_register_events, register_event_id(), after.next_event_id),
        ids_below(after.user_login_events, login_event_id(), after.next_event_id),
        ids_below(after.user_delete_events, delete_event_id(), after.next_event_id),
        ids_disjoint(after.user_register_events, register_event_id(), after.user_login_events, login_event_id()),
        ids_disjoint(after.user_register_events, register_event_id(), after.user_delete_events, delete_event_id()),
        ids_disjoint(after.user_login_events, login_event_id(), after.user_delete_events, delete_event_id()),
        1 <= after.next_event_id <= MAX_ROW_ID,
    ensures
        after.wf(),
{
    assert forall|i: int| 0 <= i < after.groups_permissions.len() implies #[trigger] after.has_group(
        after.groups_permissions[i].group_name@) by {
        assert(before.has_group(before.groups_permissions[i].group_name@));
    }
    assert forall|i: int| 0 <= i < after.users_groups.len() implies #[trigger] after.has_user(
        after.users_groups[i].user_login@) by {
        assert(before.has_user(before.users_groups[i].user_login@));
    }
    assert forall|i: int| 0 <= i < after.login_sessions.len() implies #[trigger] after.has_user(
        after.login_sessions[i].user_login@) by {
        assert(before.has_user(before.login_sessions[i].user_login@));
    }
}

impl Database {
    /// An empty store.
    pub fn new() -> (r: Database)
        ensures
            r@.wf(),
            r@.permissions.len() == 0,
            r@.groups.len() == 0,
            r@.groups_permissions.len() == 0,
            r@.users.len() == 0,
            r@.users_groups.len() == 0,
            r@.login_sessions.len() == 0,
            r@.user_register_events.len() == 0,
            r@.user_login_events.len() == 0,
            r@.user_delete_events.len() == 0,
            r@.next_session_id == 1,
            r@.next_event_id == 1,
    {
        Database {
            permissions: Vec::new(),
            groups: Vec::new(),
            groups_permissions: Vec::new(),
            users: Vec::new(),
            users_groups: Vec::new(),
            login_sessions: Vec::new(),
            user_register_events: Vec::new(),
            user_login_events: Vec::new(),
            user_delete_events: Vec::new(),
            next_session_id: 1,
            next_event_id: 1,
        }
    }
}

} // verus!
