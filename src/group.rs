use vstd::prelude::*;
use vstd::string::StrSliceExecFns;

use crate::listing::{lemma_sorted_page_names, sorted_page, sorted_page_of, texts, Order};

use crate::database::{any_row, find_first, first_match, grant_key, group_key, lemma_filter_unique, lemma_first_match_none, lemma_push_unique, lemma_wf_groups, remove_where, Database, DatabaseView};
use crate::permission::{find_permission, permission_named, MAX_DESCRIPTION_LEN, MAX_NAME_LEN};

verus! {

broadcast use vstd::seq_lib::group_filter_ensures;

/// A named set of permissions, as `Group::retrieve` hands it out.
#[derive(Clone, Debug, PartialEq, Eq)]
pub struct Group {
    pub name: String,
    pub description: String,
    pub permissions: Vec<String>,
}

/// A row of the `groups` relation.
#[derive(Clone, Debug, PartialEq, Eq)]
pub struct GroupRecord {
    pub name: String,
    pub description: String,
}

/// A row of the `groups_permissions` relation: the group holds the permission.
#[derive(Clone, Debug, PartialEq, Eq)]
pub struct Grant {
    pub group_name: String,
    pub permission_name: String,
}

#[derive(Clone, Copy, Debug, PartialEq, Eq)]
pub enum GroupRetrieveError {
    /// No group has the name.
    NotFound,
}

#[derive(Clone, Copy, Debug, PartialEq, Eq)]
pub enum GroupInsertError {
    /// A group with the name exists, or the name or the description is too long.
    NameError,
    /// One of the listed permissions does not exist.
    PermissionNotFound,
}

#[derive(Clone, Copy, Debug, PartialEq, Eq)]
pub enum GroupDeleteError {
    /// No group has the name.
    NotFound,
}

#[derive(Clone, Copy, Debug, PartialEq, Eq)]
pub enum GroupGrantError {
    /// No group has the name.
    NotFound,
    /// No permission has the name.
    PermissionNotFound,
}

#[derive(Clone, Copy, Debug, PartialEq, Eq)]
pub enum GroupRevokeError {
    /// No group has the name.
    NotFound,
    /// No permission has the name.
    PermissionNotFound,
    /// The group does not hold the permission.
    PermissionNotGranted,
}

/// Selects the group named `name`.
pub open spec fn group_named(name: Seq<char>) -> spec_fn(GroupRecord) -> bool {
    |g: GroupRecord| g.name@ == name
}

/// Selects every group but the one named `name`.
pub open spec fn group_not_named(name: Seq<char>) -> spec_fn(GroupRecord) -> bool {
    |g: GroupRecord| g.name@ != name
}

/// Selects the grants of the group named `name`.
pub open spec fn grant_of_group(name: Seq<char>) -> spec_fn(Grant) -> bool {
    |g: Grant| g.group_name@ == name
}

/// Selects the grants of every group but the one named `name`.
pub open spec fn grant_not_of_group(name: Seq<char>) -> spec_fn(Grant) -> bool {
    |g: Grant| g.group_name@ != name
}

/// Selects the grant of `permission` to `group`.
pub open spec fn grant_is(group: Seq<char>, permission: Seq<char>) -> spec_fn(Grant) -> bool {
    |g: Grant| g.group_name@ == group && g.permission_name@ == permission
}

/// Selects every grant but that of `permission` to `group`.
pub open spec fn grant_is_not(group: Seq<char>, permission: Seq<char>) -> spec_fn(Grant) -> bool {
    |g: Grant| !(g.group_name@ == group && g.permission_name@ == permission)
}

/// The name of the permission that a grant gives.
pub open spec fn grant_permission_name() -> spec_fn(Grant) -> String {
    |g: Grant| g.permission_name
}

/// `grants` after granting each of `names` to `group` in turn; a grant that is
/// already there is not added again.
pub open spec fn added_grants(grants: Seq<Grant>, group: String, names: Seq<String>) -> Seq<Grant>
    decreases names.len(),
{
    if names.len() == 0 {
        grants
    } else {
        let before = added_grants(grants, group, names.drop_last());
        if any_row(before, grant_is(group@, names.last()@)) {
            before
        } else {
            before.push(Grant { group_name: group, permission_name: names.last() })
        }
    }
}

impl DatabaseView {
    /// `g` is the group named `name`, with the names of the permissions it holds.
    pub open spec fn describes_group(self, name: Seq<char>, g: Group) -> bool {
        match self.group(name) {
            Some(row) => g.name == row.name && g.description == row.description && g.permissions@
                == self.granted_permissions(name),
            None => false,
        }
    }

    /// The names of the groups, in insertion order.
    pub open spec fn group_names(self) -> Seq<Seq<char>> {
        self.groups.map_values(|g: GroupRecord| g.name@)
    }

    pub open spec fn has_group(self, name: Seq<char>) -> bool {
        any_row(self.groups, group_named(name))
    }

    /// The row of the group named `name`, if there is one.
    pub open spec fn group(self, name: Seq<char>) -> Option<GroupRecord> {
        match first_match(self.groups, group_named(name)) {
            Some(i) => Some(self.groups[i]),
            None => None,
        }
    }

    /// The names of the permissions granted to the group named `name`, in the order of granting.
    pub open spec fn granted_permissions(self, name: Seq<char>) -> Seq<String> {
        self.groups_permissions.filter(grant_of_group(name)).map_values(grant_permission_name())
    }

    /// The group named `group` holds the permission named `permission`.
    pub open spec fn has_grant(self, group: Seq<char>, permission: Seq<char>) -> bool {
        any_row(self.groups_permissions, grant_is(group, permission))
    }

    /// Whether the name or the description of a new group is refused.
    pub open spec fn group_insert_name_refused(self, name: Seq<char>, description: Seq<char>) -> bool {
        ||| self.has_group(name)
        ||| name.len() > MAX_NAME_LEN
        ||| description.len() > MAX_DESCRIPTION_LEN
    }

    /// Every one of `names` is the name of a permission.
    pub open spec fn all_permissions_exist(self, names: Seq<String>) -> bool {
        forall|i: int| 0 <= i < names.len() ==> #[trigger] self.has_permission_row(names[i]@)
    }

    /// The store with the group `g` added and granted each of `names`.
    pub open spec fn with_group(self, g: GroupRecord, names: Seq<String>) -> DatabaseView {
        DatabaseView {
            groups: self.groups.push(g),
            groups_permissions: added_grants(self.groups_permissions, g.name, names),
            ..self
        }
    }

    /// The store after granting `permission` to `group`; nothing changes when the grant exists.
    pub open spec fn with_grant(self, group: String, permission: String) -> DatabaseView {
        if self.has_grant(group@, permission@) {
            self
        } else {
            DatabaseView {
                groups_permissions: self.groups_permissions.push(
                    Grant { group_name: group, permission_name: permission },
                ),
                ..self
            }
        }
    }

    /// The store without the grant of `permission` to `group`.
    pub open spec fn without_grant(self, group: Seq<char>, permission: Seq<char>) -> DatabaseView {
        DatabaseView {
            groups_permissions: self.groups_permissions.filter(grant_is_not(group, permission)),
            ..self
        }
    }

    /// The store without the group named `name` and its grants.
    pub open spec fn without_group(self, name: Seq<char>) -> DatabaseView {
        DatabaseView {
            groups: self.groups.filter(group_not_named(name)),
            groups_permissions: self.groups_permissions.filter(grant_not_of_group(name)),
            ..self
        }
    }
}

/// Under the invariants, a group holds each permission once.
pub proof fn lemma_granted_distinct(db: DatabaseView, name: Seq<char>)
    requires
        db.wf(),
    ensures
        forall|i: int, j: int|
            0 <= i < db.granted_permissions(name).len() && 0 <= j < db.granted_permissions(name).len() && i != j
                ==> #[trigger] db.granted_permissions(name)[i]@ != #[trigger] db.granted_permissions(name)[j]@,
{
    let f = db.groups_permissions.filter(grant_of_group(name));
    lemma_filter_unique(db.groups_permissions, grant_key(), grant_of_group(name));
    let p = db.granted_permissions(name);
    assert forall|i: int, j: int| 0 <= i < p.len() && 0 <= j < p.len() && i != j implies #[trigger] p[i]@
        != #[trigger] p[j]@ by {
        assert(grant_of_group(name)(f[i]));
        assert(grant_of_group(name)(f[j]));
        assert(grant_key()(f[i]) != grant_key()(f[j]));
        assert(p[i] == f[i].permission_name && p[j] == f[j].permission_name);
    }
}

/// Finds the group named `name` in `conn`.
pub(crate) fn find_group(conn: &Database, name: &String) -> (r: Option<usize>)
    ensures
        r is Some ==> first_match(conn@.groups, group_named(name@)) == Some(r->0 as int),
        r is None ==> first_match(conn@.groups, group_named(name@)) is None,
        r is Some <==> conn@.has_group(name@),
{
    let named = |g: &GroupRecord| -> (b: bool)
        ensures
            b == (g.name@ == name@),
    {
        g.name == *name
    };
    let r = find_first(&conn.groups, named, Ghost(group_named(name@)));
    proof {
        if r is Some {
            assert(group_named(name@)(conn@.groups[r->0 as int]));
        } else {
            lemma_first_match_none(conn@.groups, group_named(name@));
        }
    }
    r
}

/// Whether the group named `group` holds the permission named `permission`.
pub(crate) fn find_grant(conn: &Database, group: &String, permission: &String) -> (r: bool)
    ensures
        r == conn@.has_grant(group@, permission@),
{
    let is = |g: &Grant| -> (b: bool)
        ensures
            b == (g.group_name@ == group@ && g.permission_name@ == permission@),
    {
        g.group_name == *group && g.permission_name == *permission
    };
    let r = find_first(&conn.groups_permissions, is, Ghost(grant_is(group@, permission@)));
    proof {
        if r is Some {
            assert(grant_is(group@, permission@)(conn@.groups_permissions[r->0 as int]));
        } else {
            lemma_first_match_none(conn@.groups_permissions, grant_is(group@, permission@));
        }
    }
    r.is_some()
}

/// Grants `permission` to the existing group `group`, unless it holds it already.
fn add_grant(conn: &mut Database, group: &String, permission: &String)
    requires
        old(conn)@.wf(),
        old(conn)@.has_group(group@),
    ensures
        final(conn)@.wf(),
        final(conn)@ == old(conn)@.with_grant(*group, *permission),
{
    if find_grant(conn, group, permission) {
        return;
    }
    let ghost before = conn@;
    conn.groups_permissions.push(Grant { group_name: group.clone(), permission_name: permission.clone() });
    proof {
        let gp = conn@.groups_permissions;
        assert forall|i: int| 0 <= i < gp.len() implies #[trigger] conn@.has_group(gp[i].group_name@) by {
            if i < before.groups_permissions.len() {
                assert(gp[i] == before.groups_permissions[i]);
                assert(before.has_group(before.groups_permissions[i].group_name@));
            }
        }
        assert(conn@ =~= before.with_grant(*group, *permission));
        let row = Grant { group_name: *group, permission_name: *permission };
        assert forall|i: int| 0 <= i < before.groups_permissions.len() implies #[trigger] grant_key()(
            before.groups_permissions[i]) != grant_key()(row) by {
            assert(!grant_is(group@, permission@)(before.groups_permissions[i]));
        }
        lemma_push_unique(before.groups_permissions, grant_key(), row);
        lemma_wf_groups(before, conn@);
    }
}

impl Group {
    /// The group named `name`, with the names of the permissions it holds.
    pub fn retrieve(conn: &Database, name: &String) -> (r: Result<Group, GroupRetrieveError>)
        ensures
            match conn@.group(name@) {
                Some(g) => r matches Ok(found) && found.name == g.name && found.description == g.description
                    && found.permissions@ == conn@.granted_permissions(name@),
                None => r == Err::<Group, GroupRetrieveError>(GroupRetrieveError::NotFound),
            },
            conn@.wf() && r is Ok ==> forall|i: int, j: int|
                0 <= i < r->Ok_0.permissions@.len() && 0 <= j < r->Ok_0.permissions@.len() && i != j
                    ==> #[trigger] r->Ok_0.permissions@[i]@ != #[trigger] r->Ok_0.permissions@[j]@,
    {
        let i = match find_group(conn, name) {
            Some(i) => i,
            None => return Err(GroupRetrieveError::NotFound),
        };
        let ghost gp = conn@.groups_permissions;
        let mut permissions: Vec<String> = Vec::new();
        let mut k: usize = 0;
        while k < conn.groups_permissions.len()
            invariant
                0 <= k <= gp.len(),
                gp == conn@.groups_permissions,
                permissions@ == gp.take(k as int).filter(grant_of_group(name@)).map_values(grant_permission_name()),
            decreases gp.len() - k,
        {
            proof {
                assert(gp.take(k + 1) =~= gp.take(k as int).push(gp[k as int]));
                gp.take(k as int).lemma_filter_push(gp[k as int], grant_of_group(name@));
            }
            if conn.groups_permissions[k].group_name == *name {
                let ghost prev = permissions@;
                permissions.push(conn.groups_permissions[k].permission_name.clone());
                proof {
                    let f = gp.take(k as int).filter(grant_of_group(name@));
                    assert(f.push(gp[k as int]).map_values(grant_permission_name()) =~= f.map_values(
                        grant_permission_name(),
                    ).push(gp[k as int].permission_name));
                }
            }
            k = k + 1;
        }
        proof {
            assert(gp.take(gp.len() as int) =~= gp);
        }
        proof {
            if conn@.wf() {
                lemma_granted_distinct(conn@, name@);
                let p = conn@.granted_permissions(name@);
                assert(permissions@ == p);
                assert forall|a: int, b: int| 0 <= a < permissions@.len() && 0 <= b < permissions@.len() && a != b
                    implies #[trigger] permissions@[a]@ != #[trigger] permissions@[b]@ by {
                    assert(p[a]@ != p[b]@);
                }
            }
        }
        let row = &conn.groups[i];
        Ok(Group { name: row.name.clone(), description: row.description.clone(), permissions })
    }

    /// A page of the groups sorted by name, each with the names of the permissions it holds: in `order` (ascending when absent), from
    /// `offset` (0 when absent), at most `limit` of them (`DEFAULT_LIMIT` when absent).
    pub fn list(conn: &Database, order: Option<Order>, offset: Option<usize>, limit: Option<usize>) -> (r: Vec<Group>)
        ensures
            r@.len() == sorted_page(conn@.group_names(), order, offset, limit).len(),
            forall|k: int| 0 <= k < r@.len() ==> conn@.describes_group(
                sorted_page(conn@.group_names(), order, offset, limit)[k],
                #[trigger] r@[k],
            ),
    {
        let ghost all = conn@.group_names();
        let mut names: Vec<String> = Vec::new();
        let mut i: usize = 0;
        while i < conn.groups.len()
            invariant
                0 <= i <= conn@.groups.len(),
                all == conn@.group_names(),
                texts(names@) =~= all.subrange(0, i as int),
            decreases conn@.groups.len() - i,
        {
            let ghost before = names@;
            names.push(conn.groups[i].name.clone());
            proof {
                assert(texts(names@) =~= texts(before).push(all[i as int]));
                assert(all.subrange(0, i + 1) =~= all.subrange(0, i as int).push(all[i as int]));
            }
            i = i + 1;
        }
        proof {
            assert(all.subrange(0, i as int) =~= all);
        }
        let ghost page_names = sorted_page(all, order, offset, limit);
        let selected = sorted_page_of(names, order, offset, limit);
        proof {
            lemma_sorted_page_names(all, order, offset, limit);
        }
        let mut out: Vec<Group> = Vec::new();
        let mut k: usize = 0;
        while k < selected.len()
            invariant
                0 <= k <= selected@.len(),
                all == conn@.group_names(),
                texts(selected@) == page_names,
                page_names == sorted_page(all, order, offset, limit),
                forall|m: int| 0 <= m < page_names.len() ==> all.contains(#[trigger] page_names[m]),
                out@.len() == k,
                forall|m: int| 0 <= m < k ==> conn@.describes_group(page_names[m], #[trigger] out@[m]),
            decreases selected@.len() - k,
        {
            proof {
                assert(all.contains(page_names[k as int]));
                let j = choose|j: int| 0 <= j < all.len() && all[j] == page_names[k as int];
                assert(group_named(selected@[k as int]@)(conn@.groups[j]));
            }
            match Group::retrieve(conn, &selected[k]) {
                Ok(p) => {
                    let ghost before = out@;
                    proof {
                        assert(selected@[k as int]@ == page_names[k as int]);
                        assert(conn@.group(page_names[k as int]) is Some);
                    }
                    out.push(p);
                    proof {
                        assert forall|m: int| 0 <= m < k + 1 implies conn@.describes_group(page_names[m], #[trigger] out@[m]) by {
                            if m < k {
                                assert(out@[m] == before[m]);
                            }
                        }
                    }
                },
                Err(_) => {
                    proof {
                        lemma_first_match_none(conn@.groups, group_named(selected@[k as int]@));
                    }
                    return out;
                },
            }
            k = k + 1;
        }
        out
    }

    /// Adds a group and grants it each of `permissions`, all or nothing. The name must be
    /// new and short enough, and every listed permission must exist.
    pub fn insert(conn: &mut Database, name: &String, description: &String, permissions: &Vec<String>) -> (r: Result<(), GroupInsertError>)
        requires
            old(conn)@.wf(),
        ensures
            final(conn)@.wf(),
            old(conn)@.group_insert_name_refused(name@, description@) ==> r == Err::<(), GroupInsertError>(
                GroupInsertError::NameError,
            ) && final(conn)@ == old(conn)@,
            !old(conn)@.group_insert_name_refused(name@, description@) && !old(conn)@.all_permissions_exist(permissions@)
                ==> r == Err::<(), GroupInsertError>(GroupInsertError::PermissionNotFound) && final(conn)@ == old(conn)@,
            !old(conn)@.group_insert_name_refused(name@, description@) && old(conn)@.all_permissions_exist(permissions@)
                ==> r is Ok && final(conn)@ == old(conn)@.with_group(
                GroupRecord { name: *name, description: *description },
                permissions@,
            ),
            final(conn)@.has_group(name@) == (old(conn)@.has_group(name@) || r is Ok),
    {
        if name.as_str().unicode_len() > MAX_NAME_LEN || description.as_str().unicode_len() > MAX_DESCRIPTION_LEN {
            return Err(GroupInsertError::NameError);
        }
        if find_group(conn, name).is_some() {
            return Err(GroupInsertError::NameError);
        }
        let mut i: usize = 0;
        while i < permissions.len()
            invariant
                0 <= i <= permissions@.len(),
                conn@ == old(conn)@,
                conn@.wf(),
                !conn@.group_insert_name_refused(name@, description@),
                forall|j: int| 0 <= j < i ==> #[trigger] conn@.has_permission_row(permissions@[j]@),
            decreases permissions@.len() - i,
        {
            match find_permission(conn, &permissions[i]) {
                Some(k) => {
                    proof {
                        assert(permission_named(permissions@[i as int]@)(conn@.permissions[k as int]));
                    }
                },
                None => {
                    proof {
                        lemma_first_match_none(conn@.permissions, permission_named(permissions@[i as int]@));
                        assert(!conn@.has_permission_row(permissions@[i as int]@));
                    }
                    return Err(GroupInsertError::PermissionNotFound);
                },
            }
            i = i + 1;
        }
        let ghost before = conn@;
        let record = GroupRecord { name: name.clone(), description: description.clone() };
        conn.groups.push(record);
        proof {
            assert forall|j: int| 0 <= j < before.groups.len() implies #[trigger] before.groups[j].name@
                != name@ by {
                assert(!group_named(name@)(before.groups[j]));
            }
            lemma_push_unique(before.groups, group_key(), GroupRecord { name: *name, description: *description });
            let gp = conn@.groups_permissions;
            assert forall|j: int| 0 <= j < gp.len() implies #[trigger] conn@.has_group(gp[j].group_name@) by {
                let g = gp[j].group_name@;
                assert(before.has_group(g));
                let m = choose|m: int| 0 <= m < before.groups.len() && #[trigger] group_named(g)(before.groups[m]);
                assert(group_named(g)(conn@.groups[m]));
            }
            lemma_wf_groups(before, conn@);
            assert(group_named(name@)(conn@.groups[conn@.groups.len() - 1]));
            assert(permissions@.take(0) =~= Seq::<String>::empty());
        }
        let mut i: usize = 0;
        while i < permissions.len()
            invariant
                0 <= i <= permissions@.len(),
                conn@.wf(),
                conn@.has_group(name@),
                conn@ == (DatabaseView {
                    groups: before.groups.push(GroupRecord { name: *name, description: *description }),
                    groups_permissions: added_grants(before.groups_permissions, *name, permissions@.take(i as int)),
                    ..before
                }),
            decreases permissions@.len() - i,
        {
            add_grant(conn, name, &permissions[i]);
            proof {
                assert(permissions@.take(i + 1).drop_last() =~= permissions@.take(i as int));
            }
            i = i + 1;
        }
        proof {
            assert(permissions@.take(permissions@.len() as int) =~= permissions@);
        }
        Ok(())
    }

    /// Removes the group named `name` and all its grants.
    pub fn delete(conn: &mut Database, name: &String) -> (r: Result<(), GroupDeleteError>)
        requires
            old(conn)@.wf(),
        ensures
            final(conn)@.wf(),
            !old(conn)@.has_group(name@) ==> r == Err::<(), GroupDeleteError>(GroupDeleteError::NotFound)
                && final(conn)@ == old(conn)@,
            old(conn)@.has_group(name@) ==> r is Ok && final(conn)@ == old(conn)@.without_group(name@),
    {
        if find_group(conn, name).is_none() {
            return Err(GroupDeleteError::NotFound);
        }
        let ghost before = conn@;
        let not_of = |g: &Grant| -> (b: bool)
            ensures
                b == (g.group_name@ != name@),
        {
            !(g.group_name == *name)
        };
        remove_where(&mut conn.groups_permissions, not_of, Ghost(grant_not_of_group(name@)));
        proof {
            lemma_filter_unique(before.groups_permissions, grant_key(), grant_not_of_group(name@));
        }
        let not_named = |g: &GroupRecord| -> (b: bool)
            ensures
                b == (g.name@ != name@),
        {
            !(g.name == *name)
        };
        remove_where(&mut conn.groups, not_named, Ghost(group_not_named(name@)));
        proof {
            lemma_filter_unique(before.groups, group_key(), group_not_named(name@));
            let gp = conn@.groups_permissions;
            assert forall|j: int| 0 <= j < gp.len() implies #[trigger] conn@.has_group(gp[j].group_name@) by {
                crate::database::lemma_filter_rows(before.groups_permissions, grant_not_of_group(name@), j);
                let g = gp[j].group_name@;
                let o = choose|o: int| 0 <= o < before.groups_permissions.len() && before.groups_permissions[o] == gp[j];
                assert(before.has_group(before.groups_permissions[o].group_name@));
                let m = choose|m: int| 0 <= m < before.groups.len() && #[trigger] group_named(g)(before.groups[m]);
                assert(group_not_named(name@)(before.groups[m]));
                assert(conn@.groups.contains(before.groups[m]));
                let n = choose|n: int| 0 <= n < conn@.groups.len() && conn@.groups[n] == before.groups[m];
                assert(group_named(g)(conn@.groups[n]));
            }
            assert(conn@ =~= before.without_group(name@));
            lemma_wf_groups(before, conn@);
        }
        Ok(())
    }

    /// Whether the group named `name` holds the permission named `permission_name`.
    pub fn has_permission(conn: &Database, name: &String, permission_name: &String) -> (r: Result<bool, GroupRetrieveError>)
        ensures
            !conn@.has_group(name@) ==> r == Err::<bool, GroupRetrieveError>(GroupRetrieveError::NotFound),
            conn@.has_group(name@) ==> r == Ok::<bool, GroupRetrieveError>(conn@.has_grant(name@, permission_name@)),
    {
        if find_group(conn, name).is_none() {
            return Err(GroupRetrieveError::NotFound);
        }
        Ok(find_grant(conn, name, permission_name))
    }

    /// Grants the permission named `permission_name` to the group named `name`; granting a
    /// permission that the group holds changes nothing.
    pub fn grant_permission(conn: &mut Database, name: &String, permission_name: &String) -> (r: Result<(), GroupGrantError>)
        requires
            old(conn)@.wf(),
        ensures
            final(conn)@.wf(),
            !old(conn)@.has_permission_row(permission_name@) ==> r == Err::<(), GroupGrantError>(
                GroupGrantError::PermissionNotFound,
            ) && final(conn)@ == old(conn)@,
            old(conn)@.has_permission_row(permission_name@) && !old(conn)@.has_group(name@) ==> r == Err::<
                (),
                GroupGrantError,
            >(GroupGrantError::NotFound) && final(conn)@ == old(conn)@,
            old(conn)@.has_permission_row(permission_name@) && old(conn)@.has_group(name@) ==> r is Ok
                && final(conn)@ == old(conn)@.with_grant(*name, *permission_name),
    {
        match find_permission(conn, permission_name) {
            Some(k) => {
                proof {
                    assert(permission_named(permission_name@)(conn@.permissions[k as int]));
                }
            },
            None => {
                proof {
                    lemma_first_match_none(conn@.permissions, permission_named(permission_name@));
                }
                return Err(GroupGrantError::PermissionNotFound);
            },
        }
        if find_group(conn, name).is_none() {
            return Err(GroupGrantError::NotFound);
        }
        add_grant(conn, name, permission_name);
        Ok(())
    }

    /// Takes the permission named `permission_name` from the group named `name`.
    pub fn revoke_permission(conn: &mut Database, name: &String, permission_name: &String) -> (r: Result<(), GroupRevokeError>)
        requires
            old(conn)@.wf(),
        ensures
            final(conn)@.wf(),
            !old(conn)@.has_permission_row(permission_name@) ==> r == Err::<(), GroupRevokeError>(
                GroupRevokeError::PermissionNotFound,
            ) && final(conn)@ == old(conn)@,
            old(conn)@.has_permission_row(permission_name@) && !old(conn)@.has_group(name@) ==> r == Err::<
                (),
                GroupRevokeError,
            >(GroupRevokeError::NotFound) && final(conn)@ == old(conn)@,
            old(conn)@.has_permission_row(permission_name@) && old(conn)@.has_group(name@) && !old(
                conn,
            )@.has_grant(name@, permission_name@) ==> r == Err::<(), GroupRevokeError>(
                GroupRevokeError::PermissionNotGranted,
            ) && final(conn)@ == old(conn)@,
            old(conn)@.has_permission_row(permission_name@) && old(conn)@.has_group(name@) && old(
                conn,
            )@.has_grant(name@, permission_name@) ==> r is Ok && final(conn)@ == old(conn)@.without_grant(
                name@,
                permission_name@,
            ),
    {
        match find_permission(conn, permission_name) {
            Some(k) => {
                proof {
                    assert(permission_named(permission_name@)(conn@.permissions[k as int]));
                }
            },
            None => {
                proof {
                    lemma_first_match_none(conn@.permissions, permission_named(permission_name@));
                }
                return Err(GroupRevokeError::PermissionNotFound);
            },
        }
        if find_group(conn, name).is_none() {
            return Err(GroupRevokeError::NotFound);
        }
        if !find_grant(conn, name, permission_name) {
            return Err(GroupRevokeError::PermissionNotGranted);
        }
        let ghost before = conn@;
        let is_not = |g: &Grant| -> (b: bool)
            ensures
                b == !(g.group_name@ == name@ && g.permission_name@ == permission_name@),
        {
            !(g.group_name == *name && g.permission_name == *permission_name)
        };
        remove_where(&mut conn.groups_permissions, is_not, Ghost(grant_is_not(name@, permission_name@)));
        proof {
            lemma_filter_unique(before.groups_permissions, grant_key(), grant_is_not(name@, permission_name@));
        }
        proof {
            let gp = conn@.groups_permissions;
            assert forall|j: int| 0 <= j < gp.len() implies #[trigger] conn@.has_group(gp[j].group_name@) by {
                crate::database::lemma_filter_rows(before.groups_permissions, grant_is_not(name@, permission_name@), j);
                let o = choose|o: int| 0 <= o < before.groups_permissions.len() && before.groups_permissions[o] == gp[j];
                assert(before.has_group(before.groups_permissions[o].group_name@));
            }
            assert(conn@ =~= before.without_grant(name@, permission_name@));
            lemma_wf_groups(before, conn@);
        }
        Ok(())
    }
}

} // verus!
