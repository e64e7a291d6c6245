use vstd::prelude::*;
use vstd::string::StringExecFns;

use crate::database::{any_row, Database};
use crate::group::{added_grants, grant_is, Grant, Group};
use crate::permission::{Permission, MAX_DESCRIPTION_LEN, MAX_NAME_LEN};

verus! {

/// The names of the administrative permissions that every store starts with.
pub open spec fn default_permission_names() -> Seq<Seq<char>> {
    seq![
        "authoric:permissions:get"@,
        "authoric:permissions:post"@,
        "authoric:permissions:delete"@,
        "authoric:groups:get"@,
        "authoric:groups:post"@,
        "authoric:groups:delete"@,
        "authoric:groups:update"@,
        "authoric:users:update"@,
        "authoric:users:delete"@,
    ]
}

/// The name of the group that holds every administrative permission.
pub open spec fn root_group_name() -> Seq<char> {
    "root"@
}

/// Granting more names keeps every grant there was and holds a grant of each name.
proof fn lemma_added_grants(grants: Seq<Grant>, group: String, names: Seq<String>)
    ensures
        forall|i: int| 0 <= i < grants.len() ==> added_grants(grants, group, names).contains(#[trigger] grants[i]),
        forall|j: int| 0 <= j < names.len() ==> any_row(added_grants(grants, group, names), #[trigger] grant_is(group@, names[j]@)),
        forall|k: int|
            0 <= k < added_grants(grants, group, names).len() ==> grants.contains(
                #[trigger] added_grants(grants, group, names)[k],
            ) || (added_grants(grants, group, names)[k].group_name == group && exists|j: int|
                0 <= j < names.len() && added_grants(grants, group, names)[k].permission_name == names[j]),
    decreases names.len(),
{
    if names.len() > 0 {
        let rest = names.drop_last();
        lemma_added_grants(grants, group, rest);
        let before = added_grants(grants, group, rest);
        let after = added_grants(grants, group, names);
        assert forall|i: int| 0 <= i < grants.len() implies after.contains(#[trigger] grants[i]) by {
            assert(before.contains(grants[i]));
            let k = choose|k: int| 0 <= k < before.len() && before[k] == grants[i];
            assert(after[k] == before[k]);
        }
        assert forall|j: int| 0 <= j < names.len() implies any_row(after, #[trigger] grant_is(group@, names[j]@)) by {
            if j < rest.len() {
                assert(rest[j] == names[j]);
                assert(any_row(before, grant_is(group@, rest[j]@)));
                let k = choose|k: int| 0 <= k < before.len() && #[trigger] grant_is(group@, rest[j]@)(before[k]);
                assert(grant_is(group@, names[j]@)(after[k]));
            } else if !any_row(before, grant_is(group@, names.last()@)) {
                assert(grant_is(group@, names[j]@)(after[after.len() - 1]));
            }
        }
        assert forall|k: int| 0 <= k < after.len() implies grants.contains(#[trigger] after[k]) || (after[k].group_name
            == group && exists|j: int| 0 <= j < names.len() && after[k].permission_name == names[j]) by {
            if k < before.len() {
                assert(after[k] == before[k]);
                if !grants.contains(before[k]) {
                    let j = choose|j: int| 0 <= j < rest.len() && before[k].permission_name == rest[j];
                    assert(names[j] == rest[j]);
                }
            } else {
                assert(after[k].permission_name == names[names.len() - 1]);
            }
        }
    }
}

/// Inserts one permission unless one of its name exists.
fn seed_permission(conn: &mut Database, names: &mut Vec<String>, name: &str, description: &str)
    requires
        old(conn)@.wf(),
        name@.len() <= MAX_NAME_LEN,
        description@.len() <= MAX_DESCRIPTION_LEN,
    ensures
        final(conn)@.wf(),
        final(conn)@.has_permission_row(name@),
        final(names)@.len() == old(names)@.len() + 1,
        forall|j: int| 0 <= j < old(names)@.len() ==> final(names)@[j] == old(names)@[j],
        final(names)@[old(names)@.len() as int]@ == name@,
        final(conn)@.groups == old(conn)@.groups,
        final(conn)@.groups_permissions == old(conn)@.groups_permissions,
        forall|p: Seq<char>| old(conn)@.has_permission_row(p) ==> #[trigger] final(conn)@.has_permission_row(p),
        old(conn)@.has_permission_row(name@) ==> final(conn)@ == old(conn)@,
{
    let name = String::from_str(name);
    let description = String::from_str(description);
    let ghost before = conn@;
    let _ = Permission::insert(conn, &name, &description);
    proof {
        assert forall|p: Seq<char>| before.has_permission_row(p) implies #[trigger] conn@.has_permission_row(p) by {
            let i = choose|i: int| 0 <= i < before.permissions.len() && #[trigger] crate::permission::permission_named(p)(before.permissions[i]);
            assert(crate::permission::permission_named(p)(conn@.permissions[i]));
        }
        if !before.has_permission_row(name@) {
            let last = conn@.permissions.len() - 1;
            assert(crate::permission::permission_named(name@)(conn@.permissions[last]));
        }
    }
    names.push(name);
}

/// Seeds the administrative permissions and the `root` group that holds them all. Names
/// that exist already are left as they are, so running it again changes nothing.
pub fn init_defaults(conn: &mut Database)
    requires
        old(conn)@.wf(),
    ensures
        final(conn)@.wf(),
        forall|i: int| 0 <= i < default_permission_names().len() ==> #[trigger] final(conn)@.has_permission_row(
            default_permission_names()[i],
        ),
        final(conn)@.has_group(root_group_name()),
        !old(conn)@.has_group(root_group_name()) ==> forall|i: int|
            0 <= i < default_permission_names().len() ==> #[trigger] final(conn)@.has_grant(
                root_group_name(),
                default_permission_names()[i],
            ),
        forall|p: Seq<char>| old(conn)@.has_permission_row(p) ==> #[trigger] final(conn)@.has_permission_row(p),
        forall|g: Seq<char>| old(conn)@.has_group(g) ==> #[trigger] final(conn)@.has_group(g),
        !old(conn)@.has_group(root_group_name()) ==> forall|p: Seq<char>|
            #[trigger] final(conn)@.has_grant(root_group_name(), p) <==> default_permission_names().contains(p),
        old(conn)@.has_group(root_group_name()) && (forall|i: int|
            0 <= i < default_permission_names().len() ==> #[trigger] old(conn)@.has_permission_row(
                default_permission_names()[i],
            )) ==> final(conn)@ == old(conn)@,
{
    let ghost start = conn@;
    let mut names: Vec<String> = Vec::new();
    proof {
        reveal_strlit("authoric:permissions:get");
        reveal_strlit("permission to retrieve the permission list from the database");
        reveal_strlit("authoric:permissions:post");
        reveal_strlit("permission to post new permission to the database");
        reveal_strlit("authoric:permissions:delete");
        reveal_strlit("permission to delete a permission from the database");
        reveal_strlit("authoric:groups:get");
        reveal_strlit("permission to retrieve the groups list from the database");
        reveal_strlit("authoric:groups:post");
        reveal_strlit("permission to post new group to the database");
        reveal_strlit("authoric:groups:delete");
        reveal_strlit("permission to delete a group from the database");
        reveal_strlit("authoric:groups:update");
        reveal_strlit("permission to grant/revoke permissions to groups");
        reveal_strlit("authoric:users:update");
        reveal_strlit("permission to grant/revoke groups to users");
        reveal_strlit("authoric:users:delete");
        reveal_strlit("permission to delete ANY user on the service, use with caution.");
    }
    seed_permission(conn, &mut names, "authoric:permissions:get", "permission to retrieve the permission list from the database");
    seed_permission(conn, &mut names, "authoric:permissions:post", "permission to post new permission to the database");
    seed_permission(conn, &mut names, "authoric:permissions:delete", "permission to delete a permission from the database");
    seed_permission(conn, &mut names, "authoric:groups:get", "permission to retrieve the groups list from the database");
    seed_permission(conn, &mut names, "authoric:groups:post", "permission to post new group to the database");
    seed_permission(conn, &mut names, "authoric:groups:delete", "permission to delete a group from the database");
    seed_permission(conn, &mut names, "authoric:groups:update", "permission to grant/revoke permissions to groups");
    seed_permission(conn, &mut names, "authoric:users:update", "permission to grant/revoke groups to users");
    seed_permission(conn, &mut names, "authoric:users:delete", "permission to delete ANY user on the service, use with caution.");
    let ghost seeded = conn@;
    proof {
        if start.has_group(root_group_name()) && (forall|i: int|
            0 <= i < default_permission_names().len() ==> #[trigger] start.has_permission_row(
                default_permission_names()[i],
            )) {
            assert(start.has_permission_row(default_permission_names()[8]));
            assert(seeded == start);
        }
        assert(names@.len() == 9);
        assert forall|i: int| 0 <= i < default_permission_names().len() implies #[trigger] seeded.has_permission_row(
            default_permission_names()[i]) && names@[i]@ == default_permission_names()[i] by {
        }
        assert forall|g: Seq<char>| start.has_group(g) <==> seeded.has_group(g) by {}
        reveal_strlit("root");
        reveal_strlit("the most privileged group, having to permissions to do everything. Caution: do not grant this group to any untrusted user as it can result in damages done to your system. Instead, create their own group fitting their needs.");
    }
    let root = String::from_str("root");
    let description = String::from_str("the most privileged group, having to permissions to do everything. Caution: do not grant this group to any untrusted user as it can result in damages done to your system. Instead, create their own group fitting their needs.");
    let _ = Group::insert(conn, &root, &description, &names);
    proof {
        assert forall|p: Seq<char>| seeded.has_permission_row(p) implies #[trigger] conn@.has_permission_row(p) by {}
        assert forall|g: Seq<char>| seeded.has_group(g) implies #[trigger] conn@.has_group(g) by {
            let i = choose|i: int| 0 <= i < seeded.groups.len() && #[trigger] crate::group::group_named(g)(seeded.groups[i]);
            assert(crate::group::group_named(g)(conn@.groups[i]));
        }
        if !start.has_group(root_group_name()) {
            assert(seeded.all_permissions_exist(names@)) by {
                assert forall|i: int| 0 <= i < names@.len() implies #[trigger] seeded.has_permission_row(names@[i]@) by {
                    assert(names@[i]@ == default_permission_names()[i]);
                }
            }
            lemma_added_grants(seeded.groups_permissions, root, names@);
            assert(crate::group::group_named(root@)(conn@.groups[conn@.groups.len() - 1]));
            assert forall|i: int| 0 <= i < default_permission_names().len() implies #[trigger] conn@.has_grant(
                root_group_name(), default_permission_names()[i]) by {
                assert(names@[i]@ == default_permission_names()[i]);
                assert(any_row(conn@.groups_permissions, grant_is(root@, names@[i]@)));
            }
            assert forall|p: Seq<char>| #[trigger] conn@.has_grant(root_group_name(), p) implies default_permission_names().contains(p) by {
                let gp = conn@.groups_permissions;
                let k = choose|k: int| 0 <= k < gp.len() && #[trigger] grant_is(root_group_name(), p)(gp[k]);
                if seeded.groups_permissions.contains(gp[k]) {
                    let m = choose|m: int| 0 <= m < seeded.groups_permissions.len() && seeded.groups_permissions[m] == gp[k];
                    assert(seeded.has_group(seeded.groups_permissions[m].group_name@));
                } else {
                    let j = choose|j: int| 0 <= j < names@.len() && gp[k].permission_name == names@[j];
                    assert(names@[j]@ == default_permission_names()[j]);
                }
            }
            assert forall|p: Seq<char>| default_permission_names().contains(p) implies #[trigger] conn@.has_grant(root_group_name(), p) by {
                let j = choose|j: int| 0 <= j < default_permission_names().len() && default_permission_names()[j] == p;
                assert(conn@.has_grant(root_group_name(), default_permission_names()[j]));
            }
        }
    }
}

} // verus!
