use vstd::prelude::*;
use vstd::string::StrSliceExecFns;

use crate::listing::{lemma_sorted_page_names, sorted_page, sorted_page_of, texts, Order};

use crate::database::{lemma_first_match_none, any_row, lemma_wf_permissions, lemma_filter_all, lemma_filter_unique, lemma_push_unique, permission_key, find_first, first_match, remove_where, Database, DatabaseView};

verus! {

/// The longest name, in characters, that a permission, a group or a user may have.
pub const MAX_NAME_LEN: usize = 255;

/// The longest description, in characters, that a permission or a group may have.
pub const MAX_DESCRIPTION_LEN: usize = 3000;

/// A named capability.
#[derive(Clone, Debug, PartialEq, Eq)]
pub struct Permission {
    pub name: String,
    pub description: String,
}

#[derive(Clone, Copy, Debug, PartialEq, Eq)]
pub enum PermissionRetrieveError {
    /// No permission has the name.
    NotFound,
}

#[derive(Clone, Copy, Debug, PartialEq, Eq)]
pub enum PermissionInsertError {
    /// A permission with the name exists, or the name or the description is too long.
    NameError,
}

#[derive(Clone, Copy, Debug, PartialEq, Eq)]
pub enum PermissionDeleteError {
    /// No permission has the name.
    NotFound,
}

/// The handle through which permission changes are staged.
#[derive(Clone, Copy, Debug, PartialEq, Eq)]
pub struct PermissionEvent;

/// Selects the permission named `name`.
pub open spec fn permission_named(name: Seq<char>) -> spec_fn(Permission) -> bool {
    |p: Permission| p.name@ == name
}

/// Selects every permission but the one named `name`.
pub open spec fn permission_not_named(name: Seq<char>) -> spec_fn(Permission) -> bool {
    |p: Permission| p.name@ != name
}

impl DatabaseView {
    /// The names of the permissions, in insertion order.
    pub open spec fn permission_names(self) -> Seq<Seq<char>> {
        self.permissions.map_values(|p: Permission| p.name@)
    }

    pub open spec fn has_permission_row(self, name: Seq<char>) -> bool {
        any_row(self.permissions, permission_named(name))
    }

    /// The permission named `name`, if there is one.
    pub open spec fn permission(self, name: Seq<char>) -> Option<Permission> {
        match first_match(self.permissions, permission_named(name)) {
            Some(i) => Some(self.permissions[i]),
            None => None,
        }
    }

    /// Whether inserting a permission with this name and description is refused.
    pub open spec fn permission_insert_refused(self, name: Seq<char>, description: Seq<char>) -> bool {
        ||| self.has_permission_row(name)
        ||| name.len() > MAX_NAME_LEN
        ||| description.len() > MAX_DESCRIPTION_LEN
    }

    /// The store with `p` added to `permissions`.
    pub open spec fn with_permission(self, p: Permission) -> DatabaseView {
        DatabaseView { permissions: self.permissions.push(p), ..self }
    }

    /// The store without the permission named `name`.
    pub open spec fn without_permission(self, name: Seq<char>) -> DatabaseView {
        DatabaseView { permissions: self.permissions.filter(permission_not_named(name)), ..self }
    }
}

/// Finds the permission named `name` in `conn`.
pub(crate) fn find_permission(conn: &Database, name: &String) -> (r: Option<usize>)
    ensures
        r is Some ==> first_match(conn@.permissions, permission_named(name@)) == Some(r->0 as int),
        r is None ==> first_match(conn@.permissions, permission_named(name@)) is None,
{
    let named = |p: &Permission| -> (b: bool)
        ensures
            b == (p.name@ == name@),
    {
        p.name == *name
    };
    find_first(&conn.permissions, named, Ghost(permission_named(name@)))
}

impl Permission {
    /// The permission named `name`.
    pub fn retrieve(conn: &Database, name: &String) -> (r: Result<Permission, PermissionRetrieveError>)
        ensures
            r == match conn@.permission(name@) {
                Some(p) => Ok(p),
                None => Err(PermissionRetrieveError::NotFound),
            },
    {
        match find_permission(conn, name) {
            Some(i) => {
                let row = &conn.permissions[i];
                Ok(Permission { name: row.name.clone(), description: row.description.clone() })
            },
            None => Err(PermissionRetrieveError::NotFound),
        }
    }

    /// Adds a permission. The name must be new, at most `MAX_NAME_LEN` characters long,
    /// and the description at most `MAX_DESCRIPTION_LEN`.
    pub fn insert(conn: &mut Database, name: &String, description: &String) -> (r: Result<(), PermissionInsertError>)
        requires
            old(conn)@.wf(),
        ensures
            final(conn)@.wf(),
            old(conn)@.permission_insert_refused(name@, description@) ==> r == Err::<(), PermissionInsertError>(PermissionInsertError::NameError)
                && final(conn)@ == old(conn)@,
            !old(conn)@.permission_insert_refused(name@, description@) ==> r is Ok
                && final(conn)@ == old(conn)@.with_permission(Permission { name: *name, description: *description }),
            final(conn)@.has_permission_row(name@) == (old(conn)@.has_permission_row(name@) || r is Ok),
    {
        if name.as_str().unicode_len() > MAX_NAME_LEN || description.as_str().unicode_len() > MAX_DESCRIPTION_LEN {
            return Err(PermissionInsertError::NameError);
        }
        match find_permission(conn, name) {
            Some(i) => {
                proof {
                    assert(permission_named(name@)(conn@.permissions[i as int]));
                }
                Err(PermissionInsertError::NameError)
            },
            None => {
                proof {
                    crate::database::lemma_first_match_none(conn@.permissions, permission_named(name@));
                }
                let ghost before = conn@;
                conn.permissions.push(Permission { name: name.clone(), description: description.clone() });
                proof {
                    let row = Permission { name: *name, description: *description };
                    assert forall|i: int| 0 <= i < before.permissions.len() implies
                        #[trigger] before.permissions[i].name@ != row.name@ by {
                        assert(!permission_named(name@)(before.permissions[i]));
                    }
                    lemma_push_unique(before.permissions, permission_key(), row);
                    assert(conn@ =~= before.with_permission(Permission { name: *name, description: *description }));
                    lemma_wf_permissions(before, conn@);
                    assert(permission_named(name@)(conn@.permissions[conn@.permissions.len() - 1]));
                }
                Ok(())
            },
        }
    }

    /// Removes the permission named `name`. Grants of it to groups are left as they are.
    pub fn delete(conn: &mut Database, name: &String) -> (r: Result<(), PermissionDeleteError>)
        requires
            old(conn)@.wf(),
        ensures
            final(conn)@.wf(),
            !old(conn)@.has_permission_row(name@) ==> r == Err::<(), PermissionDeleteError>(PermissionDeleteError::NotFound)
                && final(conn)@ == old(conn)@,
            old(conn)@.has_permission_row(name@) ==> r is Ok
                && final(conn)@ == old(conn)@.without_permission(name@),
    {
        let ghost before = conn@;
        let not_named = |p: &Permission| -> (b: bool)
            ensures
                b == (p.name@ != name@),
        {
            !(p.name == *name)
        };
        let removed = remove_where(&mut conn.permissions, not_named, Ghost(permission_not_named(name@)));
        proof {
            lemma_filter_unique(before.permissions, permission_key(), permission_not_named(name@));
            assert(conn@ =~= before.without_permission(name@));
            lemma_wf_permissions(before, conn@);
            if before.has_permission_row(name@) {
                let i = choose|i: int| 0 <= i < before.permissions.len() && #[trigger] permission_named(name@)(before.permissions[i]);
                assert(!permission_not_named(name@)(before.permissions[i]));
            } else {
                assert forall|j: int| 0 <= j < before.permissions.len() implies #[trigger] permission_not_named(name@)(before.permissions[j]) by {
                    assert(!permission_named(name@)(before.permissions[j]));
                }
                lemma_filter_all(before.permissions, permission_not_named(name@));
            }
        }
        if removed == 0 {
            Err(PermissionDeleteError::NotFound)
        } else {
            Ok(())
        }
    }

    /// A page of the permissions sorted by name: in `order` (ascending when absent), from
    /// `offset` (0 when absent), at most `limit` of them (`DEFAULT_LIMIT` when absent).
    pub fn list(conn: &Database, order: Option<Order>, offset: Option<usize>, limit: Option<usize>) -> (r: Vec<Permission>)
        ensures
            r@.len() == sorted_page(conn@.permission_names(), order, offset, limit).len(),
            forall|k: int| 0 <= k < r@.len() ==> Some(#[trigger] r@[k]) == conn@.permission(
                sorted_page(conn@.permission_names(), order, offset, limit)[k],
            ),
    {
        let ghost all = conn@.permission_names();
        let mut names: Vec<String> = Vec::new();
        let mut i: usize = 0;
        while i < conn.permissions.len()
            invariant
                0 <= i <= conn@.permissions.len(),
                all == conn@.permission_names(),
                texts(names@) =~= all.subrange(0, i as int),
            decreases conn@.permissions.len() - i,
        {
            let ghost before = names@;
            names.push(conn.permissions[i].name.clone());
            proof {
                assert(texts(names@) =~= texts(before).push(all[i as int]));
                assert(all.subrange(0, i + 1) =~= all.subrange(0, i as int).push(all[i as int]));
            }
            i = i + 1;
        }
        proof {
            assert(all.subrange(0, i as int) =~= all);
        }
        let ghost page_names = sorted_page(all, order, offset, limit);
        let selected = sorted_page_of(names, order, offset, limit);
        proof {
            lemma_sorted_page_names(all, order, offset, limit);
        }
        let mut out: Vec<Permission> = Vec::new();
        let mut k: usize = 0;
        while k < selected.len()
            invariant
                0 <= k <= selected@.len(),
                all == conn@.permission_names(),
                texts(selected@) == page_names,
                page_names == sorted_page(all, order, offset, limit),
                forall|m: int| 0 <= m < page_names.len() ==> all.contains(#[trigger] page_names[m]),
                out@.len() == k,
                forall|m: int| 0 <= m < k ==> Some(#[trigger] out@[m]) == conn@.permission(page_names[m]),
            decreases selected@.len() - k,
        {
            proof {
                assert(all.contains(page_names[k as int]));
                let j = choose|j: int| 0 <= j < all.len() && all[j] == page_names[k as int];
                assert(permission_named(selected@[k as int]@)(conn@.permissions[j]));
            }
            match Permission::retrieve(conn, &selected[k]) {
                Ok(p) => out.push(p),
                Err(_) => {
                    proof {
                        lemma_first_match_none(conn@.permissions, permission_named(selected@[k as int]@));
                    }
                    return out;
                },
            }
            k = k + 1;
        }
        out
    }

    /// The handle through which permission changes are staged.
    pub fn event() -> (r: PermissionEvent)
        ensures
            r == PermissionEvent,
    {
        PermissionEvent
    }
}

} // verus!
