use vstd::prelude::*;
use vstd::string::StringExecFns;

use crate::database::{Database, DatabaseView};
use crate::defaults::{default_permission_names, init_defaults, root_group_name};
use crate::event::Event;
use crate::group::{Group, GroupGrantError, GroupRevokeError};
use crate::permission::Permission;
use crate::user::{User, UserGrantError, UserRevokeError};

verus! {

/// The command line: one action per run.
#[derive(Clone, Debug, PartialEq, Eq)]
pub struct CauthCli {
    pub action: ActionType,
}

#[derive(Clone, Debug, PartialEq, Eq)]
pub enum ActionType {
    Run(RunCommand),
    Config(ConfigCommand),
    Admin(AdminCommand),
}

/// Seeds the defaults and serves the HTTP interface.
#[derive(Clone, Copy, Debug, PartialEq, Eq)]
pub struct RunCommand;

#[derive(Clone, Copy, Debug, PartialEq, Eq)]
pub struct ConfigCommand {
    pub action: ConfigAction,
}

#[derive(Clone, Copy, Debug, PartialEq, Eq)]
pub enum ConfigAction {
    Edit,
}

#[derive(Clone, Debug, PartialEq, Eq)]
pub struct AdminCommand {
    pub action: AdminAction,
}

#[derive(Clone, Debug, PartialEq, Eq)]
pub enum AdminAction {
    Create(AdminCreateCommand),
    Inspect(AdminInspectCommand),
    Grant(AdminGrantCommand),
    Revoke(AdminRevokeCommand),
}

#[derive(Clone, Copy, Debug, PartialEq, Eq)]
pub struct AdminCreateCommand {
    pub entity_type: AdminCreateEntityType,
}

#[derive(Clone, Copy, Debug, PartialEq, Eq)]
pub enum AdminCreateEntityType {
    Permission,
    Group,
}

#[derive(Clone, Debug, PartialEq, Eq)]
pub struct AdminInspectCommand {
    pub entity_type: AdminInspectEntityType,
}

#[derive(Clone, Debug, PartialEq, Eq)]
pub enum AdminInspectEntityType {
    Permission(AdminInspectStringIDCommand),
    Group(AdminInspectStringIDCommand),
    User(AdminInspectStringIDCommand),
    Event(AdminInspectIntegerIDCommand),
}

#[derive(Clone, Debug, PartialEq, Eq)]
pub struct AdminInspectStringIDCommand {
    pub id: String,
}

#[derive(Clone, Copy, Debug, PartialEq, Eq)]
pub struct AdminInspectIntegerIDCommand {
    pub id: i64,
}

#[derive(Clone, Debug, PartialEq, Eq)]
pub struct AdminGrantCommand {
    pub entity_type: AdminGrantCommandEntityType,
}

#[derive(Clone, Debug, PartialEq, Eq)]
pub enum AdminGrantCommandEntityType {
    Group(AdminGrantCommandData),
    User(AdminGrantCommandData),
}

/// Grants `value` (a permission, or a group) to `to` (a group, or a user).
#[derive(Clone, Debug, PartialEq, Eq)]
pub struct AdminGrantCommandData {
    pub to: String,
    pub value: String,
}

#[derive(Clone, Debug, PartialEq, Eq)]
pub struct AdminRevokeCommand {
    pub entity_type: AdminRevokeCommandEntityType,
}

#[derive(Clone, Debug, PartialEq, Eq)]
pub enum AdminRevokeCommandEntityType {
    Group(AdminRevokeCommandData),
    User(AdminRevokeCommandData),
}

/// Revokes `value` (a permission, or a group) from `to` (a group, or a user).
#[derive(Clone, Debug, PartialEq, Eq)]
pub struct AdminRevokeCommandData {
    pub to: String,
    pub value: String,
}

/// An entity that `admin inspect` found.
#[derive(Clone, Debug, PartialEq, Eq)]
pub enum Inspected {
    Permission(Permission),
    Group(Group),
    User(User),
    Event(Event),
}

/// What is left to do after a command has run against the store.
#[derive(Clone, Debug, PartialEq, Eq)]
pub enum CliOutcome {
    /// Serve the HTTP interface.
    Serve,
    /// Open the configuration file in an editor.
    EditConfig,
    /// Ask for the fields of a new permission or group and create it.
    Create(AdminCreateEntityType),
    /// Show the entity.
    Show(Inspected),
    /// Print the line.
    Print(String),
}

impl DatabaseView {
    /// What granting the permission `value` to the group `to` returns.
    pub open spec fn group_grant_outcome(self, to: Seq<char>, value: Seq<char>) -> Result<(), GroupGrantError> {
        if !self.has_permission_row(value) {
            Err(GroupGrantError::PermissionNotFound)
        } else if !self.has_group(to) {
            Err(GroupGrantError::NotFound)
        } else {
            Ok(())
        }
    }

    /// What making the user `to` a member of the group `value` returns.
    pub open spec fn user_grant_outcome(self, to: Seq<char>, value: Seq<char>) -> Result<(), UserGrantError> {
        if !self.has_group(value) {
            Err(UserGrantError::GroupNotFound)
        } else if !self.has_user(to) {
            Err(UserGrantError::NotFound)
        } else {
            Ok(())
        }
    }

    /// What revoking the permission `value` from the group `to` returns.
    pub open spec fn group_revoke_outcome(self, to: Seq<char>, value: Seq<char>) -> Result<(), GroupRevokeError> {
        if !self.has_permission_row(value) {
            Err(GroupRevokeError::PermissionNotFound)
        } else if !self.has_group(to) {
            Err(GroupRevokeError::NotFound)
        } else if !self.has_grant(to, value) {
            Err(GroupRevokeError::PermissionNotGranted)
        } else {
            Ok(())
        }
    }

    /// What ending the membership of the user `to` in the group `value` returns.
    pub open spec fn user_revoke_outcome(self, to: Seq<char>, value: Seq<char>) -> Result<(), UserRevokeError> {
        if !self.has_group(value) {
            Err(UserRevokeError::GroupNotFound)
        } else if !self.has_user(to) {
            Err(UserRevokeError::NotFound)
        } else if !self.has_membership(to, value) {
            Err(UserRevokeError::NotGranted)
        } else {
            Ok(())
        }
    }
}

impl DatabaseView {
    /// The line that reports a grant.
    pub open spec fn grant_line(self, e: AdminGrantCommandEntityType) -> Seq<char> {
        match e {
            AdminGrantCommandEntityType::Group(d) => match self.group_grant_outcome(d.to@, d.value@) {
                Ok(()) => sentence("Granted permission "@, d.value@, " to group "@, d.to@, "."@),
                Err(err) => sentence("Cannot grant permission "@, d.value@, " to group "@, d.to@, ": "@ + err.spec_message()),
            },
            AdminGrantCommandEntityType::User(d) => match self.user_grant_outcome(d.to@, d.value@) {
                Ok(()) => sentence("Granted group "@, d.value@, " to user "@, d.to@, "."@),
                Err(err) => sentence("Cannot grant group "@, d.value@, " to user "@, d.to@, ": "@ + err.spec_message()),
            },
        }
    }

    /// The store after a grant.
    pub open spec fn after_grant(self, e: AdminGrantCommandEntityType) -> DatabaseView {
        match e {
            AdminGrantCommandEntityType::Group(d) => if self.group_grant_outcome(d.to@, d.value@) is Ok {
                self.with_grant(d.to, d.value)
            } else {
                self
            },
            AdminGrantCommandEntityType::User(d) => if self.user_grant_outcome(d.to@, d.value@) is Ok {
                self.with_membership(d.to, d.value)
            } else {
                self
            },
        }
    }

    /// The line that reports a revocation.
    pub open spec fn revoke_line(self, e: AdminRevokeCommandEntityType) -> Seq<char> {
        match e {
            AdminRevokeCommandEntityType::Group(d) => match self.group_revoke_outcome(d.to@, d.value@) {
                Ok(()) => sentence("Revoked permission "@, d.value@, " from group "@, d.to@, "."@),
                Err(err) => sentence("Cannot revoke permission "@, d.value@, " from group "@, d.to@, ": "@ + err.spec_message()),
            },
            AdminRevokeCommandEntityType::User(d) => match self.user_revoke_outcome(d.to@, d.value@) {
                Ok(()) => sentence("Revoked group "@, d.value@, " from user "@, d.to@, "."@),
                Err(err) => sentence("Cannot revoke group "@, d.value@, " from user "@, d.to@, ": "@ + err.spec_message()),
            },
        }
    }

    /// The store after a revocation.
    pub open spec fn after_revoke(self, e: AdminRevokeCommandEntityType) -> DatabaseView {
        match e {
            AdminRevokeCommandEntityType::Group(d) => if self.group_revoke_outcome(d.to@, d.value@) is Ok {
                self.without_grant(d.to@, d.value@)
            } else {
                self
            },
            AdminRevokeCommandEntityType::User(d) => if self.user_revoke_outcome(d.to@, d.value@) is Ok {
                self.without_membership(d.to@, d.value@)
            } else {
                self
            },
        }
    }

    /// `r` is what inspecting `e` in this store gives.
    pub open spec fn inspection(self, e: AdminInspectEntityType, r: Result<Inspected, String>) -> bool {
        match e {
            AdminInspectEntityType::Permission(c) => match self.permission(c.id@) {
                Some(p) => r == Ok::<Inspected, String>(Inspected::Permission(p)),
                None => r is Err && r->Err_0@ == "Permission \""@ + c.id@ + "\" not found."@,
            },
            AdminInspectEntityType::Group(c) => match self.group(c.id@) {
                Some(_) => r matches Ok(Inspected::Group(found)) && self.describes_group(c.id@, found),
                None => r is Err && r->Err_0@ == "Group \""@ + c.id@ + "\" not found."@,
            },
            AdminInspectEntityType::User(c) => match self.user(c.id@) {
                Some(u) => r == Ok::<Inspected, String>(Inspected::User(u)),
                None => r is Err && r->Err_0@ == "User \""@ + c.id@ + "\" not found."@,
            },
            AdminInspectEntityType::Event(c) => {
                let found = if i32::MIN <= c.id <= i32::MAX {
                    self.event(c.id as int)
                } else {
                    None
                };
                match found {
                    Some(ev) => r == Ok::<Inspected, String>(Inspected::Event(ev)),
                    None => r is Err && r->Err_0@ == "No event has this identifier."@,
                }
            },
        }
    }

    /// `r` and `after` are what running `action` on this store gives.
    pub open spec fn admin_outcome(self, action: AdminAction, after: DatabaseView, r: CliOutcome) -> bool {
        match action {
            AdminAction::Create(c) => r == CliOutcome::Create(c.entity_type) && after == self,
            AdminAction::Inspect(c) => after == self && match r {
                CliOutcome::Show(found) => self.inspection(c.entity_type, Ok(found)),
                CliOutcome::Print(line) => self.inspection(c.entity_type, Err(line)),
                _ => false,
            },
            AdminAction::Grant(c) => after == self.after_grant(c.entity_type) && (r matches CliOutcome::Print(
                line,
            ) && line@ == self.grant_line(c.entity_type)),
            AdminAction::Revoke(c) => after == self.after_revoke(c.entity_type) && (r matches CliOutcome::Print(
                line,
            ) && line@ == self.revoke_line(c.entity_type)),
        }
    }
}

impl GroupGrantError {
    pub open spec fn spec_message(&self) -> Seq<char> {
        match self {
            GroupGrantError::NotFound => "No group has this name"@,
            GroupGrantError::PermissionNotFound => "No permission has this name"@,
        }
    }

    /// A sentence that says what went wrong.
    pub fn message(&self) -> (r: &'static str)
        ensures
            r@ == self.spec_message(),
    {
        match self {
            GroupGrantError::NotFound => "No group has this name",
            GroupGrantError::PermissionNotFound => "No permission has this name",
        }
    }
}

impl GroupRevokeError {
    pub open spec fn spec_message(&self) -> Seq<char> {
        match self {
            GroupRevokeError::NotFound => "No group has this name"@,
            GroupRevokeError::PermissionNotFound => "No permission has this name"@,
            GroupRevokeError::PermissionNotGranted => "The group does not hold this permission"@,
        }
    }

    /// A sentence that says what went wrong.
    pub fn message(&self) -> (r: &'static str)
        ensures
            r@ == self.spec_message(),
    {
        match self {
            GroupRevokeError::NotFound => "No group has this name",
            GroupRevokeError::PermissionNotFound => "No permission has this name",
            GroupRevokeError::PermissionNotGranted => "The group does not hold this permission",
        }
    }
}

impl UserGrantError {
    pub open spec fn spec_message(&self) -> Seq<char> {
        match self {
            UserGrantError::NotFound => "No user has this login"@,
            UserGrantError::GroupNotFound => "No group has this name"@,
        }
    }

    /// A sentence that says what went wrong.
    pub fn message(&self) -> (r: &'static str)
        ensures
            r@ == self.spec_message(),
    {
        match self {
            UserGrantError::NotFound => "No user has this login",
            UserGrantError::GroupNotFound => "No group has this name",
        }
    }
}

impl UserRevokeError {
    pub open spec fn spec_message(&self) -> Seq<char> {
        match self {
            UserRevokeError::NotFound => "No user has this login"@,
            UserRevokeError::GroupNotFound => "No group has this name"@,
            UserRevokeError::NotGranted => "The user is not a member of this group"@,
        }
    }

    /// A sentence that says what went wrong.
    pub fn message(&self) -> (r: &'static str)
        ensures
            r@ == self.spec_message(),
    {
        match self {
            UserRevokeError::NotFound => "No user has this login",
            UserRevokeError::GroupNotFound => "No group has this name",
            UserRevokeError::NotGranted => "The user is not a member of this group",
        }
    }
}

/// `first`, then `value`, then `middle`, then `to`, then `last`.
pub open spec fn sentence(first: Seq<char>, value: Seq<char>, middle: Seq<char>, to: Seq<char>, last: Seq<char>) -> Seq<char> {
    first + value + middle + to + last
}

fn make_sentence(first: &str, value: &String, middle: &str, to: &String, last: &str) -> (r: String)
    ensures
        r@ == sentence(first@, value@, middle@, to@, last@),
{
    let mut s = String::from_str(first);
    s.append(value.as_str());
    s.append(middle);
    s.append(to.as_str());
    s.append(last);
    s
}

impl AdminGrantCommand {
    /// Grants the permission `data.value` to the group `data.to`.
    pub fn grant_group_permission(conn: &mut Database, data: &AdminGrantCommandData) -> (r: Result<(), GroupGrantError>)
        requires
            old(conn)@.wf(),
        ensures
            final(conn)@.wf(),
            r == old(conn)@.group_grant_outcome(data.to@, data.value@),
            r is Ok ==> final(conn)@ == old(conn)@.with_grant(data.to, data.value),
            r is Err ==> final(conn)@ == old(conn)@,
    {
        match Group::grant_permission(conn, &data.to, &data.value) {
            Ok(()) => Ok(()),
            Err(e) => Err(e),
        }
    }

    /// Makes the user `data.to` a member of the group `data.value`.
    pub fn grant_user_group(conn: &mut Database, data: &AdminGrantCommandData) -> (r: Result<(), UserGrantError>)
        requires
            old(conn)@.wf(),
        ensures
            final(conn)@.wf(),
            r == old(conn)@.user_grant_outcome(data.to@, data.value@),
            r is Ok ==> final(conn)@ == old(conn)@.with_membership(data.to, data.value),
            r is Err ==> final(conn)@ == old(conn)@,
    {
        match User::grant_group(conn, &data.to, &data.value) {
            Ok(()) => Ok(()),
            Err(e) => Err(e),
        }
    }

    /// Runs the grant and returns the line that reports it.
    pub fn run(self, conn: &mut Database) -> (r: String)
        requires
            old(conn)@.wf(),
        ensures
            final(conn)@.wf(),
            r@ == old(conn)@.grant_line(self.entity_type),
            final(conn)@ == old(conn)@.after_grant(self.entity_type),
    {
        match self.entity_type {
            AdminGrantCommandEntityType::Group(data) => match Self::grant_group_permission(conn, &data) {
                Ok(()) => make_sentence("Granted permission ", &data.value, " to group ", &data.to, "."),
                Err(e) => {
                    let mut tail = String::from_str(": ");
                    tail.append(e.message());
                    make_sentence("Cannot grant permission ", &data.value, " to group ", &data.to, tail.as_str())
                },
            },
            AdminGrantCommandEntityType::User(data) => match Self::grant_user_group(conn, &data) {
                Ok(()) => make_sentence("Granted group ", &data.value, " to user ", &data.to, "."),
                Err(e) => {
                    let mut tail = String::from_str(": ");
                    tail.append(e.message());
                    make_sentence("Cannot grant group ", &data.value, " to user ", &data.to, tail.as_str())
                },
            },
        }
    }
}

impl AdminRevokeCommand {
    /// Takes the permission `data.value` from the group `data.to`.
    pub fn revoke_group_permission(conn: &mut Database, data: &AdminRevokeCommandData) -> (r: Result<(), GroupRevokeError>)
        requires
            old(conn)@.wf(),
        ensures
            final(conn)@.wf(),
            r == old(conn)@.group_revoke_outcome(data.to@, data.value@),
            r is Ok ==> final(conn)@ == old(conn)@.without_grant(data.to@, data.value@),
            r is Err ==> final(conn)@ == old(conn)@,
    {
        match Group::revoke_permission(conn, &data.to, &data.value) {
            Ok(()) => Ok(()),
            Err(e) => Err(e),
        }
    }

    /// Ends the membership of the user `data.to` in the group `data.value`.
    pub fn revoke_user_group(conn: &mut Database, data: &AdminRevokeCommandData) -> (r: Result<(), UserRevokeError>)
        requires
            old(conn)@.wf(),
        ensures
            final(conn)@.wf(),
            r == old(conn)@.user_revoke_outcome(data.to@, data.value@),
            r is Ok ==> final(conn)@ == old(conn)@.without_membership(data.to@, data.value@),
            r is Err ==> final(conn)@ == old(conn)@,
    {
        match User::revoke_group(conn, &data.to, &data.value) {
            Ok(()) => Ok(()),
            Err(e) => Err(e),
        }
    }

    /// Runs the revocation and returns the line that reports it.
    pub fn run(self, conn: &mut Database) -> (r: String)
        requires
            old(conn)@.wf(),
        ensures
            final(conn)@.wf(),
            r@ == old(conn)@.revoke_line(self.entity_type),
            final(conn)@ == old(conn)@.after_revoke(self.entity_type),
    {
        match self.entity_type {
            AdminRevokeCommandEntityType::Group(data) => match Self::revoke_group_permission(conn, &data) {
                Ok(()) => make_sentence("Revoked permission ", &data.value, " from group ", &data.to, "."),
                Err(e) => {
                    let mut tail = String::from_str(": ");
                    tail.append(e.message());
                    make_sentence("Cannot revoke permission ", &data.value, " from group ", &data.to, tail.as_str())
                },
            },
            AdminRevokeCommandEntityType::User(data) => match Self::revoke_user_group(conn, &data) {
                Ok(()) => make_sentence("Revoked group ", &data.value, " from user ", &data.to, "."),
                Err(e) => {
                    let mut tail = String::from_str(": ");
                    tail.append(e.message());
                    make_sentence("Cannot revoke group ", &data.value, " from user ", &data.to, tail.as_str())
                },
            },
        }
    }
}

impl AdminInspectCommand {
    /// Finds the entity to show, or returns the line that says it is missing.
    pub fn run(&self, conn: &Database) -> (r: Result<Inspected, String>)
        ensures
            conn@.inspection(self.entity_type, r),
    {
        match &self.entity_type {
            AdminInspectEntityType::Permission(c) => match Permission::retrieve(conn, &c.id) {
                Ok(p) => Ok(Inspected::Permission(p)),
                Err(_) => Err(not_found_line("Permission \"", &c.id)),
            },
            AdminInspectEntityType::Group(c) => match Group::retrieve(conn, &c.id) {
                Ok(g) => Ok(Inspected::Group(g)),
                Err(_) => Err(not_found_line("Group \"", &c.id)),
            },
            AdminInspectEntityType::User(c) => match User::retrieve(conn, &c.id) {
                Ok(u) => Ok(Inspected::User(u)),
                Err(_) => Err(not_found_line("User \"", &c.id)),
            },
            AdminInspectEntityType::Event(c) => {
                if c.id < i32::MIN as i64 || c.id > i32::MAX as i64 {
                    return Err(String::from_str("No event has this identifier."));
                }
                match Event::retrieve(conn, c.id as i32) {
                    Ok(e) => Ok(Inspected::Event(e)),
                    Err(_) => Err(String::from_str("No event has this identifier.")),
                }
            },
        }
    }
}

/// `kind` followed by `id` and `" not found."`.
fn not_found_line(kind: &str, id: &String) -> (r: String)
    ensures
        r@ == kind@ + id@ + "\" not found."@,
{
    let mut s = String::from_str(kind);
    s.append(id.as_str());
    s.append("\" not found.");
    s
}

impl AdminCommand {
    /// Runs the administrative action against the store.
    pub fn run(self, conn: &mut Database) -> (r: CliOutcome)
        requires
            old(conn)@.wf(),
        ensures
            final(conn)@.wf(),
            old(conn)@.admin_outcome(self.action, final(conn)@, r),
    {
        match self.action {
            AdminAction::Create(c) => CliOutcome::Create(c.entity_type),
            AdminAction::Inspect(c) => match c.run(conn) {
                Ok(found) => CliOutcome::Show(found),
                Err(line) => CliOutcome::Print(line),
            },
            AdminAction::Grant(c) => CliOutcome::Print(c.run(conn)),
            AdminAction::Revoke(c) => CliOutcome::Print(c.run(conn)),
        }
    }
}

impl RunCommand {
    /// Seeds the defaults; serving comes next.
    pub fn run(self, conn: &mut Database) -> (r: CliOutcome)
        requires
            old(conn)@.wf(),
        ensures
            final(conn)@.wf(),
            r == CliOutcome::Serve,
            final(conn)@.has_group(root_group_name()),
            forall|i: int| 0 <= i < default_permission_names().len() ==> #[trigger] final(conn)@.has_permission_row(
                default_permission_names()[i],
            ),
    {
        init_defaults(conn);
        CliOutcome::Serve
    }
}

impl ConfigCommand {
    /// The configuration is edited outside the store.
    pub fn run(self) -> (r: CliOutcome)
        ensures
            r == match self.action {
                ConfigAction::Edit => CliOutcome::EditConfig,
            },
    {
        match self.action {
            ConfigAction::Edit => CliOutcome::EditConfig,
        }
    }
}

impl CauthCli {
    /// Runs the chosen action against the store and says what is left to do.
    pub fn run(self, conn: &mut Database) -> (r: CliOutcome)
        requires
            old(conn)@.wf(),
        ensures
            final(conn)@.wf(),
            self.action is Run ==> r == CliOutcome::Serve && final(conn)@.has_group(root_group_name()),
            self.action is Config ==> r == CliOutcome::EditConfig && final(conn)@ == old(conn)@,
            self.action matches ActionType::Admin(c) ==> old(conn)@.admin_outcome(c.action, final(conn)@, r),
    {
        match self.action {
            ActionType::Run(c) => c.run(conn),
            ActionType::Config(c) => c.run(),
            ActionType::Admin(c) => c.run(conn),
        }
    }
}

} // verus!
