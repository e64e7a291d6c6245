use cauth::cli::{
    ActionType, AdminAction, AdminCommand, AdminCreateCommand, AdminCreateEntityType, AdminGrantCommand,
    AdminGrantCommandData, AdminGrantCommandEntityType, AdminInspectCommand, AdminInspectEntityType,
    AdminInspectIntegerIDCommand, AdminInspectStringIDCommand, AdminRevokeCommand, AdminRevokeCommandData,
    AdminRevokeCommandEntityType, CauthCli, CliOutcome, ConfigAction, ConfigCommand, Inspected, RunCommand,
};
use cauth::database::Database;
use cauth::defaults::init_defaults;
use cauth::group::Group;
use cauth::permission::Permission;
use cauth::user::User;

fn s(text: &str) -> String {
    text.to_string()
}

#[test]
fn init_defaults_seeds_root_once() {
    let mut db = Database::new();
    init_defaults(&mut db);
    let root = Group::retrieve(&db, &s("root")).unwrap();
    assert_eq!(root.permissions.len(), 9);
    assert!(root.permissions.contains(&s("authoric:users:delete")));
    init_defaults(&mut db);
    assert_eq!(Group::retrieve(&db, &s("root")).unwrap().permissions.len(), 9);
    assert!(Permission::retrieve(&db, &s("authoric:groups:get")).is_ok());
}

#[test]
fn run_and_config_outcomes() {
    let mut db = Database::new();
    let run = CauthCli { action: ActionType::Run(RunCommand) };
    assert_eq!(run.run(&mut db), CliOutcome::Serve);
    assert!(Group::retrieve(&db, &s("root")).is_ok());
    let config = CauthCli { action: ActionType::Config(ConfigCommand { action: ConfigAction::Edit }) };
    assert_eq!(config.run(&mut db), CliOutcome::EditConfig);
    let create = AdminCommand { action: AdminAction::Create(AdminCreateCommand { entity_type: AdminCreateEntityType::Group }) };
    assert_eq!(create.run(&mut db), CliOutcome::Create(AdminCreateEntityType::Group));
}

#[test]
fn admin_grant_and_revoke_lines() {
    let mut db = Database::new();
    Permission::insert(&mut db, &s("p"), &s("d")).unwrap();
    Group::insert(&mut db, &s("g"), &s("d"), &vec![]).unwrap();
    let grant = AdminGrantCommand {
        entity_type: AdminGrantCommandEntityType::Group(AdminGrantCommandData { to: s("g"), value: s("p") }),
    };
    assert_eq!(grant.run(&mut db), "Granted permission p to group g.");
    let missing = AdminGrantCommand {
        entity_type: AdminGrantCommandEntityType::User(AdminGrantCommandData { to: s("bob"), value: s("g") }),
    };
    assert_eq!(missing.run(&mut db), "Cannot grant group g to user bob: No user has this login");
    let revoke = AdminRevokeCommand {
        entity_type: AdminRevokeCommandEntityType::Group(AdminRevokeCommandData { to: s("g"), value: s("p") }),
    };
    assert_eq!(revoke.clone().run(&mut db), "Revoked permission p from group g.");
    assert_eq!(revoke.run(&mut db), "Cannot revoke permission p from group g: The group does not hold this permission");
}

#[test]
fn admin_inspect() {
    let mut db = Database::new();
    User::insert_unhashed(&mut db, &s("bob"), &s("h"), &s("{}")).unwrap();
    let found = AdminInspectCommand {
        entity_type: AdminInspectEntityType::User(AdminInspectStringIDCommand { id: s("bob") }),
    };
    match found.run(&db) {
        Ok(Inspected::User(u)) => assert_eq!(u.login, "bob"),
        other => panic!("unexpected {:?}", other),
    }
    let missing = AdminInspectCommand {
        entity_type: AdminInspectEntityType::Permission(AdminInspectStringIDCommand { id: s("x") }),
    };
    assert_eq!(missing.run(&db), Err(s("Permission \"x\" not found.")));
    let event = AdminInspectCommand {
        entity_type: AdminInspectEntityType::Event(AdminInspectIntegerIDCommand { id: 1 << 40 }),
    };
    assert!(event.run(&db).is_err());
}

#[test]
fn init_defaults_twice_changes_nothing() {
    let mut db = Database::new();
    init_defaults(&mut db);
    let once = db.export();
    init_defaults(&mut db);
    assert_eq!(db.export(), once);
    let root = Group::retrieve(&db, &s("root")).unwrap();
    assert_eq!(
        root.description,
        "the most privileged group, having to permissions to do everything. Caution: do not grant this group to any untrusted user as it can result in damages done to your system. Instead, create their own group fitting their needs."
    );
}
