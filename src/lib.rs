//! An identity and access-control store: permissions, groups, users, login
//! sessions, and a stage-then-commit protocol for sensitive user operations.

pub mod cli;
pub mod database;
pub mod defaults;
pub mod event;
pub mod group;
pub mod keys;
pub mod listing;
pub mod login_session;
pub mod permission;
pub mod snapshot;
pub mod theorems;
pub mod user;
