//! Core library of TeraDock: identifiers, settings, SSH argument building,
//! session-log planning, transfers, tunnels and import planning.

pub mod agent;
pub mod cmdset;
pub mod cmdset_runner;
pub mod config;
pub mod connect;
pub mod configset;
pub mod console;
pub mod conpty;
pub mod conpty_log;
pub mod conpty_loop;
pub mod crypto;
pub mod doctor;
pub mod error;
pub mod history;
pub mod id;
pub mod oplog;
pub mod operations;
pub mod import_export;
pub mod listing;
pub mod parser;
pub mod profile;
pub mod secret;
pub mod secrets;
pub mod settings;
pub mod session_log;
pub mod settings_registry;
pub mod ssh;
pub mod tester;
pub mod text;
pub mod transfer;
pub mod tunnel;
