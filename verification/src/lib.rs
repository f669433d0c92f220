//! Verified core of an SSH agent that serves keys kept in a Bitwarden vault.

pub mod bindings;
pub mod client;
pub mod config;
pub mod control;
pub mod crypto;
pub mod envelope;
pub mod daemon;
pub mod doctor;
pub mod keys;
pub mod models;
pub mod notifications;
pub mod paths;
pub mod primitives;
pub mod request_parser;
pub mod ssh_config;
pub mod ssh_target;
pub mod storage;
pub mod text;
pub mod ui;
