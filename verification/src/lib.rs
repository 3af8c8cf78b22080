//! Face-authentication library: storage selectors, metadata, configuration rules,
//! session control and the recognition decision flow.

pub mod text;
pub mod error;
pub mod selector;
pub mod ident;
pub mod models;
pub mod storage;
pub mod config;
pub mod security;
pub mod control;
pub mod auth_flow;
pub mod runtime;
pub mod commands;
pub mod server;
pub mod pam;
pub mod preset;
pub mod vision;
pub mod matching;
