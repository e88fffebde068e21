//! The logic of `cpu-mode`, a command-line client for the cpu.mode benchmark judge.

pub mod account;
pub mod challenges;
pub mod client;
pub mod commands;
pub mod config;
pub mod error;
pub mod format;
pub mod jobs;
pub mod json;
pub mod login;
pub mod output;
pub mod profile;
pub mod properties;
pub mod request;
pub mod solutions;
pub mod table;
pub mod text;
pub mod watch;
pub mod wire;
