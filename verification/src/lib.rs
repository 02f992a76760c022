//! Decision core of an options and futures executor.

pub mod agent;
pub mod broker;
pub mod config;
pub mod config_laws;
pub mod data;
pub mod execution;
pub mod http;
pub mod ipc;
pub mod ipc_laws;
pub mod num;
pub mod orders;
pub mod outside;
pub mod reply;
pub mod signal;
pub mod text;
pub mod text_laws;
