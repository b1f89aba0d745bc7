//! The decisions of a proxy core runtime.

pub mod canary;
pub mod core_config;
pub mod core_log;
pub mod dns;
pub mod exit_check;
pub mod helper_gate;
pub mod json;
pub mod kernel_gate;
pub mod lifecycle;
pub mod network;
pub mod peel;
pub mod pending;
pub mod platform;
pub mod ports;
pub mod process;
pub mod protected_core;
pub mod ready;
pub mod reassert;
pub mod recovery;
pub mod retry;
pub mod rule_files;
pub mod runtime;
pub mod selection;
pub mod start_flow;
pub mod status;
pub mod switch;
pub mod table;
pub mod tailnet;
pub mod text;
