//! The verified core of a desktop client for the sing-box proxy core.
pub mod caps;
pub mod clash;
pub mod commands;
pub mod config;
mod clock;
pub mod geo;
pub mod import;
pub mod ip;
pub mod json;
pub mod match_spec;
pub mod models;
pub mod outbound;
pub mod outbound_json;
pub mod plan;
pub mod probe;
pub mod process;
pub mod storage;
pub mod system_proxy;
pub mod text;
pub mod updates;
