//! Verified core of the Eluma webmail host.

pub mod agent_bridge;
pub mod commands;
pub mod config;
pub mod error;
pub mod host;
pub mod icons;
pub mod idmap;
pub mod liveness;
pub mod net_guard;
pub mod notify;
pub mod order;
pub mod paths;
pub mod platform;
pub mod profile;
pub mod services;
pub mod state;
pub mod text;
pub mod unread;
pub mod weburl;
