//! Platform policy decisions that need no native API.

pub mod app_nap;

pub use app_nap::{decide_hold_action, HoldAction};
