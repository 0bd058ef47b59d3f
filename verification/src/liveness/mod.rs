//! Liveness monitoring: noticing that a service's reports have stopped
//! arriving, and what to do about it. [`machine`] is the pure state
//! machine; [`runtime`] holds the clock seam and the pure helpers its
//! driving loop uses.

pub mod machine;
pub mod runtime;

pub use machine::{
    Action, ActionKind, LivenessMachine, Phase, ServiceLiveness, GRACE_MS,
    MISSED_REPORTS_THRESHOLD, STALE_THRESHOLD_MS, TICKS_AFTER_RELOAD, TICK_MS,
};
pub use runtime::{
    action_service_id, evaluate_tick, evaluate_tick_at, evaluate_touch, evaluate_touch_at, is_current, is_newer_last_at, tag_actions,
    Clock, ClockError, SystemClock, Tagged,
};
