//! Per-service unread status: [`ServiceStatus`], [`AttentionReason`],
//! [`StatusChanged`], and the [`StatusStore`] state machine that computes
//! transitions from validated reports and page-load origin checks,
//! reporting a change only when a service's status actually changed.

pub mod status;
pub mod store;

pub use status::{is_off_origin, AttentionReason, ServiceStatus, StatusChanged};
pub use store::{emit_if_changed, StatusStore};
