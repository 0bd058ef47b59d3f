//! The agent bridge: the report an injected agent posts, its validation
//! into a [`ValidReport`], and the per-service capability naming.

pub mod capability;
pub mod dto;
pub mod validate;

pub use capability::{
    capability_identifier, injection_script, reconcile_interval_ms, service_origin, OpaqueOriginError,
    REPORT_INTERVAL_MS,
};
pub use dto::{MessageRefDto, UnreadReportDto};
pub use validate::{validate, validate_with_service, ReportError, ValidMessageRef, ValidReport};
