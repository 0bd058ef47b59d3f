//! Status values and their pure transition helpers.

use vstd::prelude::*;

use crate::config::ServiceId;
use crate::weburl::{same_origin, ParsedUrl};

verus! {

/// Why a service needs the user's attention.
#[derive(Debug, Clone, Copy, PartialEq, Eq, Structural)]
pub enum AttentionReason {
    /// The agent reported `count: null`.
    ReportedNone,
    /// A page load landed on a different origin than the service's.
    OffOrigin,
    /// The webview (or its profile) failed to create.
    CreateFailed,
}

/// A service's current unread/attention state.
#[derive(Debug, Clone, Copy, PartialEq, Eq, Structural)]
pub enum ServiceStatus {
    /// The webview was created (or is being recreated), no report yet.
    Loading,
    /// A report with a count arrived (the shell's `ok` status).
    Counted { count: u32 },
    NeedsAttention { reason: AttentionReason },
    /// The service stopped reporting.
    Stale,
}

/// The status a validated report's count leads to.
pub open spec fn status_from_report(count: Option<u32>) -> ServiceStatus {
    match count {
        Some(n) => ServiceStatus::Counted { count: n },
        None => ServiceStatus::NeedsAttention { reason: AttentionReason::ReportedNone },
    }
}

impl ServiceStatus {
    /// `Some(n)` → `Counted { count: n }`, `None` → `NeedsAttention(ReportedNone)`.
    pub fn from_report(count: Option<u32>) -> (s: Self)
        ensures
            s == status_from_report(count),
    {
        match count {
            Some(count) => ServiceStatus::Counted { count },
            None => ServiceStatus::NeedsAttention { reason: AttentionReason::ReportedNone },
        }
    }

    /// The status a webview-creation failure leads to.
    pub fn create_failed() -> (s: Self)
        ensures
            s == (ServiceStatus::NeedsAttention { reason: AttentionReason::CreateFailed }),
    {
        ServiceStatus::NeedsAttention { reason: AttentionReason::CreateFailed }
    }

    /// The status an off-origin page load leads to.
    pub fn off_origin() -> (s: Self)
        ensures
            s == (ServiceStatus::NeedsAttention { reason: AttentionReason::OffOrigin }),
    {
        ServiceStatus::NeedsAttention { reason: AttentionReason::OffOrigin }
    }
}

/// The `status-changed { serviceId, status }` event payload.
#[derive(Debug)]
pub struct StatusChanged {
    pub service_id: ServiceId,
    pub status: ServiceStatus,
}

impl Clone for StatusChanged {
    fn clone(&self) -> (r: Self)
        ensures
            r.service_id@ == self.service_id@,
            r.status == self.status,
    {
        StatusChanged { service_id: self.service_id.clone(), status: self.status }
    }
}

impl PartialEq for StatusChanged {
    fn eq(&self, other: &Self) -> (r: bool) {
        self.service_id == other.service_id && self.status == other.status
    }
}

impl Eq for StatusChanged {}

impl vstd::std_specs::cmp::PartialEqSpecImpl for StatusChanged {
    open spec fn obeys_eq_spec() -> bool {
        true
    }

    open spec fn eq_spec(&self, other: &Self) -> bool {
        self.service_id@ == other.service_id@ && self.status == other.status
    }
}

/// A page at `scheme`/`origin` is off the service's origin: it is not an
/// `about:` page and its origin is not the service's.
pub open spec fn off_origin(scheme: Seq<char>, page: Option<Seq<char>>, service: Option<Seq<char>>) -> bool {
    scheme != "about"@ && !same_origin(page, service)
}

/// Whether `page_url` counts as off origin for a service whose origin is
/// `service_origin` (`None` for an opaque origin): neither the same origin
/// nor an `about:` page.
pub fn is_off_origin(page_url: &ParsedUrl, service_origin: &Option<String>) -> (r: bool)
    ensures
        r == off_origin(
            page_url@.scheme,
            page_url@.origin,
            match service_origin { Some(o) => Some(o@), None => None },
        ),
{
    let about = String::from_str("about");
    !(page_url.scheme == about) && !crate::weburl::same_origin_exec(&page_url.origin, service_origin)
}

} // verus!
