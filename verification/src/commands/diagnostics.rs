//! The diagnostics table: one row per configured service with its
//! status, how long ago it last reported, and its staleness history.

use vstd::prelude::*;

use crate::config::model::{service_views, ServiceView};
use crate::config::{ServiceConfig, ServiceId};
use crate::idmap::IdMap;
use crate::state::StalenessStats;
use crate::unread::ServiceStatus;

verus! {

/// The diagnostics response.
#[derive(Debug)]
pub struct DiagnosticsDto {
    pub services: Vec<ServiceDiagnosticDto>,
}

/// One row of the diagnostics table.
#[derive(Debug)]
pub struct ServiceDiagnosticDto {
    pub service_id: ServiceId,
    pub name: String,
    pub status: ServiceStatus,
    /// Milliseconds since the service's last report; `None` if it never
    /// reported, or if the current time is unknown.
    pub last_report_age_ms: Option<u64>,
    /// How many times the service was marked stale.
    pub stale_count: u32,
    /// When the service was last marked stale, if ever.
    pub last_stale_at: Option<u64>,
}

/// The spec-level value of a [`ServiceDiagnosticDto`].
pub struct RowView {
    pub service_id: Seq<char>,
    pub name: Seq<char>,
    pub status: ServiceStatus,
    pub last_report_age_ms: Option<u64>,
    pub stale_count: u32,
    pub last_stale_at: Option<u64>,
}

impl View for ServiceDiagnosticDto {
    type V = RowView;

    open spec fn view(&self) -> RowView {
        RowView {
            service_id: self.service_id@,
            name: self.name@,
            status: self.status,
            last_report_age_ms: self.last_report_age_ms,
            stale_count: self.stale_count,
            last_stale_at: self.last_stale_at,
        }
    }
}

/// The row for service `s`: its status (`Loading` when none is known
/// yet), its report age (only when both the current time and a last
/// report are known, never negative), and its staleness count and time
/// (zero and none when it never went stale).
pub open spec fn row_of(
    s: ServiceView,
    statuses: Map<Seq<char>, ServiceStatus>,
    staleness: Map<Seq<char>, StalenessStats>,
    last_report: Map<Seq<char>, u64>,
    now: Option<u64>,
) -> RowView {
    RowView {
        service_id: s.id,
        name: s.name,
        status: if statuses.contains_key(s.id) { statuses[s.id] } else { ServiceStatus::Loading },
        last_report_age_ms: match now {
            Some(n) => if last_report.contains_key(s.id) {
                Some(if n >= last_report[s.id] { (n - last_report[s.id]) as u64 } else { 0u64 })
            } else {
                None
            },
            None => None,
        },
        stale_count: if staleness.contains_key(s.id) { staleness[s.id].count } else { 0 },
        last_stale_at: if staleness.contains_key(s.id) { staleness[s.id].last_at } else { None },
    }
}

/// Builds the diagnostics table, one row per service of `services`, in
/// order (see [`row_of`]). `now_ms` is `None` when the clock could not be
/// read.
pub fn build_diagnostics(
    services: &[ServiceConfig],
    statuses: &IdMap<ServiceStatus>,
    staleness: &IdMap<StalenessStats>,
    last_report_ms: &IdMap<u64>,
    now_ms: Option<u64>,
) -> (d: DiagnosticsDto)
    ensures
        d.services@.len() == services@.len(),
        forall|i: int|
            0 <= i < services@.len() ==> (#[trigger] d.services@[i])@ == row_of(
                services@[i]@,
                statuses@,
                staleness@,
                last_report_ms@,
                now_ms,
            ),
{
    let mut rows: Vec<ServiceDiagnosticDto> = Vec::new();
    let mut i: usize = 0;
    while i < services.len()
        invariant
            i <= services@.len(),
            rows@.len() == i,
            forall|j: int|
                0 <= j < i ==> (#[trigger] rows@[j])@ == row_of(
                    services@[j]@,
                    statuses@,
                    staleness@,
                    last_report_ms@,
                    now_ms,
                ),
        decreases services@.len() - i,
    {
        let service = &services[i];
        let status = match statuses.get(&service.id) {
            Some(s) => *s,
            None => ServiceStatus::Loading,
        };
        let stats = staleness.get(&service.id);
        let age = match (now_ms, last_report_ms.get(&service.id)) {
            (Some(now), Some(last)) => Some(now.saturating_sub(*last)),
            _ => None,
        };
        let (stale_count, last_stale_at) = match stats {
            Some(s) => (s.count, s.last_at),
            None => (0, None),
        };
        rows.push(
            ServiceDiagnosticDto {
                service_id: service.id.clone(),
                name: service.name.clone(),
                status,
                last_report_age_ms: age,
                stale_count,
                last_stale_at,
            },
        );
        i = i + 1;
    }
    DiagnosticsDto { services: rows }
}

} // verus!
