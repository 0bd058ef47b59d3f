//! The per-service status state machine: one status per registered
//! service, and mutators that report a [`StatusChanged`] only when the
//! stored status actually changed.

use vstd::prelude::*;

use crate::config::ServiceId;
use crate::idmap::IdMap;
use crate::weburl::ParsedUrl;

use super::status::{
    is_off_origin, off_origin, status_from_report, AttentionReason, ServiceStatus, StatusChanged,
};

verus! {

/// What setting `id`'s status to `new` reports: a change exactly when the
/// stored status was absent or different.
pub open spec fn set_reports(before: Map<Seq<char>, ServiceStatus>, id: Seq<char>, new: ServiceStatus, r: Option<StatusChanged>) -> bool {
    &&& (r is Some <==> !(before.contains_key(id) && before[id] == new))
    &&& (r matches Some(c) ==> c.service_id@ == id && c.status == new)
}

/// Owns every service's current status. A service is registered from its
/// first [`StatusStore::mark_loading`] until [`StatusStore::remove`].
#[derive(Debug)]
pub struct StatusStore {
    statuses: IdMap<ServiceStatus>,
}

impl View for StatusStore {
    type V = Map<Seq<char>, ServiceStatus>;

    closed spec fn view(&self) -> Map<Seq<char>, ServiceStatus> {
        self.statuses@
    }
}

impl StatusStore {
    /// No service registered.
    pub fn new() -> (s: Self)
        ensures
            s@ == Map::<Seq<char>, ServiceStatus>::empty(),
    {
        StatusStore { statuses: IdMap::new() }
    }

    /// The full status map.
    pub fn statuses(&self) -> (m: &IdMap<ServiceStatus>)
        ensures
            m@ == self@,
    {
        &self.statuses
    }

    /// Registers `id` (if not already) and sets it to `Loading`.
    pub fn mark_loading(&mut self, id: &ServiceId) -> (r: Option<StatusChanged>)
        ensures
            final(self)@ == old(self)@.insert(id@, ServiceStatus::Loading),
            set_reports(old(self)@, id@, ServiceStatus::Loading, r),
    {
        self.set(id, ServiceStatus::Loading)
    }

    /// Sets `id` to `NeedsAttention(CreateFailed)`, registering it if needed.
    pub fn mark_create_failed(&mut self, id: &ServiceId) -> (r: Option<StatusChanged>)
        ensures
            final(self)@ == old(self)@.insert(id@, ServiceStatus::create_failed_value()),
            set_reports(old(self)@, id@, ServiceStatus::create_failed_value(), r),
    {
        self.set(id, ServiceStatus::create_failed())
    }

    /// Applies a validated report: `Some(n)` → `Ok`, `None` →
    /// `NeedsAttention(ReportedNone)`, whatever the current status.
    /// Ignored for an unregistered `id`.
    pub fn record_report(&mut self, id: &ServiceId, count: Option<u32>) -> (r: Option<StatusChanged>)
        ensures
            !old(self)@.contains_key(id@) ==> final(self)@ == old(self)@ && r is None,
            old(self)@.contains_key(id@) ==> final(self)@ == old(self)@.insert(
                id@,
                status_from_report(count),
            ) && set_reports(old(self)@, id@, status_from_report(count), r),
    {
        if !self.statuses.contains_key(id) {
            return None;
        }
        self.set(id, ServiceStatus::from_report(count))
    }

    /// Marks `id` `Stale` (its reports stopped). Ignored for an
    /// unregistered `id`.
    pub fn mark_stale(&mut self, id: &ServiceId) -> (r: Option<StatusChanged>)
        ensures
            !old(self)@.contains_key(id@) ==> final(self)@ == old(self)@ && r is None,
            old(self)@.contains_key(id@) ==> final(self)@ == old(self)@.insert(
                id@,
                ServiceStatus::Stale,
            ) && set_reports(old(self)@, id@, ServiceStatus::Stale, r),
    {
        if !self.statuses.contains_key(id) {
            return None;
        }
        self.set(id, ServiceStatus::Stale)
    }

    /// Applies a page-load origin check: a different origin sets
    /// `NeedsAttention(OffOrigin)`; the same origin or an `about:` page
    /// changes nothing. Ignored for an unregistered `id`.
    pub fn record_page_load(
        &mut self,
        id: &ServiceId,
        page_url: &ParsedUrl,
        service_origin: &Option<String>,
    ) -> (r: Option<StatusChanged>)
        ensures
            ({
                let off = off_origin(
                    page_url@.scheme,
                    page_url@.origin,
                    match service_origin { Some(o) => Some(o@), None => None },
                );
                &&& (!old(self)@.contains_key(id@) || !off) ==> final(self)@ == old(self)@ && r is None
                &&& (old(self)@.contains_key(id@) && off) ==> final(self)@ == old(self)@.insert(
                    id@,
                    ServiceStatus::off_origin_value(),
                ) && set_reports(old(self)@, id@, ServiceStatus::off_origin_value(), r)
            }),
    {
        if !self.statuses.contains_key(id) {
            return None;
        }
        if !is_off_origin(page_url, service_origin) {
            return None;
        }
        self.set(id, ServiceStatus::off_origin())
    }

    /// Unregisters `id`. No change is reported.
    pub fn remove(&mut self, id: &ServiceId)
        ensures
            final(self)@ == old(self)@.remove(id@),
    {
        self.statuses.remove(id);
    }

    fn set(&mut self, id: &ServiceId, new_status: ServiceStatus) -> (r: Option<StatusChanged>)
        ensures
            final(self)@ == old(self)@.insert(id@, new_status),
            set_reports(old(self)@, id@, new_status, r),
    {
        match self.statuses.get(id) {
            Some(current) => {
                if *current == new_status {
                    assert(self@ =~= self@.insert(id@, new_status));
                    return None;
                }
            },
            None => {},
        }
        self.statuses.insert(id.clone(), new_status);
        Some(StatusChanged { service_id: id.clone(), status: new_status })
    }
}

impl ServiceStatus {
    /// `NeedsAttention(CreateFailed)`, as a spec value.
    pub open spec fn create_failed_value() -> ServiceStatus {
        ServiceStatus::NeedsAttention { reason: AttentionReason::CreateFailed }
    }

    /// `NeedsAttention(OffOrigin)`, as a spec value.
    pub open spec fn off_origin_value() -> ServiceStatus {
        ServiceStatus::NeedsAttention { reason: AttentionReason::OffOrigin }
    }
}

/// Calls `emit` with `changed`'s payload only when a mutation actually
/// changed a status.
pub fn emit_if_changed<F: FnOnce(StatusChanged)>(changed: Option<StatusChanged>, emit: F)
    requires
        changed matches Some(c) ==> emit.requires((c,)),
    ensures
        changed matches Some(c) ==> emit.ensures((c,), ()),
{
    if let Some(changed) = changed {
        emit(changed);
    }
}

} // verus!

verus! {

/// Setting a service to the status it already has, right after setting
/// it, reports no change: every change is reported exactly once.
pub proof fn lemma_repeat_reports_nothing(
    before: Map<Seq<char>, ServiceStatus>,
    id: Seq<char>,
    new: ServiceStatus,
    r: Option<StatusChanged>,
)
    ensures
        set_reports(before.insert(id, new), id, new, r) ==> r is None,
{
}

} // verus!
