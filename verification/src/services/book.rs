//! The service manager's bookkeeping, apart from the webviews it drives:
//! which services still wait for their startup turn, which have a live
//! webview, why the last creation of each failed, which origins each has
//! been granted, and which one is active. The platform layer performs
//! each webview call and reports its outcome here.

use vstd::prelude::*;

use crate::config::{ProfileName, ServiceConfig, ServiceId};
use crate::idmap::IdMap;
use crate::profile::key::{key_text, service_key_text, uuid_still_in_use, KeyView, ProfileKey, ProfileTable};

verus! {

/// The ids of `services`, in order.
pub open spec fn service_ids(services: Seq<ServiceConfig>) -> Seq<Seq<char>> {
    services.map_values(|s: ServiceConfig| s@.id)
}

/// Index `i` is the first entry of `services` with id `id`.
pub open spec fn first_index_of(services: Seq<ServiceConfig>, id: Seq<char>, i: int) -> bool {
    &&& 0 <= i < services.len()
    &&& services[i]@.id == id
    &&& forall|j: int| 0 <= j < i ==> (#[trigger] services[j])@.id != id
}

/// What startup does once a service's webview exists.
#[derive(Debug, Clone, Copy, PartialEq, Eq, Structural)]
pub enum StartupActivation {
    /// Some service is already active: startup leaves it so and stops
    /// trying.
    Settled,
    /// This service has no webview (removed meanwhile): try the next one.
    NotEligible,
    /// Activate this service.
    Activate,
}

/// The manager's record of its services, apart from the webviews.
pub struct ServiceBook {
    pending: Vec<ServiceId>,
    created: IdMap<()>,
    create_errors: IdMap<String>,
    granted: IdMap<Vec<String>>,
    active: Option<ServiceId>,
}

impl ServiceBook {
    /// The ids still waiting for their startup turn, in order.
    pub closed spec fn pending_ids(self) -> Seq<Seq<char>> {
        self.pending@.map_values(|p: ServiceId| p@)
    }

    /// The ids with a live webview.
    pub closed spec fn created_ids(self) -> Set<Seq<char>> {
        self.created@.dom()
    }

    /// The last creation error of each service whose last creation failed.
    pub closed spec fn errors(self) -> Map<Seq<char>, String> {
        self.create_errors@
    }

    /// The origins each service has been granted so far.
    pub closed spec fn granted_origins(self, id: Seq<char>) -> Seq<Seq<char>> {
        if self.granted@.contains_key(id) {
            self.granted@[id]@.map_values(|o: String| o@)
        } else {
            Seq::empty()
        }
    }

    /// The active service, if any.
    pub closed spec fn active_id(self) -> Option<Seq<char>> {
        match self.active {
            Some(a) => Some(a@),
            None => None,
        }
    }

    /// Nothing pending, created, failed, granted or active.
    pub fn new() -> (b: Self)
        ensures
            b.pending_ids() == Seq::<Seq<char>>::empty(),
            b.created_ids() == Set::<Seq<char>>::empty(),
            b.errors() == Map::<Seq<char>, String>::empty(),
            forall|id: Seq<char>| b.granted_origins(id) == Seq::<Seq<char>>::empty(),
            b.active_id() is None,
    {
        let b = ServiceBook {
            pending: Vec::new(),
            created: IdMap::new(),
            create_errors: IdMap::new(),
            granted: IdMap::new(),
            active: None,
        };
        assert(b.pending_ids() =~= Seq::<Seq<char>>::empty());
        assert(b.created_ids() =~= Set::<Seq<char>>::empty());
        b
    }

    /// Queues every service of `services`, in sidebar order, for its
    /// startup turn.
    pub fn start_pending(&mut self, services: &[ServiceConfig])
        ensures
            final(self).pending_ids() == service_ids(services@),
            final(self).created_ids() == old(self).created_ids(),
            final(self).errors() == old(self).errors(),
            forall|id: Seq<char>| final(self).granted_origins(id) == old(self).granted_origins(id),
            final(self).active_id() == old(self).active_id(),
    {
        let mut ids: Vec<ServiceId> = Vec::new();
        let mut i: usize = 0;
        while i < services.len()
            invariant
                i <= services@.len(),
                ids@.len() == i,
                forall|j: int| 0 <= j < i ==> (#[trigger] ids@[j])@ == services@[j]@.id,
            decreases services@.len() - i,
        {
            let id = services[i].id.clone();
            ids.push(id);
            i = i + 1;
        }
        assert(ids@.map_values(|p: ServiceId| p@) =~= service_ids(services@));
        self.pending = ids;
    }

    /// A service's startup turn has come (or it was destroyed or
    /// recreated): it no longer waits.
    pub fn finish_pending(&mut self, id: &ServiceId)
        ensures
            final(self).pending_ids() == old(self).pending_ids().filter(|p: Seq<char>| p != id@),
            final(self).created_ids() == old(self).created_ids(),
            final(self).errors() == old(self).errors(),
            forall|k: Seq<char>| final(self).granted_origins(k) == old(self).granted_origins(k),
            final(self).active_id() == old(self).active_id(),
    {
        let ghost before = self.pending_ids();
        let mut kept: Vec<ServiceId> = Vec::new();
        let mut i: usize = 0;
        while i < self.pending.len()
            invariant
                i <= self.pending@.len(),
                before == self.pending@.map_values(|p: ServiceId| p@),
                kept@.map_values(|p: ServiceId| p@) == before.take(i as int).filter(
                    |p: Seq<char>| p != id@,
                ),
            decreases self.pending@.len() - i,
        {
            proof {
                let t = before.take(i + 1);
                assert(t.drop_last() =~= before.take(i as int));
                before.take(i as int).lemma_filter_push(before[i as int], |p: Seq<char>| p != id@);
                assert(before.take(i as int).push(before[i as int]) =~= t);
            }
            if self.pending[i] != *id {
                let p = self.pending[i].clone();
                kept.push(p);
                assert(kept@.map_values(|p: ServiceId| p@) =~= before.take(i as int).filter(
                    |p: Seq<char>| p != id@,
                ).push(before[i as int]));
            }
            i = i + 1;
        }
        assert(before.take(before.len() as int) =~= before);
        self.pending = kept;
    }

    /// The ids still waiting for their startup turn, in order.
    pub fn pending(&self) -> (p: &[ServiceId])
        ensures
            p@.map_values(|x: ServiceId| x@) == self.pending_ids(),
    {
        self.pending.as_slice()
    }

    /// Whether `id` has a live webview.
    pub fn is_created(&self, id: &ServiceId) -> (b: bool)
        ensures
            b == self.created_ids().contains(id@),
    {
        self.created.contains_key(id)
    }

    /// The service to create for `id`: the first entry of `services` with
    /// that id, unless there is none or `id` already has a webview (both
    /// are skipped, not errors).
    pub fn create_target<'a>(&self, services: &'a [ServiceConfig], id: &ServiceId) -> (r: Option<
        &'a ServiceConfig,
    >)
        ensures
            r is Some <==> (service_ids(services@).contains(id@) && !self.created_ids().contains(
                id@,
            )),
            r matches Some(s) ==> exists|i: int| first_index_of(services@, id@, i) && *s == services@[i],
    {
        if self.is_created(id) {
            proof {
                assert(!(service_ids(services@).contains(id@) && !self.created_ids().contains(id@)));
            }
            return None;
        }
        let mut i: usize = 0;
        while i < services.len()
            invariant
                i <= services@.len(),
                !self.created_ids().contains(id@),
                forall|j: int| 0 <= j < i ==> (#[trigger] services@[j])@.id != id@,
            decreases services@.len() - i,
        {
            if services[i].id == *id {
                proof {
                    assert(first_index_of(services@, id@, i as int));
                    assert(service_ids(services@)[i as int] == id@);
                }
                return Some(&services[i]);
            }
            i = i + 1;
        }
        proof {
            if service_ids(services@).contains(id@) {
                let k = choose|k: int| 0 <= k < services@.len() && service_ids(services@)[k] == id@;
                assert(services@[k]@.id == id@);
            }
        }
        None
    }

    /// `id`'s webview was created: it is live and its last creation did
    /// not fail.
    pub fn record_created(&mut self, id: &ServiceId)
        ensures
            final(self).created_ids() == old(self).created_ids().insert(id@),
            final(self).errors() == old(self).errors().remove(id@),
            final(self).pending_ids() == old(self).pending_ids(),
            forall|k: Seq<char>| final(self).granted_origins(k) == old(self).granted_origins(k),
            final(self).active_id() == old(self).active_id(),
    {
        self.created.insert(id.clone(), ());
        self.create_errors.remove(id);
    }

    /// Creating (or recreating) `id`'s webview failed with `message`.
    pub fn record_create_error(&mut self, id: &ServiceId, message: String)
        ensures
            final(self).errors() == old(self).errors().insert(id@, message),
            final(self).created_ids() == old(self).created_ids(),
            final(self).pending_ids() == old(self).pending_ids(),
            forall|k: Seq<char>| final(self).granted_origins(k) == old(self).granted_origins(k),
            final(self).active_id() == old(self).active_id(),
    {
        self.create_errors.insert(id.clone(), message);
    }

    /// `id`'s last creation error, if its last creation failed.
    pub fn create_error(&self, id: &ServiceId) -> (r: Option<&String>)
        ensures
            r is Some <==> self.errors().contains_key(id@),
            r matches Some(m) ==> *m == self.errors()[id@],
    {
        self.create_errors.get(id)
    }

    /// `id`'s webview was destroyed for good (its service was removed):
    /// it is no longer live, no creation error is kept for it, and if it
    /// was active nothing is active now. Returns whether it was active.
    pub fn record_destroyed(&mut self, id: &ServiceId) -> (was_active: bool)
        ensures
            was_active == (old(self).active_id() == Some(id@)),
            final(self).created_ids() == old(self).created_ids().remove(id@),
            final(self).errors() == old(self).errors().remove(id@),
            final(self).active_id() == (if was_active {
                None
            } else {
                old(self).active_id()
            }),
            final(self).pending_ids() == old(self).pending_ids(),
            forall|k: Seq<char>| final(self).granted_origins(k) == old(self).granted_origins(k),
    {
        self.create_errors.remove(id);
        self.record_torn_down(id)
    }

    /// `id`'s webview was destroyed to be built again: it is no longer
    /// live and, if it was active, nothing is active now; its creation
    /// error, if any, stays until the new creation settles it. Returns
    /// whether it was active.
    pub fn record_torn_down(&mut self, id: &ServiceId) -> (was_active: bool)
        ensures
            was_active == (old(self).active_id() == Some(id@)),
            final(self).created_ids() == old(self).created_ids().remove(id@),
            final(self).errors() == old(self).errors(),
            final(self).active_id() == (if was_active {
                None
            } else {
                old(self).active_id()
            }),
            final(self).pending_ids() == old(self).pending_ids(),
            forall|k: Seq<char>| final(self).granted_origins(k) == old(self).granted_origins(k),
    {
        self.created.remove(id);
        let was_active = match &self.active {
            Some(a) => *a == *id,
            None => false,
        };
        if was_active {
            self.active = None;
        }
        was_active
    }

    /// `id` is now the active service.
    pub fn set_active(&mut self, id: &ServiceId)
        ensures
            final(self).active_id() == Some(id@),
            final(self).created_ids() == old(self).created_ids(),
            final(self).errors() == old(self).errors(),
            final(self).pending_ids() == old(self).pending_ids(),
            forall|k: Seq<char>| final(self).granted_origins(k) == old(self).granted_origins(k),
    {
        self.active = Some(id.clone());
    }

    /// The active service, if any.
    pub fn active(&self) -> (r: Option<&ServiceId>)
        ensures
            match r {
                Some(a) => self.active_id() == Some(a@),
                None => self.active_id() is None,
            },
    {
        match &self.active {
            Some(a) => Some(a),
            None => None,
        }
    }

    /// What startup does after creating `id`: leave an already active
    /// service as it is; skip `id` if it has no webview; else activate it.
    pub fn startup_activation(&self, id: &ServiceId) -> (r: StartupActivation)
        ensures
            self.active_id() is Some ==> r == StartupActivation::Settled,
            self.active_id() is None && !self.created_ids().contains(id@) ==> r
                == StartupActivation::NotEligible,
            self.active_id() is None && self.created_ids().contains(id@) ==> r
                == StartupActivation::Activate,
    {
        if self.active.is_some() {
            StartupActivation::Settled
        } else if !self.is_created(id) {
            StartupActivation::NotEligible
        } else {
            StartupActivation::Activate
        }
    }

    /// The service to activate once the active one is gone: the first in
    /// sidebar order that has a live webview, if any.
    pub fn next_active(&self, services: &[ServiceConfig]) -> (r: Option<ServiceId>)
        ensures
            r is None <==> forall|i: int|
                0 <= i < services@.len() ==> !self.created_ids().contains(
                    (#[trigger] services@[i])@.id,
                ),
            r matches Some(n) ==> exists|i: int|
                0 <= i < services@.len() && (#[trigger] services@[i])@.id == n@
                    && self.created_ids().contains(n@) && forall|j: int|
                    0 <= j < i ==> !self.created_ids().contains((#[trigger] services@[j])@.id),
    {
        let mut i: usize = 0;
        while i < services.len()
            invariant
                i <= services@.len(),
                forall|j: int| 0 <= j < i ==> !self.created_ids().contains((#[trigger] services@[j])@.id),
            decreases services@.len() - i,
        {
            if self.is_created(&services[i].id) {
                let n = services[i].id.clone();
                assert(services@[i as int]@.id == n@);
                return Some(n);
            }
            i = i + 1;
        }
        None
    }

    /// Whether `origin` was already granted to `id`.
    pub fn origin_granted(&self, id: &ServiceId, origin: &str) -> (b: bool)
        ensures
            b == self.granted_origins(id@).contains(origin@),
    {
        match self.granted.get(id) {
            None => false,
            Some(origins) => {
                let ghost seen = origins@.map_values(|o: String| o@);
                let target = String::from_str(origin);
                assert(self.granted_origins(id@) == seen);
                let mut i: usize = 0;
                while i < origins.len()
                    invariant
                        i <= origins@.len(),
                        seen == origins@.map_values(|o: String| o@),
                        target@ == origin@,
                        self.granted_origins(id@) == seen,
                        forall|j: int| 0 <= j < i ==> seen[j] != origin@,
                    decreases origins@.len() - i,
                {
                    if origins[i] == target {
                        assert(seen[i as int] == origin@);
                        assert(self.granted_origins(id@)[i as int] == origin@);
                        return true;
                    }
                    i = i + 1;
                }
                false
            },
        }
    }

    /// `origin` has now been granted to `id`.
    pub fn record_granted(&mut self, id: &ServiceId, origin: String)
        ensures
            final(self).granted_origins(id@) == old(self).granted_origins(id@).push(origin@),
            forall|k: Seq<char>| k != id@ ==> final(self).granted_origins(k) == old(self).granted_origins(k),
            final(self).created_ids() == old(self).created_ids(),
            final(self).errors() == old(self).errors(),
            final(self).pending_ids() == old(self).pending_ids(),
            final(self).active_id() == old(self).active_id(),
    {
        let mut origins: Vec<String> = match self.granted.get(id) {
            Some(v) => clone_strings(v),
            None => Vec::new(),
        };
        origins.push(origin);
        self.granted.insert(id.clone(), origins);
        proof {
            assert(self.granted_origins(id@) =~= old(self).granted_origins(id@).push(origin@));
        }
    }
}

fn clone_strings(v: &Vec<String>) -> (out: Vec<String>)
    ensures
        out@.map_values(|o: String| o@) == v@.map_values(|o: String| o@),
{
    let mut out: Vec<String> = Vec::new();
    let mut i: usize = 0;
    while i < v.len()
        invariant
            i <= v@.len(),
            out@.len() == i,
            forall|j: int| 0 <= j < i ==> (#[trigger] out@[j])@ == v@[j]@,
        decreases v@.len() - i,
    {
        let o = v[i].clone();
        out.push(o);
        i = i + 1;
    }
    assert(out@.map_values(|o: String| o@) =~= v@.map_values(|o: String| o@));
    out
}

/// The data store to delete when service `id`, which named
/// `removed_profile` (if it was configured), is removed: only when the
/// caller asked for it, the service's profile was `isolated`, a UUID was
/// recorded for its key, and no service of `remaining` still resolves to
/// that UUID.
pub fn profile_data_to_remove(
    delete_session_data: bool,
    removed_profile: Option<&ProfileName>,
    id: &ServiceId,
    remaining: &[ServiceConfig],
    profiles: &ProfileTable,
) -> (r: Option<[u8; 16]>)
    ensures
        r is Some <==> ({
            let k = key_text(KeyView::Isolated(id@));
            &&& delete_session_data
            &&& removed_profile matches Some(p) && p@ == "isolated"@
            &&& profiles@.contains_key(k)
            &&& !exists|i: int|
                0 <= i < remaining@.len() && #[trigger] profiles@.contains_key(
                    service_key_text(remaining@[i]@),
                ) && profiles@[service_key_text(remaining@[i]@)] == profiles@[k]
        }),
        r matches Some(u) ==> u@ == profiles@[key_text(KeyView::Isolated(id@))],
{
    if !delete_session_data {
        return None;
    }
    let name = match removed_profile {
        Some(p) => p,
        None => return None,
    };
    if String::from_str(name.as_str()) != String::from_str("isolated") {
        return None;
    }
    let key = ProfileKey::Isolated(id.clone());
    assert(key@ == KeyView::Isolated(id@));
    let uuid = match profiles.get(&key) {
        Some(u) => u,
        None => return None,
    };
    if uuid_still_in_use(remaining, profiles, uuid) {
        return None;
    }
    Some(uuid)
}

} // verus!
