//! What the icon resolver remembers between reports: the icon candidates
//! each service's agent last listed, and which services have a
//! resolution under way, so that one never starts twice.

use vstd::prelude::*;

use crate::config::ServiceId;
use crate::idmap::IdMap;
use crate::weburl::{ParsedUrl, UrlView};

verus! {

/// The candidate URLs and the resolutions under way.
pub struct IconBook {
    candidates: IdMap<Vec<ParsedUrl>>,
    resolving: IdMap<()>,
}

impl IconBook {
    /// The candidates last recorded for `id` (none if never recorded).
    pub closed spec fn candidates_of(self, id: Seq<char>) -> Seq<UrlView> {
        if self.candidates@.contains_key(id) {
            self.candidates@[id]@.map_values(|u: ParsedUrl| u@)
        } else {
            Seq::empty()
        }
    }

    /// The services with a resolution under way.
    pub closed spec fn resolving_ids(self) -> Set<Seq<char>> {
        self.resolving@.dom()
    }

    /// Nothing recorded, nothing resolving.
    pub fn new() -> (b: Self)
        ensures
            forall|id: Seq<char>| b.candidates_of(id) == Seq::<UrlView>::empty(),
            b.resolving_ids() == Set::<Seq<char>>::empty(),
    {
        IconBook { candidates: IdMap::new(), resolving: IdMap::new() }
    }

    /// Records `candidates` as `id`'s latest list and says whether a
    /// resolution should start now: only when no icon is cached yet
    /// (`cached` false) and none is already under way, in which case `id`
    /// is now resolving.
    pub fn record_candidates(&mut self, id: &ServiceId, candidates: Vec<ParsedUrl>, cached: bool) -> (start: bool)
        ensures
            final(self).candidates_of(id@) == candidates@.map_values(|u: ParsedUrl| u@),
            forall|k: Seq<char>| k != id@ ==> final(self).candidates_of(k) == old(self).candidates_of(k),
            start == (!cached && !old(self).resolving_ids().contains(id@)),
            final(self).resolving_ids() == (if start {
                old(self).resolving_ids().insert(id@)
            } else {
                old(self).resolving_ids()
            }),
    {
        self.candidates.insert(id.clone(), candidates);
        if cached {
            return false;
        }
        self.begin_resolving(id)
    }

    /// A copy of `id`'s latest candidates.
    pub fn known_candidates(&self, id: &ServiceId) -> (c: Vec<ParsedUrl>)
        ensures
            c@.map_values(|u: ParsedUrl| u@) == self.candidates_of(id@),
    {
        match self.candidates.get(id) {
            None => Vec::new(),
            Some(v) => {
                let mut out: Vec<ParsedUrl> = Vec::new();
                let mut i: usize = 0;
                while i < v.len()
                    invariant
                        i <= v@.len(),
                        out@.len() == i,
                        forall|j: int| 0 <= j < i ==> (#[trigger] out@[j])@ == v@[j]@,
                    decreases v@.len() - i,
                {
                    out.push(v[i].clone());
                    i = i + 1;
                }
                assert(out@.map_values(|u: ParsedUrl| u@) =~= v@.map_values(|u: ParsedUrl| u@));
                out
            },
        }
    }

    /// Marks `id` as resolving; says whether it was not already.
    pub fn begin_resolving(&mut self, id: &ServiceId) -> (started: bool)
        ensures
            started == !old(self).resolving_ids().contains(id@),
            final(self).resolving_ids() == old(self).resolving_ids().insert(id@),
            forall|k: Seq<char>| final(self).candidates_of(k) == old(self).candidates_of(k),
    {
        let started = !self.resolving.contains_key(id);
        self.resolving.insert(id.clone(), ());
        proof {
            assert(self.resolving_ids() =~= old(self).resolving_ids().insert(id@));
        }
        started
    }

    /// `id`'s resolution has finished, whatever its outcome.
    pub fn end_resolving(&mut self, id: &ServiceId)
        ensures
            final(self).resolving_ids() == old(self).resolving_ids().remove(id@),
            forall|k: Seq<char>| final(self).candidates_of(k) == old(self).candidates_of(k),
    {
        self.resolving.remove(id);
        proof {
            assert(self.resolving_ids() =~= old(self).resolving_ids().remove(id@));
        }
    }

    /// Forgets everything about `id`.
    pub fn forget(&mut self, id: &ServiceId)
        ensures
            final(self).candidates_of(id@) == Seq::<UrlView>::empty(),
            forall|k: Seq<char>| k != id@ ==> final(self).candidates_of(k) == old(self).candidates_of(k),
            final(self).resolving_ids() == old(self).resolving_ids().remove(id@),
    {
        self.candidates.remove(id);
        self.end_resolving(id);
    }
}

} // verus!
