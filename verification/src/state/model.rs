//! Per-service persisted values.

use std::collections::VecDeque;

use vstd::prelude::*;

use crate::liveness::runtime::is_newer_last_at;
use crate::text::{decimal, decimal_string, join3};

verus! {

/// The most seen message ids kept per service.
pub const SEEN_RING_CAPACITY: usize = 500;

/// The message ids already notified about for one service, oldest first.
/// Insertion (see `notify::seen`) keeps it at most
/// [`SEEN_RING_CAPACITY`] long and free of repeats.
#[derive(Debug)]
pub struct SeenRing(pub VecDeque<String>);

impl SeenRing {
    /// An empty ring.
    pub fn new() -> (r: Self)
        ensures
            r.0@.len() == 0,
    {
        SeenRing(VecDeque::new())
    }

    /// The ring holding `ids`, as read back from storage; more than
    /// [`SEEN_RING_CAPACITY`] ids is corrupt data, refused rather than
    /// cut down.
    pub fn from_ids(ids: VecDeque<String>) -> (r: Result<Self, String>)
        ensures
            ids@.len() <= SEEN_RING_CAPACITY ==> (r matches Ok(ring) && ring.0@ == ids@),
            ids@.len() > SEEN_RING_CAPACITY ==> (r matches Err(m) && m@ == "seen ring has "@
                + decimal(ids@.len()) + " entries, exceeding capacity of 500"@),
    {
        if ids.len() > SEEN_RING_CAPACITY {
            let n = decimal_string(ids.len() as u64);
            return Err(join3("seen ring has ", n.as_str(), " entries, exceeding capacity of 500"));
        }
        Ok(SeenRing(ids))
    }
}

/// The index of the first ring length in `lens` over
/// [`SEEN_RING_CAPACITY`], if any: such a ring is corrupt data, refused
/// rather than written.
pub fn first_over_capacity(lens: &Vec<usize>) -> (r: Option<usize>)
    ensures
        match r {
            Some(i) => i < lens@.len() && lens@[i as int] > SEEN_RING_CAPACITY && forall|j: int|
                0 <= j < i ==> lens@[j] <= SEEN_RING_CAPACITY,
            None => forall|j: int| 0 <= j < lens@.len() ==> lens@[j] <= SEEN_RING_CAPACITY,
        },
{
    let mut i: usize = 0;
    while i < lens.len()
        invariant
            i <= lens@.len(),
            forall|j: int| 0 <= j < i ==> lens@[j] <= SEEN_RING_CAPACITY,
        decreases lens@.len() - i,
    {
        if lens[i] > SEEN_RING_CAPACITY {
            return Some(i);
        }
        i = i + 1;
    }
    None
}

/// Staleness bookkeeping for one service.
#[derive(Debug, Clone, Copy, PartialEq, Eq, Structural)]
pub struct StalenessStats {
    /// How many times the service has been marked stale.
    pub count: u32,
    /// Unix epoch milliseconds of the latest time the service was marked
    /// stale (not of its latest report); `None` until then.
    pub last_at: Option<u64>,
}

impl StalenessStats {
    /// The record of a service never marked stale.
    pub fn new() -> (r: Self)
        ensures
            r.count == 0,
            r.last_at is None,
    {
        StalenessStats { count: 0, last_at: None }
    }

    /// The record after one more stale episode, marked at `now_ms` when
    /// the clock could be read: the count goes up by one (staying at
    /// `u32::MAX` once there), and the time becomes `now_ms` unless that
    /// would move it back (see [`is_newer_last_at`]); it stays as it was
    /// when no time is known.
    pub fn after_stale(self, now_ms: Option<u64>) -> (r: Self)
        ensures
            r.count == (if self.count == u32::MAX {
                u32::MAX as int
            } else {
                self.count + 1
            }),
            r.last_at == match (now_ms, self.last_at) {
                (Some(t), Some(e)) => if t >= e {
                    Some(t)
                } else {
                    Some(e)
                },
                (Some(t), None) => Some(t),
                (None, e) => e,
            },
    {
        StalenessStats {
            count: if self.count == u32::MAX {
                u32::MAX
            } else {
                self.count + 1
            },
            last_at: match now_ms {
                Some(t) => if is_newer_last_at(t, self.last_at) {
                    Some(t)
                } else {
                    self.last_at
                },
                None => self.last_at,
            },
        }
    }
}

} // verus!
