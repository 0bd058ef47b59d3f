//! The decisions of the background saver: when to write `state.json`,
//! given whether a change is waiting, whether the store is shutting down,
//! and how long ago the last write was attempted. The waiting and the
//! writing are the platform layer's.

use vstd::prelude::*;

verus! {

/// What the saver knows each time it wakes.
#[derive(Debug, Clone, Copy, PartialEq, Eq, Structural)]
pub struct WorkerFlags {
    /// A change has not been written yet.
    pub dirty: bool,
    /// The store is being dropped: stop (the drop flushes what is left).
    pub shutdown: bool,
}

/// What the saver does next.
#[derive(Debug, Clone, Copy, PartialEq, Eq, Structural)]
pub enum WorkerStep {
    /// Shut down.
    Exit,
    /// Nothing to write: sleep until woken by a change or a shutdown.
    WaitForChange,
    /// A change is waiting, but the last write was too recent: sleep this
    /// many more milliseconds first.
    WaitFor { ms: u64 },
    /// Write the current state now.
    Save,
}

/// The saver's next step. A shutdown wins over everything; without a
/// pending change it sleeps; otherwise it writes at most once per
/// `interval_ms`, counted from the end of the last attempt
/// (`since_last_save_ms`, `None` before the first), failed attempts
/// included.
pub open spec fn step_of(flags: WorkerFlags, since_last_save_ms: Option<u64>, interval_ms: u64) -> WorkerStep {
    if flags.shutdown {
        WorkerStep::Exit
    } else if !flags.dirty {
        WorkerStep::WaitForChange
    } else {
        match since_last_save_ms {
            Some(e) => if e < interval_ms {
                WorkerStep::WaitFor { ms: (interval_ms - e) as u64 }
            } else {
                WorkerStep::Save
            },
            None => WorkerStep::Save,
        }
    }
}

/// The saver's next step (see [`step_of`]).
pub fn worker_step(flags: WorkerFlags, since_last_save_ms: Option<u64>, interval_ms: u64) -> (s: WorkerStep)
    ensures
        s == step_of(flags, since_last_save_ms, interval_ms),
{
    if flags.shutdown {
        return WorkerStep::Exit;
    }
    if !flags.dirty {
        return WorkerStep::WaitForChange;
    }
    match since_last_save_ms {
        Some(e) => {
            if e < interval_ms {
                WorkerStep::WaitFor { ms: interval_ms - e }
            } else {
                WorkerStep::Save
            }
        },
        None => WorkerStep::Save,
    }
}

/// One time the saver wakes: when (milliseconds on a monotonic clock),
/// what it knows then, and, should it write, when that write ended.
pub struct Wake {
    pub at: u64,
    pub flags: WorkerFlags,
    pub save_ended: u64,
}

/// The step the saver takes at `w`, the last write having ended at
/// `last_end` (`None` before the first).
pub open spec fn step_at(last_end: Option<u64>, w: Wake, interval_ms: u64) -> WorkerStep {
    step_of(
        w.flags,
        match last_end {
            Some(l) => Some((w.at - l) as u64),
            None => None,
        },
        interval_ms,
    )
}

/// When the last write of the run `wakes` ended, if it wrote at all.
pub open spec fn last_save_end(wakes: Seq<Wake>, interval_ms: u64) -> Option<u64>
    decreases wakes.len(),
{
    if wakes.len() == 0 {
        None
    } else {
        let prev = last_save_end(wakes.drop_last(), interval_ms);
        if step_at(prev, wakes.last(), interval_ms) == WorkerStep::Save {
            Some(wakes.last().save_ended)
        } else {
            prev
        }
    }
}

/// Over any run of the saver, each wake coming no earlier than the end
/// of the write before it: a shutdown never writes; each write starts at
/// least `interval_ms` after the previous write ended; and while a change
/// is pending, the saver either writes or sleeps exactly until
/// `interval_ms` after the previous write ended, so rapid changes never
/// bring a write closer and never put one off further.
pub proof fn lemma_saves_are_spaced(wakes: Seq<Wake>, interval_ms: u64)
    requires
        forall|k: int|
            0 <= k < wakes.len() ==> (last_save_end(#[trigger] wakes.take(k), interval_ms) matches Some(l)
                ==> wakes[k].at >= l),
    ensures
        forall|k: int|
            0 <= k < wakes.len() ==> {
                let prev = last_save_end(#[trigger] wakes.take(k), interval_ms);
                let s = step_at(prev, wakes[k], interval_ms);
                &&& wakes[k].flags.shutdown ==> s == WorkerStep::Exit
                &&& prev matches Some(l) ==> {
                    &&& s == WorkerStep::Save ==> wakes[k].at >= l + interval_ms
                    &&& wakes[k].flags.dirty && !wakes[k].flags.shutdown ==> (s == WorkerStep::Save || (
                    s matches WorkerStep::WaitFor { ms } && wakes[k].at + ms == l + interval_ms))
                }
            },
{
    assert forall|k: int| 0 <= k < wakes.len() implies {
        let prev = last_save_end(#[trigger] wakes.take(k), interval_ms);
        let s = step_at(prev, wakes[k], interval_ms);
        &&& wakes[k].flags.shutdown ==> s == WorkerStep::Exit
        &&& prev matches Some(l) ==> {
            &&& s == WorkerStep::Save ==> wakes[k].at >= l + interval_ms
            &&& wakes[k].flags.dirty && !wakes[k].flags.shutdown ==> (s == WorkerStep::Save || (s matches WorkerStep::WaitFor {
                ms,
            } && wakes[k].at + ms == l + interval_ms))
        }
    } by {
        let prev = last_save_end(wakes.take(k), interval_ms);
        if let Some(l) = prev {
            assert(wakes[k].at >= l);
        }
    }
}

} // verus!
