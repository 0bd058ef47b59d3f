//! The clock seam of liveness monitoring and the pure helpers its driving
//! loop uses: evaluating a tick or a report's touch against a [`Clock`]
//! that may fail, tagging decided actions with their service's generation,
//! and the checks made right before an action is applied.

use vstd::prelude::*;

use crate::config::ServiceId;
use crate::idmap::IdMap;
use crate::unread::ServiceStatus;

use super::machine::{
    next_generation, ticked, touched, Action, ActionKind, LivenessMachine, ServiceLiveness,
};

verus! {

/// Why [`Clock::now_ms`] could not produce a time.
#[derive(Debug, Clone, PartialEq, Eq)]
pub struct ClockError(pub String);

impl ClockError {
    /// The reason, as text.
    pub fn message(&self) -> (m: &str)
        ensures
            m@ == self.0@,
    {
        self.0.as_str()
    }
}

/// A source of the current time in Unix epoch milliseconds. Fallible on
/// purpose: a time that could not be read is never replaced by a made-up
/// one; the tick or touch it was for is skipped instead.
pub trait Clock {
    fn now_ms(&self) -> Result<u64, ClockError>;
}

/// The real wall clock.
#[derive(Debug, Default)]
pub struct SystemClock;

/// Reads the wall clock: `std::time::SystemTime::now()` measured by
/// `duration_since(UNIX_EPOCH)`, in whole milliseconds, or the error's
/// text when the clock reads earlier than the epoch. Nothing is promised
/// of the value: it is the machine's time.
#[verifier::external_body]
fn wall_clock_ms() -> (r: Result<u64, ClockError>) {
    match std::time::SystemTime::now().duration_since(std::time::UNIX_EPOCH) {
        Ok(elapsed) => Ok(elapsed.as_millis() as u64),
        Err(err) => Err(ClockError(err.to_string())),
    }
}

impl Clock for SystemClock {
    fn now_ms(&self) -> Result<u64, ClockError> {
        wall_clock_ms()
    }
}

/// One tick given what the clock answered: on a time, exactly
/// [`LivenessMachine::tick`] at that time; on an error, no actions and the
/// machine left exactly as it was.
pub fn evaluate_tick_at(
    now: Result<u64, ClockError>,
    machine: &mut LivenessMachine,
    statuses: &IdMap<ServiceStatus>,
) -> (actions: Vec<Action>)
    ensures
        match now {
            Ok(t) => ticked(old(machine)@, *final(machine), statuses@, t, actions@),
            Err(_) => *final(machine) == *old(machine) && actions@.len() == 0,
        },
{
    match now {
        Ok(now_ms) => machine.tick(now_ms, statuses),
        Err(_) => Vec::new(),
    }
}

/// Evaluates one tick against `clock`: a tick at the time it reads, or,
/// when it cannot read one, nothing at all.
pub fn evaluate_tick<C: Clock>(
    clock: &C,
    machine: &mut LivenessMachine,
    statuses: &IdMap<ServiceStatus>,
) -> (actions: Vec<Action>)
    ensures
        (*final(machine) == *old(machine) && actions@.len() == 0) || exists|t: u64|
            ticked(old(machine)@, *final(machine), statuses@, t, actions@),
{
    let now = clock.now_ms();
    evaluate_tick_at(now, machine, statuses)
}

/// Applies a report's arrival given the time read for it: on `Ok(t)`
/// touches `id` at `t` and returns `Some(t)`; on a clock error leaves the
/// machine exactly as it was and returns `None`.
pub fn evaluate_touch_at(now: Result<u64, ClockError>, machine: &mut LivenessMachine, id: &ServiceId) -> (r: Option<
    u64,
>)
    ensures
        match now {
            Ok(t) => r == Some(t) && final(machine)@ == old(machine)@.insert(
                id@,
                touched(
                    if old(machine)@.contains_key(id@) {
                        Some(old(machine)@[id@])
                    } else {
                        None
                    },
                    t,
                ),
            ),
            Err(_) => r is None && *final(machine) == *old(machine),
        },
{
    match now {
        Ok(now_ms) => {
            machine.touch(id, now_ms);
            Some(now_ms)
        },
        Err(_) => None,
    }
}

/// Evaluates a report's arrival against `clock`: touches `id` at the time
/// read and returns it, or, when no time can be read, leaves the machine
/// exactly as it was and returns `None` (see [`evaluate_touch_at`]).
pub fn evaluate_touch<C: Clock>(clock: &C, machine: &mut LivenessMachine, id: &ServiceId) -> (r: Option<u64>)
    ensures
        match r {
            Some(t) => final(machine)@ == old(machine)@.insert(
                id@,
                touched(
                    if old(machine)@.contains_key(id@) {
                        Some(old(machine)@[id@])
                    } else {
                        None
                    },
                    t,
                ),
            ),
            None => *final(machine) == *old(machine),
        },
{
    let now = clock.now_ms();
    evaluate_touch_at(now, machine, id)
}

/// The service an action names.
pub fn action_service_id(action: &Action) -> (id: &ServiceId)
    ensures
        id@ == action@.1,
{
    match action {
        Action::MarkStale { id } => id,
        Action::Reload { id } => id,
        Action::Recreate { id } => id,
    }
}

/// An action paired with the generation its service had when the tick
/// decided it.
#[derive(Debug)]
pub struct Tagged {
    pub action: Action,
    pub generation: u64,
}

impl View for Tagged {
    type V = ((ActionKind, Seq<char>), u64);

    open spec fn view(&self) -> ((ActionKind, Seq<char>), u64) {
        (self.action@, self.generation)
    }
}

impl Clone for Tagged {
    fn clone(&self) -> (r: Self)
        ensures
            r@ == self@,
    {
        Tagged { action: self.action.clone(), generation: self.generation }
    }
}

impl PartialEq for Tagged {
    fn eq(&self, other: &Self) -> (r: bool) {
        self.action == other.action && self.generation == other.generation
    }
}

impl Eq for Tagged {}

impl vstd::std_specs::cmp::PartialEqSpecImpl for Tagged {
    open spec fn obeys_eq_spec() -> bool {
        true
    }

    open spec fn eq_spec(&self, other: &Self) -> bool {
        self@ == other@
    }
}

/// `acts`, in order, each tagged with its service's generation in `m`;
/// an action whose service `m` does not track is dropped.
pub open spec fn tag_views(
    acts: Seq<(ActionKind, Seq<char>)>,
    m: Map<Seq<char>, ServiceLiveness>,
) -> Seq<((ActionKind, Seq<char>), u64)>
    decreases acts.len(),
{
    if acts.len() == 0 {
        seq![]
    } else {
        let rest = tag_views(acts.drop_last(), m);
        let a = acts.last();
        if m.contains_key(a.1) {
            rest.push((a, m[a.1].generation))
        } else {
            rest
        }
    }
}

/// The views of `tagged`, in order.
pub open spec fn tagged_views(tagged: Seq<Tagged>) -> Seq<((ActionKind, Seq<char>), u64)> {
    tagged.map_values(|t: Tagged| t@)
}

/// Tags every action with its service's current generation in `machine`;
/// an action for a service `machine` does not track is dropped.
pub fn tag_actions(machine: &LivenessMachine, actions: Vec<Action>) -> (tagged: Vec<Tagged>)
    ensures
        tagged_views(tagged@) == tag_views(actions@.map_values(|a: Action| a@), machine@),
{
    let ghost views = actions@.map_values(|a: Action| a@);
    let mut tagged: Vec<Tagged> = Vec::new();
    let mut i: usize = 0;
    while i < actions.len()
        invariant
            i <= actions@.len(),
            views == actions@.map_values(|a: Action| a@),
            tagged_views(tagged@) == tag_views(views.take(i as int), machine@),
        decreases actions@.len() - i,
    {
        let action = &actions[i];
        let id = action_service_id(action);
        let g = machine.generation(id);
        proof {
            assert(views.take(i + 1).drop_last() =~= views.take(i as int));
            assert(views.take(i + 1).last() == action@);
        }
        match g {
            Some(generation) => {
                let ghost before = tagged_views(tagged@);
                tagged.push(Tagged { action: action.clone(), generation });
                assert(tagged_views(tagged@) =~= before.push((action@, generation)));
            },
            None => {},
        }
        i = i + 1;
    }
    assert(views.take(actions@.len() as int) =~= views);
    tagged
}

/// Whether `tagged` may still be applied: its service's generation right
/// now (`None` when it is no longer tracked) is the one it was tagged with.
pub fn is_current(tagged: &Tagged, current_generation: Option<u64>) -> (b: bool)
    ensures
        b == (current_generation == Some(tagged.generation)),
{
    match current_generation {
        Some(g) => g == tagged.generation,
        None => false,
    }
}

/// Whether a time `now_ms` should replace `existing`, a stored time that
/// only moves forward: when none is stored, or the new one is not older
/// (events can be handled out of order).
pub fn is_newer_last_at(now_ms: u64, existing: Option<u64>) -> (b: bool)
    ensures
        b == match existing {
            None => true,
            Some(e) => now_ms >= e,
        },
{
    match existing {
        None => true,
        Some(e) => now_ms >= e,
    }
}

/// A report arriving after an action was tagged makes that action stale:
/// touching its service moves the generation away from the tag.
pub proof fn lemma_touch_invalidates_tag(before: Map<Seq<char>, ServiceLiveness>, id: Seq<char>, now: u64)
    requires
        before.contains_key(id),
    ensures
        touched(Some(before[id]), now).generation != before[id].generation,
{
}

/// The generation after a touch always differs from the one before.
pub proof fn lemma_next_generation_differs(g: u64)
    ensures
        next_generation(g) != g,
{
}

} // verus!
