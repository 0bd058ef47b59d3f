//! The pure liveness state machine: given the current time and every
//! service's [`ServiceStatus`], decides which services have gone silent
//! and what to do about it, without performing any of those actions.
//! Every method takes `now_ms` explicitly; nothing here reads a clock.

use vstd::prelude::*;

use crate::config::ServiceId;
use crate::idmap::{has_key, keys_distinct, lemma_entry, lemma_insert_at, lemma_remove, lemma_update, map_of, IdMap};
use crate::order::{id_lt, id_texts, lemma_lt_irreflexive, lemma_lt_total, lemma_lt_transitive, seq_lt, sort_ids, sorted_strict};
use crate::unread::{AttentionReason, ServiceStatus};

verus! {

/// The heartbeat cadence: every agent re-posts its report this often.
pub const TICK_MS: u64 = 30_000;

/// Slack added on top of the missed-reports threshold.
pub const GRACE_MS: u64 = 5_000;

/// How many consecutive missed reports mark a service stale.
pub const MISSED_REPORTS_THRESHOLD: u32 = 2;

/// How many ticks a reloaded service gets to report again before it is
/// destroyed and recreated.
pub const TICKS_AFTER_RELOAD: u32 = 2;

/// `now - last_report > STALE_THRESHOLD_MS` marks a service stale:
/// `MISSED_REPORTS_THRESHOLD` ticks plus the grace period (65 s).
pub const STALE_THRESHOLD_MS: u64 = 2 * TICK_MS + GRACE_MS;

/// What kind of step an [`Action`] asks for.
#[derive(Debug, Clone, Copy, PartialEq, Eq, Structural)]
pub enum ActionKind {
    MarkStale,
    Reload,
    Recreate,
}

/// An action [`LivenessMachine::tick`] wants applied.
#[derive(Debug)]
pub enum Action {
    /// Too many missed reports: mark the service `Stale` and count an
    /// episode.
    MarkStale { id: ServiceId },
    /// Reload the service's webview (always right after its `MarkStale`).
    Reload { id: ServiceId },
    /// Still stale two ticks after the reload: destroy and recreate it.
    Recreate { id: ServiceId },
}

impl View for Action {
    type V = (ActionKind, Seq<char>);

    open spec fn view(&self) -> (ActionKind, Seq<char>) {
        match self {
            Action::MarkStale { id } => (ActionKind::MarkStale, id@),
            Action::Reload { id } => (ActionKind::Reload, id@),
            Action::Recreate { id } => (ActionKind::Recreate, id@),
        }
    }
}

impl Action {
    /// The action of `kind` for `id`.
    pub fn of_kind(kind: ActionKind, id: ServiceId) -> (a: Action)
        ensures
            a@ == (kind, id@),
    {
        match kind {
            ActionKind::MarkStale => Action::MarkStale { id },
            ActionKind::Reload => Action::Reload { id },
            ActionKind::Recreate => Action::Recreate { id },
        }
    }
}

impl Clone for Action {
    fn clone(&self) -> (r: Self)
        ensures
            r@ == self@,
    {
        match self {
            Action::MarkStale { id } => Action::MarkStale { id: id.clone() },
            Action::Reload { id } => Action::Reload { id: id.clone() },
            Action::Recreate { id } => Action::Recreate { id: id.clone() },
        }
    }
}

impl PartialEq for Action {
    fn eq(&self, other: &Self) -> (r: bool) {
        match (self, other) {
            (Action::MarkStale { id: a }, Action::MarkStale { id: b }) => *a == *b,
            (Action::Reload { id: a }, Action::Reload { id: b }) => *a == *b,
            (Action::Recreate { id: a }, Action::Recreate { id: b }) => *a == *b,
            _ => false,
        }
    }
}

impl Eq for Action {}

impl vstd::std_specs::cmp::PartialEqSpecImpl for Action {
    open spec fn obeys_eq_spec() -> bool {
        true
    }

    open spec fn eq_spec(&self, other: &Self) -> bool {
        self@ == other@
    }
}

/// A tracked service's liveness phase.
#[derive(Debug, Clone, Copy, PartialEq, Eq, Structural)]
pub enum Phase {
    /// Waiting for a report.
    Monitoring,
    /// Reloaded once; counting ticks until a recreate is due.
    Reloaded { ticks_since_reload: u32 },
}

/// One tracked service's liveness bookkeeping.
#[derive(Debug, Clone, Copy, PartialEq, Eq, Structural)]
pub struct ServiceLiveness {
    /// When the service was last considered alive: a report, its first
    /// sighting, or its latest recreation.
    pub last_report_ms: u64,
    pub phase: Phase,
    /// Bumped only by [`LivenessMachine::touch`] (a report arriving),
    /// never by `tick`'s own transitions.
    pub generation: u64,
}

/// A service first seen at `now`.
pub open spec fn fresh(now: u64) -> ServiceLiveness {
    ServiceLiveness { last_report_ms: now, phase: Phase::Monitoring, generation: 0 }
}

impl ServiceLiveness {
    /// A service first seen at `now_ms`: monitoring, generation 0.
    pub fn fresh(now_ms: u64) -> (l: Self)
        ensures
            l == fresh(now_ms),
    {
        ServiceLiveness { last_report_ms: now_ms, phase: Phase::Monitoring, generation: 0 }
    }
}

/// Statuses the machine leaves alone: off origin (the agent may not
/// report there) and create-failed (no webview to reload).
pub open spec fn exempt(st: ServiceStatus) -> bool {
    st == (ServiceStatus::NeedsAttention { reason: AttentionReason::OffOrigin })
        || st == (ServiceStatus::NeedsAttention { reason: AttentionReason::CreateFailed })
}

/// Whether `status` is exempt from staleness evaluation.
pub fn is_exempt(status: &ServiceStatus) -> (b: bool)
    ensures
        b == exempt(*status),
{
    match status {
        ServiceStatus::NeedsAttention { reason: AttentionReason::OffOrigin } => true,
        ServiceStatus::NeedsAttention { reason: AttentionReason::CreateFailed } => true,
        _ => false,
    }
}

/// One service's tick: its next bookkeeping and the actions it asks for.
///
/// - Monitoring, not exempt, not already `Stale`, and more than
///   `STALE_THRESHOLD_MS` since the last report: mark stale and reload,
///   then count ticks from the reload.
/// - Reloaded and now exempt: abandon the countdown, monitor afresh.
/// - Reloaded and the `TICKS_AFTER_RELOAD`-th tick since the reload:
///   recreate, monitor afresh.
/// - Otherwise nothing happens (a reloaded service counts one more tick).
pub open spec fn step(l: ServiceLiveness, st: ServiceStatus, now: u64) -> (ServiceLiveness, Seq<ActionKind>) {
    match l.phase {
        Phase::Monitoring => {
            if exempt(st) || st == ServiceStatus::Stale {
                (l, seq![])
            } else if now > l.last_report_ms && now - l.last_report_ms > STALE_THRESHOLD_MS {
                (
                    ServiceLiveness { phase: Phase::Reloaded { ticks_since_reload: 0 }, ..l },
                    seq![ActionKind::MarkStale, ActionKind::Reload],
                )
            } else {
                (l, seq![])
            }
        },
        Phase::Reloaded { ticks_since_reload } => {
            if exempt(st) {
                (ServiceLiveness { last_report_ms: now, phase: Phase::Monitoring, ..l }, seq![])
            } else if ticks_since_reload + 1 >= TICKS_AFTER_RELOAD {
                (
                    ServiceLiveness { last_report_ms: now, phase: Phase::Monitoring, ..l },
                    seq![ActionKind::Recreate],
                )
            } else {
                (
                    ServiceLiveness {
                        phase: Phase::Reloaded { ticks_since_reload: (ticks_since_reload + 1) as u32 },
                        ..l
                    },
                    seq![],
                )
            }
        },
    }
}

/// A reloaded phase never counts as far as `TICKS_AFTER_RELOAD`.
pub open spec fn phase_ok(l: ServiceLiveness) -> bool {
    l.phase matches Phase::Reloaded { ticks_since_reload } ==> ticks_since_reload < TICKS_AFTER_RELOAD
}

fn step_exec(l: ServiceLiveness, status: &ServiceStatus, now_ms: u64) -> (r: (
    ServiceLiveness,
    Vec<ActionKind>,
))
    requires
        phase_ok(l),
    ensures
        r.0 == step(l, *status, now_ms).0,
        r.1@ == step(l, *status, now_ms).1,
        phase_ok(r.0),
{
    let mut kinds: Vec<ActionKind> = Vec::new();
    match l.phase {
        Phase::Monitoring => {
            if is_exempt(status) || *status == ServiceStatus::Stale {
                return (l, kinds);
            }
            let elapsed = now_ms.saturating_sub(l.last_report_ms);
            if elapsed > STALE_THRESHOLD_MS {
                kinds.push(ActionKind::MarkStale);
                kinds.push(ActionKind::Reload);
                assert(kinds@ =~= seq![ActionKind::MarkStale, ActionKind::Reload]);
                return (ServiceLiveness { phase: Phase::Reloaded { ticks_since_reload: 0 }, ..l }, kinds);
            }
            assert(kinds@ =~= Seq::<ActionKind>::empty());
            (l, kinds)
        },
        Phase::Reloaded { ticks_since_reload } => {
            if is_exempt(status) {
                return (ServiceLiveness { last_report_ms: now_ms, phase: Phase::Monitoring, ..l }, kinds);
            }
            let ticks = ticks_since_reload + 1;
            if ticks >= TICKS_AFTER_RELOAD {
                kinds.push(ActionKind::Recreate);
                assert(kinds@ =~= seq![ActionKind::Recreate]);
                return (ServiceLiveness { last_report_ms: now_ms, phase: Phase::Monitoring, ..l }, kinds);
            }
            (ServiceLiveness { phase: Phase::Reloaded { ticks_since_reload: ticks }, ..l }, kinds)
        },
    }
}

/// What the machine knew of `k` before a tick at `now`: its bookkeeping,
/// or a fresh start if it was not tracked.
pub open spec fn prior(old: Map<Seq<char>, ServiceLiveness>, k: Seq<char>, now: u64) -> ServiceLiveness {
    if old.contains_key(k) {
        old[k]
    } else {
        fresh(now)
    }
}

/// The actions a tick at `now` produces, service by service in the order
/// of `keys`, each service's actions in the order [`step`] lists them.
pub open spec fn tick_actions(
    keys: Seq<Seq<char>>,
    old: Map<Seq<char>, ServiceLiveness>,
    statuses: Map<Seq<char>, ServiceStatus>,
    now: u64,
) -> Seq<(ActionKind, Seq<char>)>
    decreases keys.len(),
{
    if keys.len() == 0 {
        seq![]
    } else {
        let k = keys.last();
        tick_actions(keys.drop_last(), old, statuses, now) + step(prior(old, k, now), statuses[k], now).1.map_values(
            |kind: ActionKind| (kind, k),
        )
    }
}

/// The next generation after `g` (wrapping at `u64::MAX`).
pub open spec fn next_generation(g: u64) -> u64 {
    if g == u64::MAX {
        0
    } else {
        (g + 1) as u64
    }
}

/// What `touch` at `now` makes of a service's bookkeeping: monitoring
/// afresh from `now` (never earlier than the last report already
/// recorded), with the next generation; a new service starts at 0.
pub open spec fn touched(before: Option<ServiceLiveness>, now: u64) -> ServiceLiveness {
    match before {
        Some(l) => ServiceLiveness {
            last_report_ms: if now >= l.last_report_ms { now } else { l.last_report_ms },
            phase: Phase::Monitoring,
            generation: next_generation(l.generation),
        },
        None => fresh(now),
    }
}

/// The views of `actions`, in order.
pub open spec fn action_views(actions: Seq<Action>) -> Seq<(ActionKind, Seq<char>)> {
    actions.map_values(|a: Action| a@)
}

/// The ids of `s`, in order.
pub open spec fn entry_keys(s: Seq<(ServiceId, ServiceLiveness)>) -> Seq<Seq<char>> {
    s.map_values(|e: (ServiceId, ServiceLiveness)| e.0@)
}

/// Ids strictly increasing, and no reloaded phase counted to its limit.
pub open spec fn machine_ok(s: Seq<(ServiceId, ServiceLiveness)>) -> bool {
    &&& sorted_strict(entry_keys(s))
    &&& forall|i: int| 0 <= i < s.len() ==> phase_ok(#[trigger] s[i].1)
}

proof fn lemma_sorted_distinct(s: Seq<(ServiceId, ServiceLiveness)>)
    requires
        sorted_strict(entry_keys(s)),
    ensures
        keys_distinct(s),
{
    assert forall|i: int, j: int| 0 <= i < s.len() && 0 <= j < s.len() && i != j implies (
    #[trigger] s[i]).0@ != (#[trigger] s[j]).0@ by {
        let ghost ks = entry_keys(s);
        assert(ks[i] == s[i].0@ && ks[j] == s[j].0@);
        if i < j {
            assert(seq_lt(ks[i], ks[j]));
        } else {
            assert(seq_lt(ks[j], ks[i]));
        }
        lemma_lt_irreflexive(ks[i]);
    }
}

/// What one [`LivenessMachine::tick`] at `now` does, from a machine whose
/// view was `before` to `after`, returning `actions`: exactly the services
/// of `statuses` are tracked afterwards, each having taken one [`step`]
/// from its [`prior`] bookkeeping, and the actions are those of
/// [`tick_actions`] in increasing id order.
pub open spec fn ticked(
    before: Map<Seq<char>, ServiceLiveness>,
    after: LivenessMachine,
    statuses: Map<Seq<char>, ServiceStatus>,
    now: u64,
    actions: Seq<Action>,
) -> bool {
    &&& forall|k: Seq<char>| after@.contains_key(k) <==> statuses.contains_key(k)
    &&& forall|k: Seq<char>|
        #[trigger] after@.contains_key(k) ==> after@[k] == step(prior(before, k, now), statuses[k], now).0
    &&& sorted_strict(after.key_seq())
    &&& action_views(actions) == tick_actions(after.key_seq(), before, statuses, now)
}

/// The pure per-service liveness state machine, keyed by service id in
/// increasing id order.
#[derive(Debug)]
pub struct LivenessMachine {
    services: Vec<(ServiceId, ServiceLiveness)>,
}

impl View for LivenessMachine {
    type V = Map<Seq<char>, ServiceLiveness>;

    open spec fn view(&self) -> Map<Seq<char>, ServiceLiveness> {
        map_of(self.entries())
    }
}

impl LivenessMachine {
    #[verifier::type_invariant]
    spec fn well_formed(self) -> bool {
        machine_ok(self.services@)
    }

    /// The tracked services, in increasing id order.
    pub closed spec fn entries(self) -> Seq<(ServiceId, ServiceLiveness)> {
        self.services@
    }

    /// The tracked ids, in increasing order.
    pub open spec fn key_seq(self) -> Seq<Seq<char>> {
        entry_keys(self.entries())
    }

    /// Nothing tracked.
    pub fn new() -> (m: Self)
        ensures
            m@ == Map::<Seq<char>, ServiceLiveness>::empty(),
    {
        let m = LivenessMachine { services: Vec::new() };
        assert(m@ =~= Map::<Seq<char>, ServiceLiveness>::empty());
        m
    }

    fn find(&self, id: &ServiceId) -> (r: Option<usize>)
        ensures
            r matches Some(i) ==> i < self.entries().len() && self.entries()[i as int].0@ == id@,
            r is None ==> !has_key(self.entries(), id@),
    {
        let mut i: usize = 0;
        while i < self.services.len()
            invariant
                i <= self.services@.len(),
                forall|j: int| 0 <= j < i ==> (#[trigger] self.services@[j]).0@ != id@,
            decreases self.services@.len() - i,
        {
            if self.services[i].0 == *id {
                return Some(i);
            }
            i = i + 1;
        }
        None
    }

    /// Records that `id` is alive as of `now_ms`: monitoring afresh, never
    /// moving the last report time backwards, with the next generation.
    /// Registers `id` if it was not tracked.
    pub fn touch(&mut self, id: &ServiceId, now_ms: u64)
        ensures
            final(self)@ == old(self)@.insert(
                id@,
                touched(
                    if old(self)@.contains_key(id@) {
                        Some(old(self)@[id@])
                    } else {
                        None
                    },
                    now_ms,
                ),
            ),
    {
        proof {
            use_type_invariant(&*self);
            lemma_sorted_distinct(self.entries());
        }
        let mut services: Vec<(ServiceId, ServiceLiveness)> = Vec::new();
        std::mem::swap(&mut services, &mut self.services);
        let ghost s = services@;
        let mut p: usize = 0;
        while p < services.len() && id_lt(&services[p].0, id)
            invariant
                services@ == s,
                p <= s.len(),
                forall|j: int| 0 <= j < p ==> seq_lt(#[trigger] s[j].0@, id@),
            decreases s.len() - p,
        {
            p = p + 1;
        }
        let ghost ks = entry_keys(s);
        if p < services.len() && services[p].0 == *id {
            let existing = services[p].1;
            let last = if now_ms >= existing.last_report_ms { now_ms } else { existing.last_report_ms };
            let generation = if existing.generation == u64::MAX { 0 } else { existing.generation + 1 };
            let entry = (id.clone(), ServiceLiveness { last_report_ms: last, phase: Phase::Monitoring, generation });
            proof {
                lemma_entry(s, p as int);
                lemma_update(s, p as int, entry);
                assert(entry_keys(s.update(p as int, entry)) =~= ks);
            }
            services.set(p, entry);
        } else {
            let entry = (id.clone(), ServiceLiveness::fresh(now_ms));
            proof {
                assert(!has_key(s, id@)) by {
                    if has_key(s, id@) {
                        let j = choose|j: int| 0 <= j < s.len() && (#[trigger] s[j]).0@ == id@;
                        if j < p {
                            lemma_lt_irreflexive(id@);
                        } else {
                            assert(ks[j] == id@);
                            if j > p {
                                assert(seq_lt(ks[p as int], ks[j]));
                                assert(s[p as int].0@ != id@);
                                lemma_lt_total(s[p as int].0@, id@);
                                lemma_lt_transitive(s[p as int].0@, id@, ks[j]);
                                lemma_lt_irreflexive(id@);
                                lemma_lt_transitive(id@, s[p as int].0@, id@);
                            }
                        }
                    }
                }
                assert(!map_of(s).contains_key(id@));
                lemma_insert_at(s, p as int, entry);
                let t = s.insert(p as int, entry);
                let kt = entry_keys(t);
                assert(kt =~= ks.insert(p as int, id@));
                if p < s.len() {
                    assert(s[p as int].0@ != id@);
                    lemma_lt_total(s[p as int].0@, id@);
                }
                assert forall|a: int, b: int| 0 <= a < b < kt.len() implies seq_lt(
                    #[trigger] kt[a],
                    #[trigger] kt[b],
                ) by {
                    if b < p {
                        assert(kt[a] == ks[a] && kt[b] == ks[b]);
                    } else if b == p {
                        assert(kt[a] == ks[a] && kt[a] == s[a].0@);
                    } else if a == p {
                        assert(kt[b] == ks[b - 1]);
                        if b - 1 > p {
                            assert(seq_lt(ks[p as int], ks[b - 1]));
                            lemma_lt_transitive(id@, ks[p as int], ks[b - 1]);
                        }
                    } else if a < p {
                        assert(kt[a] == ks[a] && kt[b] == ks[b - 1]);
                    } else {
                        assert(kt[a] == ks[a - 1] && kt[b] == ks[b - 1]);
                    }
                }
                assert forall|i: int| 0 <= i < t.len() implies phase_ok(#[trigger] t[i].1) by {
                    if i < p {
                        assert(t[i] == s[i]);
                    } else if i > p {
                        assert(t[i] == s[i - 1]);
                    }
                }
            }
            services.insert(p, entry);
        }
        self.services = services;
    }

    /// Stops tracking `id`.
    pub fn remove(&mut self, id: &ServiceId)
        ensures
            final(self)@ == old(self)@.remove(id@),
    {
        proof {
            use_type_invariant(&*self);
            lemma_sorted_distinct(self.entries());
        }
        match self.find(id) {
            Some(i) => {
                let mut services: Vec<(ServiceId, ServiceLiveness)> = Vec::new();
                std::mem::swap(&mut services, &mut self.services);
                proof {
                    let s = services@;
                    lemma_remove(s, i as int);
                    let t = s.remove(i as int);
                    let ks = entry_keys(s);
                    let kt = entry_keys(t);
                    assert forall|a: int, b: int| 0 <= a < b < kt.len() implies seq_lt(
                        #[trigger] kt[a],
                        #[trigger] kt[b],
                    ) by {
                        let a2 = if a < i { a } else { a + 1 };
                        let b2 = if b < i { b } else { b + 1 };
                        assert(kt[a] == ks[a2] && kt[b] == ks[b2]);
                    }
                    assert forall|j: int| 0 <= j < t.len() implies phase_ok(#[trigger] t[j].1) by {
                        let j2 = if j < i { j } else { j + 1 };
                        assert(t[j] == s[j2]);
                    }
                }
                services.remove(i);
                self.services = services;
            },
            None => {
                assert(self@ =~= self@.remove(id@));
            },
        }
    }

    /// `id`'s current generation, or `None` if untracked.
    pub fn generation(&self, id: &ServiceId) -> (r: Option<u64>)
        ensures
            r is Some <==> self@.contains_key(id@),
            r matches Some(g) ==> g == self@[id@].generation,
    {
        proof {
            use_type_invariant(self);
            lemma_sorted_distinct(self.entries());
        }
        match self.find(id) {
            Some(i) => {
                proof {
                    lemma_entry(self.entries(), i as int);
                }
                Some(self.services[i].1.generation)
            },
            None => None,
        }
    }

    /// Whether `id` is tracked.
    pub fn is_tracked(&self, id: &ServiceId) -> (b: bool)
        ensures
            b == self@.contains_key(id@),
    {
        self.find(id).is_some()
    }

    /// Evaluates every service in `statuses` at `now_ms` and returns the
    /// actions to apply, in increasing service-id order.
    ///
    /// Afterwards exactly the services of `statuses` are tracked: one seen
    /// for the first time starts afresh at `now_ms`, one no longer listed
    /// is dropped. Each tracked service then takes one [`step`].
    pub fn tick(&mut self, now_ms: u64, statuses: &IdMap<ServiceStatus>) -> (actions: Vec<Action>)
        ensures
            ticked(old(self)@, *final(self), statuses@, now_ms, actions@),
    {
        proof {
            use_type_invariant(&*self);
            lemma_sorted_distinct(self.entries());
        }
        let n = statuses.len();
        let mut ids: Vec<ServiceId> = Vec::new();
        let mut i: usize = 0;
        while i < n
            invariant
                n == statuses.entries().len(),
                i <= n,
                id_texts(ids@) =~= statuses.key_seq().take(i as int),
            decreases n - i,
        {
            let ghost before = ids@;
            let k = statuses.key_at(i).clone();
            ids.push(k);
            proof {
                let ks = statuses.key_seq();
                assert(ks[i as int] == statuses.entries()[i as int].0@);
                assert(id_texts(ids@) =~= id_texts(before).push(ks[i as int]));
                assert(ks.take(i + 1) =~= ks.take(i as int).push(ks[i as int]));
            }
            i = i + 1;
        }
        proof {
            assert(statuses.key_seq().take(n as int) =~= statuses.key_seq());
            let ks = statuses.key_seq();
            assert(ks.no_duplicates()) by {
                assert forall|a: int, b: int| 0 <= a < ks.len() && 0 <= b < ks.len() && a != b implies ks[a] != ks[b] by {
                    assert(ks[a] == statuses.entries()[a].0@);
                    assert(ks[b] == statuses.entries()[b].0@);
                }
            }
        }
        let sorted = sort_ids(ids);
        let ghost keys = id_texts(sorted@);
        proof {
            assert forall|k: Seq<char>| keys.contains(k) <==> statuses@.contains_key(k) by {
                assert(keys.to_set().contains(k) == keys.contains(k));
                assert(statuses.key_seq().to_set().contains(k) == statuses.key_seq().contains(k));
                if statuses.key_seq().contains(k) {
                    let a = choose|a: int| 0 <= a < statuses.key_seq().len() && statuses.key_seq()[a] == k;
                    assert(statuses.entries()[a].0@ == k);
                }
                if has_key(statuses.entries(), k) {
                    let a = choose|a: int| 0 <= a < statuses.entries().len() && (#[trigger] statuses.entries()[a]).0@ == k;
                    assert(statuses.key_seq()[a] == k);
                }
            }
        }
        let mut entries: Vec<(ServiceId, ServiceLiveness)> = Vec::new();
        let mut actions: Vec<Action> = Vec::new();
        let mut j: usize = 0;
        while j < sorted.len()
            invariant
                keys == id_texts(sorted@),
                j <= sorted@.len(),
                entries@.len() == j,
                forall|a: int| 0 <= a < j ==> (#[trigger] entries@[a]).0@ == keys[a],
                forall|a: int| 0 <= a < j ==> (#[trigger] entries@[a]).1 == step(
                    prior(old(self)@, keys[a], now_ms),
                    statuses@[keys[a]],
                    now_ms,
                ).0,
                forall|a: int| 0 <= a < j ==> phase_ok(#[trigger] entries@[a].1),
                forall|k: Seq<char>| keys.contains(k) <==> statuses@.contains_key(k),
                action_views(actions@) == tick_actions(keys.take(j as int), old(self)@, statuses@, now_ms),
                machine_ok(self.services@),
                self@ == old(self)@,
            decreases sorted@.len() - j,
        {
            let id = &sorted[j];
            let ghost k = keys[j as int];
            assert(keys.contains(k));
            let prev = match self.find(id) {
                Some(p) => {
                    proof {
                        lemma_sorted_distinct(self.entries());
                        lemma_entry(self.entries(), p as int);
                        assert(phase_ok(self.services@[p as int].1));
                    }
                    self.services[p].1
                },
                None => ServiceLiveness::fresh(now_ms),
            };
            assert(prev == prior(old(self)@, k, now_ms));
            let status = match statuses.get(id) {
                Some(st) => *st,
                None => ServiceStatus::Loading,
            };
            let (next, kinds) = step_exec(prev, &status, now_ms);
            let ghost before = action_views(actions@);
            let mut q: usize = 0;
            while q < kinds.len()
                invariant
                    q <= kinds@.len(),
                    action_views(actions@) == before + kinds@.take(q as int).map_values(|kind: ActionKind| (kind, k)),
                    k == id@,
                decreases kinds@.len() - q,
            {
                let ghost av = action_views(actions@);
                actions.push(Action::of_kind(kinds[q], id.clone()));
                assert(action_views(actions@) =~= av.push((kinds@[q as int], k)));
                assert(kinds@.take(q + 1).map_values(|kind: ActionKind| (kind, k)) =~= kinds@.take(q as int).map_values(|kind: ActionKind| (kind, k)).push((kinds@[q as int], k)));
                q = q + 1;
            }
            assert(kinds@.take(kinds@.len() as int) =~= kinds@);
            assert(keys.take(j + 1).drop_last() =~= keys.take(j as int));
            entries.push((id.clone(), next));
            j = j + 1;
        }
        proof {
            assert(keys.take(keys.len() as int) =~= keys);
            assert(entry_keys(entries@) =~= keys);
            lemma_sorted_distinct(entries@);
            assert forall|k: Seq<char>| #[trigger] map_of(entries@).contains_key(k) <==> statuses@.contains_key(k) by {
                if has_key(entries@, k) {
                    let a = choose|a: int| 0 <= a < entries@.len() && (#[trigger] entries@[a]).0@ == k;
                    assert(keys[a] == k);
                }
                if keys.contains(k) {
                    let a = choose|a: int| 0 <= a < keys.len() && keys[a] == k;
                    assert(entries@[a].0@ == k);
                }
            }
            assert forall|k: Seq<char>| #[trigger] map_of(entries@).contains_key(k) implies map_of(entries@)[k] == step(
                prior(old(self)@, k, now_ms),
                statuses@[k],
                now_ms,
            ).0 by {
                let a = choose|a: int| 0 <= a < entries@.len() && (#[trigger] entries@[a]).0@ == k;
                lemma_entry(entries@, a);
            }
        }
        self.services = entries;
        actions
    }
}

} // verus!

verus! {

/// A tick never changes a service's generation: only a report (a touch)
/// does.
pub proof fn lemma_step_keeps_generation(l: ServiceLiveness, st: ServiceStatus, now: u64)
    ensures
        step(l, st, now).0.generation == l.generation,
{
}

/// A touch never moves the last report time backwards, always leaves the
/// service monitoring, and always changes its generation.
pub proof fn lemma_touch_resets(l: ServiceLiveness, now: u64)
    ensures
        touched(Some(l), now).last_report_ms >= l.last_report_ms,
        touched(Some(l), now).last_report_ms >= now,
        touched(Some(l), now).phase == Phase::Monitoring,
        touched(Some(l), now).generation != l.generation,
{
}

/// A service is marked stale only while monitoring, when its status is
/// neither exempt nor already `Stale`, and more than
/// [`STALE_THRESHOLD_MS`] after its last report; the mark always comes
/// with a reload and starts the countdown. While counting down it is
/// never marked again, so each stale episode is marked exactly once.
pub proof fn lemma_mark_stale_once_per_episode(l: ServiceLiveness, st: ServiceStatus, now: u64)
    ensures
        step(l, st, now).1.contains(ActionKind::MarkStale) <==> (l.phase == Phase::Monitoring && !exempt(st) && st
            != ServiceStatus::Stale && now > l.last_report_ms && now - l.last_report_ms > STALE_THRESHOLD_MS),
        step(l, st, now).1.contains(ActionKind::MarkStale) ==> step(l, st, now).1 == seq![
            ActionKind::MarkStale,
            ActionKind::Reload,
        ] && step(l, st, now).0.phase == (Phase::Reloaded { ticks_since_reload: 0 }),
        l.phase is Reloaded ==> !step(l, st, now).1.contains(ActionKind::MarkStale),
{
    let acts = step(l, st, now).1;
    if acts.contains(ActionKind::MarkStale) {
        let i = choose|i: int| 0 <= i < acts.len() && acts[i] == ActionKind::MarkStale;
    }
    if l.phase == Phase::Monitoring && !exempt(st) && st != ServiceStatus::Stale && now > l.last_report_ms && now
        - l.last_report_ms > STALE_THRESHOLD_MS {
        assert(acts[0] == ActionKind::MarkStale);
    }
}

/// An exempt status (off origin, create failed) never leads to any
/// action.
pub proof fn lemma_exempt_never_acts(l: ServiceLiveness, st: ServiceStatus, now: u64)
    requires
        exempt(st),
    ensures
        step(l, st, now).1.len() == 0,
{
}

/// A reloaded service is recreated exactly on the
/// [`TICKS_AFTER_RELOAD`]-th tick after its reload (unless its status
/// became exempt), and monitored afresh from then on.
pub proof fn lemma_recreate_after_countdown(l: ServiceLiveness, st: ServiceStatus, now: u64, t: u32)
    requires
        l.phase == (Phase::Reloaded { ticks_since_reload: t }),
        t < TICKS_AFTER_RELOAD,
        !exempt(st),
    ensures
        t + 1 == TICKS_AFTER_RELOAD ==> step(l, st, now).1 == seq![ActionKind::Recreate] && step(l, st, now).0.phase
            == Phase::Monitoring && step(l, st, now).0.last_report_ms == now,
        t + 1 < TICKS_AFTER_RELOAD ==> step(l, st, now).1.len() == 0 && step(l, st, now).0.phase == (Phase::Reloaded {
            ticks_since_reload: (t + 1) as u32,
        }),
{
}

proof fn lemma_tick_actions_shape(
    keys: Seq<Seq<char>>,
    old: Map<Seq<char>, ServiceLiveness>,
    statuses: Map<Seq<char>, ServiceStatus>,
    now: u64,
)
    requires
        sorted_strict(keys),
    ensures
        ({
            let t = tick_actions(keys, old, statuses, now);
            &&& forall|i: int|
                0 <= i < t.len() ==> keys.contains(#[trigger] t[i].1) && step(
                    prior(old, t[i].1, now),
                    statuses[t[i].1],
                    now,
                ).1.len() > 0
            &&& forall|i: int, j: int|
                0 <= i < j < t.len() ==> (#[trigger] t[i]).1 == (#[trigger] t[j]).1 || seq_lt(t[i].1, t[j].1)
            &&& forall|i: int|
                0 <= i < t.len() && (#[trigger] t[i]).0 == ActionKind::MarkStale ==> i + 1 < t.len() && t[i + 1] == (
                ActionKind::Reload,
                t[i].1,
            )
        }),
    decreases keys.len(),
{
    if keys.len() > 0 {
        let p = keys.drop_last();
        let k = keys.last();
        assert(sorted_strict(p)) by {
            assert forall|i: int, j: int| 0 <= i < j < p.len() implies seq_lt(#[trigger] p[i], #[trigger] p[j]) by {
                assert(p[i] == keys[i] && p[j] == keys[j]);
            }
        }
        lemma_tick_actions_shape(p, old, statuses, now);
        let a = tick_actions(p, old, statuses, now);
        let acts = step(prior(old, k, now), statuses[k], now).1;
        let b = acts.map_values(|kind: ActionKind| (kind, k));
        let t = tick_actions(keys, old, statuses, now);
        assert(t == a + b);
        lemma_mark_stale_once_per_episode(prior(old, k, now), statuses[k], now);
        assert forall|i: int| 0 <= i < t.len() implies keys.contains(#[trigger] t[i].1) && step(
            prior(old, t[i].1, now),
            statuses[t[i].1],
            now,
        ).1.len() > 0 by {
            if i < a.len() {
                assert(t[i] == a[i]);
                let m = choose|m: int| 0 <= m < p.len() && p[m] == a[i].1;
                assert(keys[m] == p[m]);
            } else {
                assert(t[i] == b[i - a.len()]);
                assert(keys[keys.len() - 1] == k);
            }
        }
        assert forall|i: int, j: int| 0 <= i < j < t.len() implies (#[trigger] t[i]).1 == (#[trigger] t[j]).1
            || seq_lt(t[i].1, t[j].1) by {
            if j < a.len() {
                assert(t[i] == a[i] && t[j] == a[j]);
            } else if i < a.len() {
                assert(t[i] == a[i] && t[j] == b[j - a.len()]);
                assert(keys.contains(a[i].1));
                let m = choose|m: int| 0 <= m < p.len() && p[m] == a[i].1;
                assert(keys[m] == p[m] && keys[keys.len() - 1] == k);
                assert(seq_lt(keys[m], keys[keys.len() - 1]));
            } else {
                assert(t[i] == b[i - a.len()] && t[j] == b[j - a.len()]);
            }
        }
        assert forall|i: int| 0 <= i < t.len() && (#[trigger] t[i]).0 == ActionKind::MarkStale implies i + 1 < t.len()
            && t[i + 1] == (ActionKind::Reload, t[i].1) by {
            if i < a.len() {
                assert(t[i] == a[i]);
                assert(t[i + 1] == a[i + 1]);
            } else {
                assert(t[i] == b[i - a.len()]);
                assert(acts.contains(ActionKind::MarkStale)) by {
                    assert(acts[i - a.len()] == ActionKind::MarkStale);
                }
                assert(acts == seq![ActionKind::MarkStale, ActionKind::Reload]);
                assert(t[i + 1] == b[i + 1 - a.len()]);
            }
        }
    }
}

/// What a tick leaves and does, for every tick: it tracks exactly the
/// services that have a status; it keeps each tracked service's
/// generation, a newly tracked one starting at 0 with no action; it acts
/// only on services that have a status, in increasing id order (a
/// service's own actions together); and each mark-stale is followed at
/// once by a reload of the same service.
pub proof fn lemma_tick_shape(
    before: Map<Seq<char>, ServiceLiveness>,
    after: LivenessMachine,
    statuses: Map<Seq<char>, ServiceStatus>,
    now: u64,
    actions: Seq<Action>,
)
    requires
        ticked(before, after, statuses, now, actions),
    ensures
        forall|k: Seq<char>| after@.contains_key(k) <==> statuses.contains_key(k),
        forall|k: Seq<char>|
            #[trigger] after@.contains_key(k) ==> after@[k].generation == if before.contains_key(k) {
                before[k].generation
            } else {
                0
            },
        forall|i: int| 0 <= i < actions.len() ==> statuses.contains_key((#[trigger] actions[i])@.1),
        forall|i: int| 0 <= i < actions.len() ==> before.contains_key((#[trigger] actions[i])@.1),
        forall|i: int, j: int|
            0 <= i < j < actions.len() ==> (#[trigger] actions[i])@.1 == (#[trigger] actions[j])@.1 || seq_lt(
                actions[i]@.1,
                actions[j]@.1,
            ),
        forall|i: int|
            0 <= i < actions.len() && (#[trigger] actions[i])@.0 == ActionKind::MarkStale ==> i + 1 < actions.len()
                && actions[i + 1]@ == (ActionKind::Reload, actions[i]@.1),
{
    let keys = after.key_seq();
    let t = tick_actions(keys, before, statuses, now);
    lemma_tick_actions_shape(keys, before, statuses, now);
    assert forall|k: Seq<char>| #[trigger] after@.contains_key(k) implies after@[k].generation == if before.contains_key(k) {
        before[k].generation
    } else {
        0
    } by {
        lemma_step_keeps_generation(prior(before, k, now), statuses[k], now);
    }
    assert forall|i: int| 0 <= i < actions.len() implies statuses.contains_key((#[trigger] actions[i])@.1)
        && before.contains_key(actions[i]@.1) by {
        assert(actions[i]@ == t[i]);
        let x = t[i].1;
        let m = choose|m: int| 0 <= m < keys.len() && keys[m] == x;
        assert(keys[m] == after.entries()[m].0@);
        assert(after@.contains_key(x));
        if !before.contains_key(x) {
            assert(prior(before, x, now) == fresh(now));
        }
    }
    assert forall|i: int, j: int| 0 <= i < j < actions.len() implies (#[trigger] actions[i])@.1 == (
    #[trigger] actions[j])@.1 || seq_lt(actions[i]@.1, actions[j]@.1) by {
        assert(actions[i]@ == t[i] && actions[j]@ == t[j]);
    }
    assert forall|i: int| 0 <= i < actions.len() && (#[trigger] actions[i])@.0 == ActionKind::MarkStale implies i + 1
        < actions.len() && actions[i + 1]@ == (ActionKind::Reload, actions[i]@.1) by {
        assert(actions[i]@ == t[i]);
        assert(actions[i + 1]@ == t[i + 1]);
    }
}

/// A service whose status is exempt (off origin, create failed), or that
/// is monitored while already `Stale`, is never acted on by a tick,
/// whatever the time. An exempt status met after a reload abandons the
/// countdown: the service is monitored afresh from now, so no recreate
/// can follow until it is marked stale again.
pub proof fn lemma_tick_spares_exempt(
    before: Map<Seq<char>, ServiceLiveness>,
    after: LivenessMachine,
    statuses: Map<Seq<char>, ServiceStatus>,
    now: u64,
    actions: Seq<Action>,
    id: Seq<char>,
)
    requires
        ticked(before, after, statuses, now, actions),
        statuses.contains_key(id),
        exempt(statuses[id]) || (statuses[id] == ServiceStatus::Stale && prior(before, id, now).phase
            == Phase::Monitoring),
    ensures
        forall|i: int| 0 <= i < actions.len() ==> (#[trigger] actions[i])@.1 != id,
        exempt(statuses[id]) ==> after@[id].phase == Phase::Monitoring,
        exempt(statuses[id]) && prior(before, id, now).phase is Reloaded ==> after@[id].last_report_ms == now,
        forall|st: ServiceStatus, t: u64|
            after@[id].phase == Phase::Monitoring ==> !(#[trigger] step(after@[id], st, t)).1.contains(
                ActionKind::Recreate,
            ),
{
    let keys = after.key_seq();
    let t = tick_actions(keys, before, statuses, now);
    lemma_tick_actions_shape(keys, before, statuses, now);
    assert forall|i: int| 0 <= i < actions.len() implies (#[trigger] actions[i])@.1 != id by {
        assert(actions[i]@ == t[i]);
    }
    assert forall|st: ServiceStatus, t: u64|
        after@[id].phase == Phase::Monitoring implies !(#[trigger] step(after@[id], st, t)).1.contains(
            ActionKind::Recreate,
        ) by {
        let acts = step(after@[id], st, t).1;
        if acts.contains(ActionKind::Recreate) {
            let j = choose|j: int| 0 <= j < acts.len() && acts[j] == ActionKind::Recreate;
            assert(acts[j] == ActionKind::Recreate);
        }
    }
}

} // verus!
