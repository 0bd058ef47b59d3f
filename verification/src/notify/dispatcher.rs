//! Turning a [`DiffOutcome`] into notifications, remembering which ids
//! an outcome makes "seen", and the [`Dispatcher`] holding each service's
//! baseline and the sink notifications go to.

use std::collections::VecDeque;

use vstd::prelude::*;

use crate::agent_bridge::validate::{MessageView, ValidMessageRef, ValidReport};
use crate::config::ServiceId;
use crate::error::AppError;
use crate::idmap::IdMap;
use crate::state::{SeenRing, SEEN_RING_CAPACITY};

use super::diff::{
    diff, evaluate, lemma_all_seen_means_no_new_messages, lemma_new_messages_cover, lemma_new_messages_unseen_and_distinct,
    message_ids, new_messages, DiffOutcome, MessageRef, OutcomeView, ServiceNotifyState,
};
use super::seen::{
    first_occurrences, insert_all, inserted_all, lemma_first_occurrences_members, lemma_inserted_all_members, ring_ids,
};
use super::sink::{NotificationSink, NotificationView, OutgoingNotification};
use super::text::{count_body, count_text, rich_body, rich_text, title};

verus! {

/// The rich notification for one new message.
pub open spec fn rich_notification(id: Seq<char>, name: Seq<char>, m: MessageView) -> NotificationView {
    NotificationView { service: id, title: name, body: rich_text(m.from, m.subject), link: m.link }
}

/// The count-only notification for `n` new messages.
pub open spec fn count_notification(id: Seq<char>, name: Seq<char>, n: u32) -> NotificationView {
    NotificationView { service: id, title: name, body: count_text(n), link: None }
}

/// The notifications `outcome` implies: none for a seed or nothing; for
/// new messages one rich notification each, in order, or a single
/// count-only one when there are more than `threshold`; a count-only one
/// for a count increase.
pub open spec fn plan(id: Seq<char>, name: Seq<char>, outcome: OutcomeView, threshold: u32) -> Seq<NotificationView> {
    match outcome {
        OutcomeView::Seed => seq![],
        OutcomeView::Nothing => seq![],
        OutcomeView::NewMessages(refs) => if (refs.len() as u32) > threshold {
            seq![count_notification(id, name, refs.len() as u32)]
        } else {
            refs.map_values(|m: MessageView| rich_notification(id, name, m))
        },
        OutcomeView::CountIncrease(d) => seq![count_notification(id, name, d)],
    }
}

/// The views of `ns`, in order.
pub open spec fn notification_views(ns: Seq<OutgoingNotification>) -> Seq<NotificationView> {
    ns.map_values(|n: OutgoingNotification| n@)
}

fn count_notification_exec(service_id: &ServiceId, service_name: &str, n: u32) -> (r: OutgoingNotification)
    ensures
        r@ == count_notification(service_id@, service_name@, n),
{
    OutgoingNotification {
        service: service_id.clone(),
        title: title(service_name),
        body: count_body(n),
        link: None,
    }
}

fn rich_notification_exec(service_id: &ServiceId, service_name: &str, m: &MessageRef) -> (r: OutgoingNotification)
    ensures
        r@ == rich_notification(service_id@, service_name@, m@),
{
    let from = match &m.from {
        Some(s) => Some(s.as_str()),
        None => None,
    };
    let subject = match &m.subject {
        Some(s) => Some(s.as_str()),
        None => None,
    };
    OutgoingNotification {
        service: service_id.clone(),
        title: title(service_name),
        body: rich_body(from, subject),
        link: match &m.link {
            Some(u) => Some(u.clone()),
            None => None,
        },
    }
}

/// The notifications `outcome` implies for service `service_id`, titled
/// `service_name`, batching more than `batch_threshold` new messages into
/// one count-only notification. Notification toggles are the caller's.
pub fn plan_notifications(
    service_id: &ServiceId,
    service_name: &str,
    outcome: DiffOutcome,
    batch_threshold: u32,
) -> (ns: Vec<OutgoingNotification>)
    ensures
        notification_views(ns@) == plan(service_id@, service_name@, outcome@, batch_threshold),
{
    match outcome {
        DiffOutcome::Seed => Vec::new(),
        DiffOutcome::Nothing => Vec::new(),
        DiffOutcome::NewMessages(refs) => {
            let count = refs.len() as u32;
            if count > batch_threshold {
                let mut out: Vec<OutgoingNotification> = Vec::new();
                out.push(count_notification_exec(service_id, service_name, count));
                assert(notification_views(out@) =~= seq![count_notification(service_id@, service_name@, count)]);
                out
            } else {
                let ghost rv = refs@.map_values(|m: MessageRef| m@);
                let mut out: Vec<OutgoingNotification> = Vec::new();
                let mut i: usize = 0;
                while i < refs.len()
                    invariant
                        rv == refs@.map_values(|m: MessageRef| m@),
                        i <= refs@.len(),
                        notification_views(out@) == rv.take(i as int).map_values(
                            |m: MessageView| rich_notification(service_id@, service_name@, m),
                        ),
                    decreases refs@.len() - i,
                {
                    let ghost before = notification_views(out@);
                    out.push(rich_notification_exec(service_id, service_name, &refs[i]));
                    assert(notification_views(out@) =~= before.push(
                        rich_notification(service_id@, service_name@, rv[i as int]),
                    ));
                    assert(rv.take(i + 1).map_values(|m: MessageView| rich_notification(service_id@, service_name@, m))
                        =~= rv.take(i as int).map_values(
                        |m: MessageView| rich_notification(service_id@, service_name@, m),
                    ).push(rich_notification(service_id@, service_name@, rv[i as int])));
                    i = i + 1;
                }
                assert(rv.take(refs@.len() as int) =~= rv);
                out
            }
        },
        DiffOutcome::CountIncrease(delta) => {
            let mut out: Vec<OutgoingNotification> = Vec::new();
            out.push(count_notification_exec(service_id, service_name, delta));
            assert(notification_views(out@) =~= seq![count_notification(service_id@, service_name@, delta)]);
            out
        },
    }
}

/// The ids `outcome` makes seen, in order: every id of the report on a
/// seed (messages present at launch are never notified later), the new
/// ids on new messages, none otherwise.
pub open spec fn ids_to_persist(outcome: OutcomeView, report_messages: Seq<MessageView>) -> Seq<Seq<char>> {
    match outcome {
        OutcomeView::Seed => message_ids(report_messages),
        OutcomeView::NewMessages(refs) => message_ids(refs),
        _ => seq![],
    }
}

fn valid_ids(messages: &[ValidMessageRef]) -> (ids: Vec<&str>)
    ensures
        ids@.map_values(|s: &str| s@) == message_ids(messages@.map_values(|m: ValidMessageRef| m@)),
{
    let mut ids: Vec<&str> = Vec::new();
    let mut i: usize = 0;
    while i < messages.len()
        invariant
            i <= messages@.len(),
            ids@.map_values(|s: &str| s@) == message_ids(messages@.map_values(|m: ValidMessageRef| m@)).take(i as int),
        decreases messages@.len() - i,
    {
        let ghost before = ids@.map_values(|s: &str| s@);
        let ghost all = message_ids(messages@.map_values(|m: ValidMessageRef| m@));
        ids.push(messages[i].id.as_str());
        assert(all[i as int] == messages@[i as int].id@);
        assert(ids@.map_values(|s: &str| s@) =~= before.push(all[i as int]));
        assert(all.take(i + 1) =~= all.take(i as int).push(all[i as int]));
        i = i + 1;
    }
    ids
}

fn ref_ids(refs: &Vec<MessageRef>) -> (ids: Vec<&str>)
    ensures
        ids@.map_values(|s: &str| s@) == message_ids(refs@.map_values(|m: MessageRef| m@)),
{
    let mut ids: Vec<&str> = Vec::new();
    let mut i: usize = 0;
    while i < refs.len()
        invariant
            i <= refs@.len(),
            ids@.map_values(|s: &str| s@) == message_ids(refs@.map_values(|m: MessageRef| m@)).take(i as int),
        decreases refs@.len() - i,
    {
        let ghost before = ids@.map_values(|s: &str| s@);
        let ghost all = message_ids(refs@.map_values(|m: MessageRef| m@));
        ids.push(refs[i].id.as_str());
        assert(all[i as int] == refs@[i as int].id@);
        assert(ids@.map_values(|s: &str| s@) =~= before.push(all[i as int]));
        assert(all.take(i + 1) =~= all.take(i as int).push(all[i as int]));
        i = i + 1;
    }
    ids
}

/// The notifications to show for `outcome`: all it plans (see
/// [`plan_notifications`]) when both the global and the service's
/// notification toggles are on, none otherwise.
pub fn notifications_to_show(
    settings_notifications: bool,
    service_notifications: bool,
    service_id: &ServiceId,
    service_name: &str,
    outcome: DiffOutcome,
    batch_threshold: u32,
) -> (ns: Vec<OutgoingNotification>)
    ensures
        notification_views(ns@) == (if settings_notifications && service_notifications {
            plan(service_id@, service_name@, outcome@, batch_threshold)
        } else {
            Seq::<NotificationView>::empty()
        }),
{
    if !settings_notifications || !service_notifications {
        let none: Vec<OutgoingNotification> = Vec::new();
        assert(notification_views(none@) =~= Seq::<NotificationView>::empty());
        return none;
    }
    plan_notifications(service_id, service_name, outcome, batch_threshold)
}

/// Records in `ring` the ids `outcome` makes seen (see [`ids_to_persist`]),
/// a repeated id once.
pub fn persist_seen_ids(ring: &mut SeenRing, outcome: &DiffOutcome, report: &ValidReport)
    ensures
        ring_ids(*final(ring)) == inserted_all(
            ring_ids(*old(ring)),
            first_occurrences(ids_to_persist(outcome@, report@.messages)),
        ),
{
    match outcome {
        DiffOutcome::Seed => {
            let ids = valid_ids(report.messages());
            insert_all(ring, ids.as_slice());
        },
        DiffOutcome::NewMessages(refs) => {
            let ids = ref_ids(refs);
            insert_all(ring, ids.as_slice());
        },
        _ => {
            assert(first_occurrences(Seq::<Seq<char>>::empty()) == Seq::<Seq<char>>::empty());
        },
    }
}

/// Once the ids a report's outcome makes seen are recorded, evaluating
/// the same report again, against the baseline it left, notifies about
/// nothing: no message is announced twice. This needs the ring to have
/// room for the report's ids; a full ring may evict an old id the report
/// still lists.
pub proof fn lemma_repeated_report_notifies_nothing(
    last: Option<u32>,
    count: u32,
    ms: Seq<MessageView>,
    ring: Seq<Seq<char>>,
)
    requires
        ring.no_duplicates(),
        ring.len() + ms.len() <= SEEN_RING_CAPACITY,
    ensures
        ({
            let first = diff(last, Some(count), ms, ring);
            let after = inserted_all(ring, first_occurrences(ids_to_persist(first.1, ms)));
            diff(first.0, Some(count), ms, after).1 == OutcomeView::Nothing
        }),
{
    let first = diff(last, Some(count), ms, ring);
    let persisted = ids_to_persist(first.1, ms);
    let fo = first_occurrences(persisted);
    let after = inserted_all(ring, fo);
    lemma_new_messages_cover(ms, ring);
    lemma_new_messages_unseen_and_distinct(ms, ring);
    lemma_first_occurrences_members(persisted);
    assert(persisted.len() <= ms.len()) by {
        if first.1 is NewMessages {
            assert(persisted == message_ids(new_messages(ms, ring)));
        }
    }
    lemma_inserted_all_members(ring, fo);
    if ms.len() > 0 {
        assert forall|i: int| 0 <= i < ms.len() implies after.contains(#[trigger] ms[i].id) by {
            let y = ms[i].id;
            assert(message_ids(ms)[i] == y);
            if ring.contains(y) {
            } else if last is None {
                assert(persisted == message_ids(ms));
                assert(fo.contains(y));
            } else {
                assert(message_ids(new_messages(ms, ring)).contains(y));
                assert(new_messages(ms, ring).len() > 0);
                assert(persisted == message_ids(new_messages(ms, ring)));
                assert(fo.contains(y));
            }
        }
        lemma_all_seen_means_no_new_messages(ms, after);
    }
}

/// A copy of `ring`, id for id.
fn copy_ring(ring: &SeenRing) -> (c: SeenRing)
    ensures
        ring_ids(c) == ring_ids(*ring),
{
    let mut ids: VecDeque<String> = VecDeque::new();
    let mut i: usize = 0;
    while i < ring.0.len()
        invariant
            i <= ring.0@.len(),
            ids@.len() == i,
            forall|j: int| 0 <= j < i ==> (#[trigger] ids@[j])@ == ring.0@[j]@,
        decreases ring.0@.len() - i,
    {
        ids.push_back(ring.0[i].clone());
        i = i + 1;
    }
    let c = SeenRing(ids);
    assert(ring_ids(c) =~= ring_ids(*ring));
    c
}

/// Holds every service's notification baseline for this run of the app,
/// and the sink notifications are shown through.
pub struct Dispatcher<S: NotificationSink> {
    sink: S,
    baselines: IdMap<ServiceNotifyState>,
}

impl<S: NotificationSink> Dispatcher<S> {
    /// The baselines, by service id.
    pub closed spec fn baseline_map(self) -> Map<Seq<char>, ServiceNotifyState> {
        self.baselines@
    }

    /// The sink.
    pub closed spec fn sink_spec(self) -> S {
        self.sink
    }

    /// A dispatcher with no baselines yet, showing through `sink`.
    pub fn new(sink: S) -> (d: Self)
        ensures
            d.baseline_map() == Map::<Seq<char>, ServiceNotifyState>::empty(),
            d.sink_spec() == sink,
    {
        Dispatcher { sink, baselines: IdMap::new() }
    }

    /// Evaluates `report` for service `id` against its baseline (a fresh
    /// one the first time), updates the baseline, and records in `ring`
    /// the ids the outcome makes seen. Returns the outcome for
    /// [`Self::send`].
    pub fn evaluate_and_persist(&mut self, ring: &mut SeenRing, id: &ServiceId, report: &ValidReport) -> (outcome:
        DiffOutcome)
        ensures
            ({
                let prev = if old(self).baseline_map().contains_key(id@) {
                    old(self).baseline_map()[id@].last()
                } else {
                    None
                };
                let d = diff(prev, report@.count, report@.messages, ring_ids(*old(ring)));
                &&& outcome@ == d.1
                &&& final(self).baseline_map().dom() == old(self).baseline_map().dom().insert(id@)
                &&& final(self).baseline_map()[id@].last() == d.0
                &&& forall|k: Seq<char>|
                    k != id@ && #[trigger] old(self).baseline_map().contains_key(k) ==> final(self).baseline_map()[k]
                        == old(self).baseline_map()[k]
                &&& ring_ids(*final(ring)) == inserted_all(
                    ring_ids(*old(ring)),
                    first_occurrences(ids_to_persist(d.1, report@.messages)),
                )
            }),
    {
        let mut prev = match self.baselines.get(id) {
            Some(s) => *s,
            None => ServiceNotifyState::new(),
        };
        let outcome = evaluate(&mut prev, report, ring);
        self.baselines.insert(id.clone(), prev);
        persist_seen_ids(ring, &outcome, report);
        outcome
    }

    /// [`Self::evaluate_and_persist`] over the saved rings of every
    /// service: `id`'s ring in `rings` (an empty one when it has none) is
    /// the one read and updated, every other service's ring is left as it
    /// was.
    pub fn evaluate_and_persist_in(
        &mut self,
        rings: &mut IdMap<SeenRing>,
        id: &ServiceId,
        report: &ValidReport,
    ) -> (outcome: DiffOutcome)
        ensures
            ({
                let r0 = if old(rings)@.contains_key(id@) {
                    ring_ids(old(rings)@[id@])
                } else {
                    Seq::<Seq<char>>::empty()
                };
                let prev = if old(self).baseline_map().contains_key(id@) {
                    old(self).baseline_map()[id@].last()
                } else {
                    None
                };
                let d = diff(prev, report@.count, report@.messages, r0);
                &&& outcome@ == d.1
                &&& final(self).baseline_map().dom() == old(self).baseline_map().dom().insert(id@)
                &&& final(self).baseline_map()[id@].last() == d.0
                &&& forall|k: Seq<char>|
                    k != id@ && #[trigger] old(self).baseline_map().contains_key(k) ==> final(self).baseline_map()[k]
                        == old(self).baseline_map()[k]
                &&& final(rings)@.dom() == old(rings)@.dom().insert(id@)
                &&& ring_ids(final(rings)@[id@]) == inserted_all(
                    r0,
                    first_occurrences(ids_to_persist(d.1, report@.messages)),
                )
                &&& forall|k: Seq<char>|
                    k != id@ && #[trigger] old(rings)@.contains_key(k) ==> final(rings)@[k] == old(rings)@[k]
            }),
    {
        let mut ring = match rings.get(id) {
            Some(r) => copy_ring(r),
            None => SeenRing::new(),
        };
        proof {
            assert(ring_ids(ring) =~= if old(rings)@.contains_key(id@) {
                ring_ids(old(rings)@[id@])
            } else {
                Seq::<Seq<char>>::empty()
            });
        }
        let outcome = self.evaluate_and_persist(&mut ring, id, report);
        rings.insert(id.clone(), ring);
        outcome
    }

    /// The sink notifications are shown through.
    pub fn sink(&self) -> (s: &S)
        ensures
            *s == self.sink_spec(),
    {
        &self.sink
    }

    /// Shows, one after the other, every notification
    /// [`notifications_to_show`] gives for `outcome` (none unless both the
    /// global and the service's toggles are on), and returns the sink's
    /// answer for each, in order: one per planned notification, since a
    /// notification the sink fails to show does not stop the rest. The
    /// sink is asked exactly once for each, in plan order.
    pub fn send(
        &self,
        id: &ServiceId,
        service_name: &str,
        settings_notifications: bool,
        service_notifications: bool,
        batch_threshold: u32,
        outcome: DiffOutcome,
    ) -> (results: Vec<Result<(), AppError>>)
        ensures
            results@.len() == (if settings_notifications && service_notifications {
                plan(id@, service_name@, outcome@, batch_threshold).len()
            } else {
                0
            }),
            forall|i: int|
                0 <= i < results@.len() ==> self.sink_spec().shows(
                    plan(id@, service_name@, outcome@, batch_threshold)[i],
                    #[trigger] results@[i],
                ),
    {
        let notifications = notifications_to_show(
            settings_notifications,
            service_notifications,
            id,
            service_name,
            outcome,
            batch_threshold,
        );
        let mut results: Vec<Result<(), AppError>> = Vec::new();
        let mut i: usize = 0;
        while i < notifications.len()
            invariant
                i <= notifications@.len(),
                results@.len() == i,
                forall|j: int|
                    0 <= j < i ==> self.sink_spec().shows(notifications@[j]@, #[trigger] results@[j]),
            decreases notifications@.len() - i,
        {
            let n = notifications[i].clone();
            results.push(self.sink.show(n));
            i = i + 1;
        }
        assert forall|j: int| 0 <= j < results@.len() implies notification_views(notifications@)[j]
            == notifications@[j]@ by {}
        assert(notification_views(notifications@).len() == notifications@.len());
        results
    }
}

} // verus!
