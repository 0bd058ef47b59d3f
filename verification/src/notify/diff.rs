//! Deciding what a validated report means for notifications, given the
//! service's in-memory baseline and its ring of already-seen ids. Nothing
//! here sends or persists anything.

use vstd::prelude::*;

use crate::agent_bridge::validate::{MessageView, ValidMessageRef, ValidReport};
use crate::config::model::opt_view;
use crate::state::SeenRing;
use crate::weburl::ParsedUrl;

use super::seen::{contains, ring_ids};

verus! {

/// A service's notification baseline for this run of the app: the count
/// of the latest report that had one, or `None` before the first.
#[derive(Debug, Clone, Copy, PartialEq, Eq, Structural)]
pub struct ServiceNotifyState {
    last_count: Option<u32>,
}

impl ServiceNotifyState {
    /// A fresh baseline, as at launch.
    pub fn new() -> (s: Self)
        ensures
            s.last() is None,
    {
        ServiceNotifyState { last_count: None }
    }

    /// The recorded count.
    pub closed spec fn last(self) -> Option<u32> {
        self.last_count
    }

    /// The count last recorded, or `None` if none has been yet.
    pub fn last_count(&self) -> (c: Option<u32>)
        ensures
            c == self.last(),
    {
        self.last_count
    }
}

impl Default for ServiceNotifyState {
    fn default() -> (s: Self)
        ensures
            s.last() is None,
    {
        ServiceNotifyState::new()
    }
}

/// A new message worth notifying about, copied out of a report.
#[derive(Debug)]
pub struct MessageRef {
    pub id: String,
    pub from: Option<String>,
    pub subject: Option<String>,
    pub link: Option<ParsedUrl>,
}

impl View for MessageRef {
    type V = MessageView;

    open spec fn view(&self) -> MessageView {
        MessageView {
            id: self.id@,
            from: opt_view(self.from),
            subject: opt_view(self.subject),
            link: match self.link {
                Some(u) => Some(u@),
                None => None,
            },
        }
    }
}

impl MessageRef {
    /// A copy of a validated message.
    pub fn from_valid(m: &ValidMessageRef) -> (r: MessageRef)
        ensures
            r@ == m@,
    {
        let c = m.clone();
        MessageRef { id: c.id, from: c.from, subject: c.subject, link: c.link }
    }
}

impl Clone for MessageRef {
    fn clone(&self) -> (r: Self)
        ensures
            r@ == self@,
    {
        MessageRef {
            id: self.id.clone(),
            from: match &self.from {
                Some(s) => Some(s.clone()),
                None => None,
            },
            subject: match &self.subject {
                Some(s) => Some(s.clone()),
                None => None,
            },
            link: match &self.link {
                Some(u) => Some(u.clone()),
                None => None,
            },
        }
    }
}

/// What a report implies for notifications.
#[derive(Debug)]
pub enum DiffOutcome {
    /// The first report with a count since launch: recorded, not notified.
    Seed,
    /// Nothing to notify about.
    Nothing,
    /// Message ids not seen before, first occurrences, in report order.
    NewMessages(Vec<MessageRef>),
    /// No messages listed, but the count rose by this much.
    CountIncrease(u32),
}

/// The spec-level value of a [`DiffOutcome`].
pub enum OutcomeView {
    Seed,
    Nothing,
    NewMessages(Seq<MessageView>),
    CountIncrease(u32),
}

impl View for DiffOutcome {
    type V = OutcomeView;

    open spec fn view(&self) -> OutcomeView {
        match self {
            DiffOutcome::Seed => OutcomeView::Seed,
            DiffOutcome::Nothing => OutcomeView::Nothing,
            DiffOutcome::NewMessages(v) => OutcomeView::NewMessages(v@.map_values(|m: MessageRef| m@)),
            DiffOutcome::CountIncrease(n) => OutcomeView::CountIncrease(*n),
        }
    }
}

impl Clone for DiffOutcome {
    fn clone(&self) -> (r: Self)
        ensures
            r@ == self@,
    {
        match self {
            DiffOutcome::Seed => DiffOutcome::Seed,
            DiffOutcome::Nothing => DiffOutcome::Nothing,
            DiffOutcome::NewMessages(v) => {
                let mut out: Vec<MessageRef> = Vec::new();
                let mut i: usize = 0;
                while i < v.len()
                    invariant
                        i <= v@.len(),
                        out@.map_values(|m: MessageRef| m@) == v@.take(i as int).map_values(|m: MessageRef| m@),
                    decreases v@.len() - i,
                {
                    let ghost before = out@.map_values(|m: MessageRef| m@);
                    let c = v[i].clone();
                    out.push(c);
                    assert(out@.map_values(|m: MessageRef| m@) =~= before.push(v@[i as int]@));
                    assert(v@.take(i + 1).map_values(|m: MessageRef| m@) =~= v@.take(i as int).map_values(
                        |m: MessageRef| m@,
                    ).push(v@[i as int]@));
                    i = i + 1;
                }
                assert(v@.take(v@.len() as int) =~= v@);
                DiffOutcome::NewMessages(out)
            },
            DiffOutcome::CountIncrease(n) => DiffOutcome::CountIncrease(*n),
        }
    }
}

/// Two messages are equal field by field (links by their text).
pub open spec fn same_message(a: MessageView, b: MessageView) -> bool {
    &&& a.id == b.id
    &&& a.from == b.from
    &&& a.subject == b.subject
    &&& match (a.link, b.link) {
        (Some(x), Some(y)) => x.serialization == y.serialization,
        (None, None) => true,
        _ => false,
    }
}

/// Two outcomes are equal: the same variant with equal contents.
pub open spec fn same_outcome(a: OutcomeView, b: OutcomeView) -> bool {
    match (a, b) {
        (OutcomeView::Seed, OutcomeView::Seed) => true,
        (OutcomeView::Nothing, OutcomeView::Nothing) => true,
        (OutcomeView::CountIncrease(x), OutcomeView::CountIncrease(y)) => x == y,
        (OutcomeView::NewMessages(x), OutcomeView::NewMessages(y)) => x.len() == y.len() && forall|i: int|
            0 <= i < x.len() ==> same_message(#[trigger] x[i], y[i]),
        _ => false,
    }
}

fn same_text(a: &Option<String>, b: &Option<String>) -> (r: bool)
    ensures
        r == (opt_view(*a) == opt_view(*b)),
{
    match (a, b) {
        (Some(x), Some(y)) => *x == *y,
        (None, None) => true,
        _ => false,
    }
}

impl PartialEq for MessageRef {
    fn eq(&self, other: &Self) -> (r: bool) {
        self.id == other.id && same_text(&self.from, &other.from) && same_text(&self.subject, &other.subject)
            && match (&self.link, &other.link) {
            (Some(x), Some(y)) => x.serialization == y.serialization,
            (None, None) => true,
            _ => false,
        }
    }
}

impl vstd::std_specs::cmp::PartialEqSpecImpl for MessageRef {
    open spec fn obeys_eq_spec() -> bool {
        true
    }

    open spec fn eq_spec(&self, other: &Self) -> bool {
        same_message(self@, other@)
    }
}

impl PartialEq for DiffOutcome {
    fn eq(&self, other: &Self) -> (r: bool) {
        match (self, other) {
            (DiffOutcome::Seed, DiffOutcome::Seed) => true,
            (DiffOutcome::Nothing, DiffOutcome::Nothing) => true,
            (DiffOutcome::CountIncrease(x), DiffOutcome::CountIncrease(y)) => *x == *y,
            (DiffOutcome::NewMessages(x), DiffOutcome::NewMessages(y)) => {
                let ghost xv = x@.map_values(|m: MessageRef| m@);
                let ghost yv = y@.map_values(|m: MessageRef| m@);
                if x.len() != y.len() {
                    return false;
                }
                let mut i: usize = 0;
                while i < x.len()
                    invariant
                        xv == x@.map_values(|m: MessageRef| m@),
                        yv == y@.map_values(|m: MessageRef| m@),
                        self@ == OutcomeView::NewMessages(xv),
                        other@ == OutcomeView::NewMessages(yv),
                        x@.len() == y@.len(),
                        i <= x@.len(),
                        forall|j: int| 0 <= j < i ==> same_message(#[trigger] xv[j], yv[j]),
                    decreases x@.len() - i,
                {
                    if !(x[i] == y[i]) {
                        assert(!same_message(xv[i as int], yv[i as int]));
                        assert(!same_outcome(self@, other@));
                        return false;
                    }
                    i = i + 1;
                }
                true
            },
            _ => false,
        }
    }
}

impl vstd::std_specs::cmp::PartialEqSpecImpl for DiffOutcome {
    open spec fn obeys_eq_spec() -> bool {
        true
    }

    open spec fn eq_spec(&self, other: &Self) -> bool {
        same_outcome(self@, other@)
    }
}

/// The ids of `ms`, in order.
pub open spec fn message_ids(ms: Seq<MessageView>) -> Seq<Seq<char>> {
    ms.map_values(|m: MessageView| m.id)
}

/// The messages of `ms` whose id is neither in `seen` nor repeated from
/// an earlier message of `ms`, in order.
pub open spec fn new_messages(ms: Seq<MessageView>, seen: Seq<Seq<char>>) -> Seq<MessageView>
    decreases ms.len(),
{
    if ms.len() == 0 {
        seq![]
    } else {
        let rest = new_messages(ms.drop_last(), seen);
        let m = ms.last();
        if message_ids(ms.drop_last()).contains(m.id) || seen.contains(m.id) {
            rest
        } else {
            rest.push(m)
        }
    }
}

/// A message reported as new was not seen before, comes from the report,
/// and is reported once however often the report lists its id.
pub proof fn lemma_new_messages_unseen_and_distinct(ms: Seq<MessageView>, seen: Seq<Seq<char>>)
    ensures
        forall|i: int|
            0 <= i < new_messages(ms, seen).len() ==> !seen.contains(#[trigger] new_messages(ms, seen)[i].id)
                && message_ids(ms).contains(new_messages(ms, seen)[i].id),
        message_ids(new_messages(ms, seen)).no_duplicates(),
    decreases ms.len(),
{
    if ms.len() > 0 {
        let prefix = ms.drop_last();
        lemma_new_messages_unseen_and_distinct(prefix, seen);
        let rest = new_messages(prefix, seen);
        let m = ms.last();
        assert forall|i: int| 0 <= i < rest.len() implies message_ids(ms).contains(#[trigger] rest[i].id) by {
            let k = choose|k: int| 0 <= k < message_ids(prefix).len() && message_ids(prefix)[k] == rest[i].id;
            assert(message_ids(ms)[k] == rest[i].id);
        }
        if !(message_ids(prefix).contains(m.id) || seen.contains(m.id)) {
            let all = rest.push(m);
            assert(message_ids(ms)[ms.len() - 1] == m.id);
            assert forall|i: int, j: int|
                0 <= i < message_ids(all).len() && 0 <= j < message_ids(all).len() && i != j implies message_ids(
                all,
            )[i] != message_ids(all)[j] by {
                if i == rest.len() as int {
                    assert(message_ids(prefix).contains(rest[j].id));
                } else if j == rest.len() as int {
                    assert(message_ids(prefix).contains(rest[i].id));
                } else {
                    assert(message_ids(rest)[i] == message_ids(all)[i]);
                    assert(message_ids(rest)[j] == message_ids(all)[j]);
                }
            }
        }
    }
}

/// Every id of the report not seen before is among the new messages, and
/// there are never more new messages than listed ones.
pub proof fn lemma_new_messages_cover(ms: Seq<MessageView>, seen: Seq<Seq<char>>)
    ensures
        new_messages(ms, seen).len() <= ms.len(),
        forall|y: Seq<char>|
            message_ids(ms).contains(y) && !seen.contains(y) ==> #[trigger] message_ids(new_messages(ms, seen)).contains(
                y,
            ),
    decreases ms.len(),
{
    if ms.len() > 0 {
        let prefix = ms.drop_last();
        lemma_new_messages_cover(prefix, seen);
        let rest = new_messages(prefix, seen);
        let m = ms.last();
        assert forall|y: Seq<char>|
            message_ids(ms).contains(y) && !seen.contains(y) implies #[trigger] message_ids(
            new_messages(ms, seen),
        ).contains(y) by {
            let j = choose|j: int| 0 <= j < message_ids(ms).len() && message_ids(ms)[j] == y;
            let pushed = !(message_ids(prefix).contains(m.id) || seen.contains(m.id));
            let in_prefix = j < prefix.len() || message_ids(prefix).contains(m.id);
            if j < prefix.len() {
                assert(message_ids(prefix)[j] == y);
            } else {
                assert(m.id == y);
            }
            if in_prefix {
                assert(message_ids(prefix).contains(y));
                assert(message_ids(rest).contains(y));
                let k = choose|k: int| 0 <= k < message_ids(rest).len() && message_ids(rest)[k] == y;
                if pushed {
                    assert(message_ids(rest.push(m))[k] == message_ids(rest)[k]);
                } else {
                    assert(new_messages(ms, seen) == rest);
                }
            } else {
                assert(m.id == y);
                assert(pushed);
                let all = rest.push(m);
                assert(message_ids(all)[rest.len() as int] == y);
            }
        }
    }
}

/// A report all of whose ids were seen has no new messages.
pub proof fn lemma_all_seen_means_no_new_messages(ms: Seq<MessageView>, seen: Seq<Seq<char>>)
    requires
        forall|i: int| 0 <= i < ms.len() ==> seen.contains(#[trigger] ms[i].id),
    ensures
        new_messages(ms, seen).len() == 0,
    decreases ms.len(),
{
    if ms.len() > 0 {
        let prefix = ms.drop_last();
        assert forall|i: int| 0 <= i < prefix.len() implies seen.contains(#[trigger] prefix[i].id) by {
            assert(prefix[i] == ms[i]);
        }
        lemma_all_seen_means_no_new_messages(prefix, seen);
        assert(seen.contains(ms[ms.len() - 1].id));
    }
}

/// The baseline after a report with `count` and `messages`, and what the
/// report implies, given the previous baseline `last` and the `seen` ids:
///
/// 1. no count: nothing, baseline unchanged;
/// 2. no baseline yet: seed it;
/// 3. otherwise the baseline becomes the count, and the new messages (if
///    any were listed), or the rise in count (if none were), is what
///    there is to notify about.
pub open spec fn diff(last: Option<u32>, count: Option<u32>, messages: Seq<MessageView>, seen: Seq<Seq<char>>) -> (
    Option<u32>,
    OutcomeView,
) {
    match count {
        None => (last, OutcomeView::Nothing),
        Some(c) => match last {
            None => (Some(c), OutcomeView::Seed),
            Some(l) => (
                Some(c),
                if messages.len() > 0 {
                    if new_messages(messages, seen).len() == 0 {
                        OutcomeView::Nothing
                    } else {
                        OutcomeView::NewMessages(new_messages(messages, seen))
                    }
                } else if c > l {
                    OutcomeView::CountIncrease((c - l) as u32)
                } else {
                    OutcomeView::Nothing
                },
            ),
        },
    }
}

/// Decides what `report` implies against the baseline `prev` (updated in
/// place) and the ring `seen` (only read).
pub fn evaluate(prev: &mut ServiceNotifyState, report: &ValidReport, seen: &SeenRing) -> (outcome: DiffOutcome)
    ensures
        final(prev).last() == diff(old(prev).last(), report@.count, report@.messages, ring_ids(*seen)).0,
        outcome@ == diff(old(prev).last(), report@.count, report@.messages, ring_ids(*seen)).1,
{
    let count = match report.count() {
        Some(c) => c,
        None => return DiffOutcome::Nothing,
    };
    let last = match prev.last_count {
        Some(l) => l,
        None => {
            prev.last_count = Some(count);
            return DiffOutcome::Seed;
        },
    };
    prev.last_count = Some(count);
    let messages = report.messages();
    if messages.len() > 0 {
        let refs = new_message_refs(messages, seen);
        if refs.len() == 0 {
            return DiffOutcome::Nothing;
        }
        return DiffOutcome::NewMessages(refs);
    }
    if count > last {
        DiffOutcome::CountIncrease(count - last)
    } else {
        DiffOutcome::Nothing
    }
}

/// The messages of `messages` not already in `seen_ring`, first
/// occurrences only, in order.
pub fn new_message_refs(messages: &[ValidMessageRef], seen_ring: &SeenRing) -> (refs: Vec<MessageRef>)
    ensures
        refs@.map_values(|m: MessageRef| m@) == new_messages(
            messages@.map_values(|m: ValidMessageRef| m@),
            ring_ids(*seen_ring),
        ),
{
    let ghost ms = messages@.map_values(|m: ValidMessageRef| m@);
    let ghost seen = ring_ids(*seen_ring);
    let mut result: Vec<MessageRef> = Vec::new();
    let mut i: usize = 0;
    while i < messages.len()
        invariant
            ms == messages@.map_values(|m: ValidMessageRef| m@),
            seen == ring_ids(*seen_ring),
            i <= messages@.len(),
            result@.map_values(|m: MessageRef| m@) == new_messages(ms.take(i as int), seen),
        decreases messages@.len() - i,
    {
        let message = &messages[i];
        let mut repeated = false;
        let mut j: usize = 0;
        while j < i
            invariant
                ms == messages@.map_values(|m: ValidMessageRef| m@),
                i < messages@.len(),
                j <= i,
                message@ == ms[i as int],
                repeated == exists|a: int| 0 <= a < j && ms[a].id == ms[i as int].id,
            decreases i - j,
        {
            let same = messages[j].id == message.id;
            proof {
                assert(ms[j as int] == messages@[j as int]@);
                if same {
                    assert(0 <= j < j + 1 && ms[j as int].id == ms[i as int].id);
                } else {
                    assert forall|x: int| 0 <= x < j + 1 && ms[x].id == ms[i as int].id implies 0 <= x < j by {}
                }
            }
            if same {
                repeated = true;
            }
            j = j + 1;
        }
        let already = contains(seen_ring, message.id.as_str());
        proof {
            let pre = ms.take(i as int);
            let next = ms.take(i + 1);
            assert(next.drop_last() =~= pre);
            assert(next.last() == ms[i as int]);
            assert(repeated == message_ids(pre).contains(ms[i as int].id)) by {
                if repeated {
                    let a = choose|a: int| 0 <= a < i && ms[a].id == ms[i as int].id;
                    assert(message_ids(pre)[a] == ms[i as int].id);
                }
                if message_ids(pre).contains(ms[i as int].id) {
                    let a = choose|a: int| 0 <= a < message_ids(pre).len() && message_ids(pre)[a] == ms[i as int].id;
                    assert(ms[a].id == ms[i as int].id);
                }
            }
        }
        if !repeated && !already {
            let ghost before = result@.map_values(|m: MessageRef| m@);
            result.push(MessageRef::from_valid(message));
            assert(result@.map_values(|m: MessageRef| m@) =~= before.push(ms[i as int]));
        }
        i = i + 1;
    }
    assert(ms.take(messages@.len() as int) =~= ms);
    result
}

} // verus!
