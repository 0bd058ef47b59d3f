//! Diffing two configurations into a plan of webview operations: which
//! services to create, destroy, recreate or update in place, and whether
//! the shell's service list changed. Only `services` is compared.

use vstd::prelude::*;

use crate::config::model::{same_icon, same_service, same_services, service_views, ServiceView};
use crate::config::{services_equal, Config, ServiceConfig, ServiceId};

verus! {

/// One webview-affecting change.
#[derive(Debug)]
pub enum WebviewOp {
    /// A service new to the configuration.
    Create(ServiceId),
    /// A service no longer in the configuration.
    Destroy(ServiceId),
    /// A kept service whose URL or profile changed: rebuild its webview.
    Recreate(ServiceId),
    /// A kept service whose name, icon or notification toggle changed:
    /// sidebar metadata only.
    UpdateInPlace(ServiceId),
}

/// What kind of change a [`WebviewOp`] is.
#[derive(Debug, Clone, Copy, PartialEq, Eq, Structural)]
pub enum OpKind {
    Create,
    Destroy,
    Recreate,
    UpdateInPlace,
}

impl View for WebviewOp {
    type V = (OpKind, Seq<char>);

    open spec fn view(&self) -> (OpKind, Seq<char>) {
        match self {
            WebviewOp::Create(id) => (OpKind::Create, id@),
            WebviewOp::Destroy(id) => (OpKind::Destroy, id@),
            WebviewOp::Recreate(id) => (OpKind::Recreate, id@),
            WebviewOp::UpdateInPlace(id) => (OpKind::UpdateInPlace, id@),
        }
    }
}

impl Clone for WebviewOp {
    fn clone(&self) -> (r: Self)
        ensures
            r@ == self@,
    {
        match self {
            WebviewOp::Create(id) => WebviewOp::Create(id.clone()),
            WebviewOp::Destroy(id) => WebviewOp::Destroy(id.clone()),
            WebviewOp::Recreate(id) => WebviewOp::Recreate(id.clone()),
            WebviewOp::UpdateInPlace(id) => WebviewOp::UpdateInPlace(id.clone()),
        }
    }
}

impl PartialEq for WebviewOp {
    fn eq(&self, other: &Self) -> (r: bool) {
        match (self, other) {
            (WebviewOp::Create(a), WebviewOp::Create(b)) => *a == *b,
            (WebviewOp::Destroy(a), WebviewOp::Destroy(b)) => *a == *b,
            (WebviewOp::Recreate(a), WebviewOp::Recreate(b)) => *a == *b,
            (WebviewOp::UpdateInPlace(a), WebviewOp::UpdateInPlace(b)) => *a == *b,
            _ => false,
        }
    }
}

impl Eq for WebviewOp {}

impl vstd::std_specs::cmp::PartialEqSpecImpl for WebviewOp {
    open spec fn obeys_eq_spec() -> bool {
        true
    }

    open spec fn eq_spec(&self, other: &Self) -> bool {
        self@ == other@
    }
}

/// The result of [`diff`].
#[derive(Debug)]
pub struct Plan {
    /// Every destroy (old order), then every create (new order), then
    /// every recreate or in-place update of a kept service (new order).
    pub ops: Vec<WebviewOp>,
    /// Whether the service list differs at all, a pure reorder included.
    pub services_changed: bool,
}

impl Default for Plan {
    fn default() -> (p: Self)
        ensures
            p.ops@.len() == 0,
            !p.services_changed,
    {
        Plan { ops: Vec::new(), services_changed: false }
    }
}

impl PartialEq for Plan {
    fn eq(&self, other: &Self) -> (r: bool) {
        if self.services_changed != other.services_changed || self.ops.len() != other.ops.len() {
            assert(self.services_changed != other.services_changed || op_views(self.ops@).len() != op_views(
                other.ops@,
            ).len());
            return false;
        }
        let mut i: usize = 0;
        while i < self.ops.len()
            invariant
                self.ops@.len() == other.ops@.len(),
                i <= self.ops@.len(),
                forall|j: int| 0 <= j < i ==> (#[trigger] self.ops@[j])@ == other.ops@[j]@,
            decreases self.ops@.len() - i,
        {
            if !(self.ops[i] == other.ops[i]) {
                assert(op_views(self.ops@)[i as int] != op_views(other.ops@)[i as int]);
                return false;
            }
            i = i + 1;
        }
        assert(op_views(self.ops@) =~= op_views(other.ops@));
        true
    }
}

impl Eq for Plan {}

impl vstd::std_specs::cmp::PartialEqSpecImpl for Plan {
    open spec fn obeys_eq_spec() -> bool {
        true
    }

    open spec fn eq_spec(&self, other: &Self) -> bool {
        self.services_changed == other.services_changed && op_views(self.ops@) == op_views(other.ops@)
    }
}

/// The ids of `s`, in order.
pub open spec fn ids_of(s: Seq<ServiceView>) -> Seq<Seq<char>> {
    s.map_values(|v: ServiceView| v.id)
}

/// A destroy for each service of `old` whose id `new` lacks, in order.
pub open spec fn destroys(old: Seq<ServiceView>, new_ids: Seq<Seq<char>>) -> Seq<(OpKind, Seq<char>)>
    decreases old.len(),
{
    if old.len() == 0 {
        seq![]
    } else {
        let rest = destroys(old.drop_last(), new_ids);
        if new_ids.contains(old.last().id) {
            rest
        } else {
            rest.push((OpKind::Destroy, old.last().id))
        }
    }
}

/// A create for each service of `new` whose id `old` lacks, in order.
pub open spec fn creates(new: Seq<ServiceView>, old_ids: Seq<Seq<char>>) -> Seq<(OpKind, Seq<char>)>
    decreases new.len(),
{
    if new.len() == 0 {
        seq![]
    } else {
        let rest = creates(new.drop_last(), old_ids);
        if old_ids.contains(new.last().id) {
            rest
        } else {
            rest.push((OpKind::Create, new.last().id))
        }
    }
}

/// The first service of `s` with id `id`.
pub open spec fn first_with_id(s: Seq<ServiceView>, id: Seq<char>) -> Option<ServiceView>
    decreases s.len(),
{
    if s.len() == 0 {
        None
    } else {
        match first_with_id(s.drop_last(), id) {
            Some(v) => Some(v),
            None => if s.last().id == id {
                Some(s.last())
            } else {
                None
            },
        }
    }
}

/// What a kept service's change calls for: a recreate when its URL or
/// profile changed, else an in-place update when its name, icon or
/// notification toggle changed, else nothing.
pub open spec fn change_of(o: ServiceView, n: ServiceView) -> Option<OpKind> {
    if o.url.serialization != n.url.serialization || o.profile != n.profile {
        Some(OpKind::Recreate)
    } else if o.name != n.name || !same_icon(o.icon, n.icon) || o.notifications != n.notifications {
        Some(OpKind::UpdateInPlace)
    } else {
        None
    }
}

/// The recreates and in-place updates for the services of `new` that
/// `old` also has (matched by id, first match), in new order.
pub open spec fn changes(new: Seq<ServiceView>, old: Seq<ServiceView>) -> Seq<(OpKind, Seq<char>)>
    decreases new.len(),
{
    if new.len() == 0 {
        seq![]
    } else {
        let rest = changes(new.drop_last(), old);
        let n = new.last();
        match first_with_id(old, n.id) {
            None => rest,
            Some(o) => match change_of(o, n) {
                Some(k) => rest.push((k, n.id)),
                None => rest,
            },
        }
    }
}

/// The full operation list for going from `old` to `new`.
pub open spec fn plan_ops(old: Seq<ServiceView>, new: Seq<ServiceView>) -> Seq<(OpKind, Seq<char>)> {
    destroys(old, ids_of(new)) + creates(new, ids_of(old)) + changes(new, old)
}

/// The views of `ops`, in order.
pub open spec fn op_views(ops: Seq<WebviewOp>) -> Seq<(OpKind, Seq<char>)> {
    ops.map_values(|o: WebviewOp| o@)
}

pub(crate) fn has_id(services: &Vec<ServiceConfig>, id: &ServiceId) -> (b: bool)
    ensures
        b == ids_of(service_views(services@)).contains(id@),
{
    let ghost ids = ids_of(service_views(services@));
    let mut i: usize = 0;
    while i < services.len()
        invariant
            ids == ids_of(service_views(services@)),
            i <= services@.len(),
            forall|j: int| 0 <= j < i ==> ids[j] != id@,
        decreases services@.len() - i,
    {
        if services[i].id == *id {
            assert(ids[i as int] == id@);
            return true;
        }
        i = i + 1;
    }
    assert(!ids.contains(id@)) by {
        if ids.contains(id@) {
            let j = choose|j: int| 0 <= j < ids.len() && ids[j] == id@;
            assert(ids[j] != id@);
        }
    }
    false
}

proof fn lemma_first_with_id_extend(s: Seq<ServiceView>, id: Seq<char>, n: int, m: int)
    requires
        0 < n <= m <= s.len(),
        first_with_id(s.take(n), id) is Some,
    ensures
        first_with_id(s.take(m), id) == first_with_id(s.take(n), id),
    decreases m - n,
{
    if m > n {
        lemma_first_with_id_extend(s, id, n, m - 1);
        assert(s.take(m).drop_last() =~= s.take(m - 1));
    }
}

pub(crate) fn find_service<'a>(services: &'a Vec<ServiceConfig>, id: &ServiceId) -> (r: Option<&'a ServiceConfig>)
    ensures
        match first_with_id(service_views(services@), id@) {
            Some(v) => r matches Some(s) && s@ == v,
            None => r is None,
        },
{
    let ghost sv = service_views(services@);
    let mut i: usize = 0;
    while i < services.len()
        invariant
            sv == service_views(services@),
            i <= services@.len(),
            first_with_id(sv.take(i as int), id@) is None,
        decreases services@.len() - i,
    {
        assert(sv.take(i + 1).drop_last() =~= sv.take(i as int));
        assert(sv.take(i + 1).last() == sv[i as int]);
        if services[i].id == *id {
            proof {
                lemma_first_with_id_extend(sv, id@, i + 1, sv.len() as int);
                assert(sv.take(sv.len() as int) =~= sv);
            }
            return Some(&services[i]);
        }
        i = i + 1;
    }
    assert(sv.take(sv.len() as int) =~= sv);
    None
}

fn change_exec(o: &ServiceConfig, n: &ServiceConfig) -> (r: Option<OpKind>)
    ensures
        r == change_of(o@, n@),
{
    if !(o.url.serialization == n.url.serialization) || !(o.profile == n.profile) {
        Some(OpKind::Recreate)
    } else if !(o.name == n.name) || !(o.icon == n.icon) || o.notifications != n.notifications {
        Some(OpKind::UpdateInPlace)
    } else {
        None
    }
}

fn op_of(kind: OpKind, id: ServiceId) -> (op: WebviewOp)
    ensures
        op@ == (kind, id@),
{
    match kind {
        OpKind::Create => WebviewOp::Create(id),
        OpKind::Destroy => WebviewOp::Destroy(id),
        OpKind::Recreate => WebviewOp::Recreate(id),
        OpKind::UpdateInPlace => WebviewOp::UpdateInPlace(id),
    }
}

/// Diffs `old` against `new`: the webview operations to apply, and
/// whether the service list changed. Settings are not compared, so
/// configurations whose service lists are equal (ids distinct, as every
/// parsed configuration's are) give an empty plan.
pub fn diff(old: &Config, new: &Config) -> (plan: Plan)
    ensures
        op_views(plan.ops@) == plan_ops(service_views(old.services@), service_views(new.services@)),
        plan.services_changed == !same_services(service_views(old.services@), service_views(new.services@)),
        ids_of(service_views(old.services@)).no_duplicates() && same_services(
            service_views(old.services@),
            service_views(new.services@),
        ) ==> plan.ops@.len() == 0 && !plan.services_changed,
{
    let ghost ov = service_views(old.services@);
    let ghost nv = service_views(new.services@);
    let mut ops: Vec<WebviewOp> = Vec::new();
    let mut i: usize = 0;
    while i < old.services.len()
        invariant
            ov == service_views(old.services@),
            nv == service_views(new.services@),
            i <= old.services@.len(),
            op_views(ops@) == destroys(ov.take(i as int), ids_of(nv)),
        decreases old.services@.len() - i,
    {
        assert(ov.take(i + 1).drop_last() =~= ov.take(i as int));
        assert(ov.take(i + 1).last() == ov[i as int]);
        let id = &old.services[i].id;
        if !has_id(&new.services, id) {
            let ghost before = op_views(ops@);
            ops.push(WebviewOp::Destroy(id.clone()));
            assert(op_views(ops@) =~= before.push((OpKind::Destroy, id@)));
        }
        i = i + 1;
    }
    assert(ov.take(ov.len() as int) =~= ov);
    let ghost after_destroys = op_views(ops@);
    let mut j: usize = 0;
    while j < new.services.len()
        invariant
            ov == service_views(old.services@),
            nv == service_views(new.services@),
            j <= new.services@.len(),
            after_destroys == destroys(ov, ids_of(nv)),
            op_views(ops@) == after_destroys + creates(nv.take(j as int), ids_of(ov)),
        decreases new.services@.len() - j,
    {
        assert(nv.take(j + 1).drop_last() =~= nv.take(j as int));
        assert(nv.take(j + 1).last() == nv[j as int]);
        let id = &new.services[j].id;
        if !has_id(&old.services, id) {
            let ghost before = op_views(ops@);
            ops.push(WebviewOp::Create(id.clone()));
            assert(op_views(ops@) =~= before.push((OpKind::Create, id@)));
        }
        j = j + 1;
    }
    assert(nv.take(nv.len() as int) =~= nv);
    let ghost after_creates = op_views(ops@);
    let mut k: usize = 0;
    while k < new.services.len()
        invariant
            ov == service_views(old.services@),
            nv == service_views(new.services@),
            k <= new.services@.len(),
            after_creates == destroys(ov, ids_of(nv)) + creates(nv, ids_of(ov)),
            op_views(ops@) == after_creates + changes(nv.take(k as int), ov),
        decreases new.services@.len() - k,
    {
        assert(nv.take(k + 1).drop_last() =~= nv.take(k as int));
        assert(nv.take(k + 1).last() == nv[k as int]);
        let n = &new.services[k];
        match find_service(&old.services, &n.id) {
            Some(o) => match change_exec(o, n) {
                Some(kind) => {
                    let ghost before = op_views(ops@);
                    ops.push(op_of(kind, n.id.clone()));
                    assert(op_views(ops@) =~= before.push((kind, n.id@)));
                },
                None => {},
            },
            None => {},
        }
        k = k + 1;
    }
    assert(nv.take(nv.len() as int) =~= nv);
    assert(op_views(ops@) =~= plan_ops(ov, nv));
    proof {
        if ids_of(ov).no_duplicates() && same_services(ov, nv) {
            lemma_diff_of_equal_lists(ov, nv);
            assert(op_views(ops@).len() == ops@.len());
        }
    }
    Plan { ops, services_changed: !services_equal(&old.services, &new.services) }
}

} // verus!

verus! {

proof fn lemma_ids_contains(s: Seq<ServiceView>, i: int)
    requires
        0 <= i < s.len(),
    ensures
        ids_of(s).contains(s[i].id),
{
    assert(ids_of(s)[i] == s[i].id);
}

pub(crate) proof fn lemma_first_with_id_of_distinct(s: Seq<ServiceView>, i: int)
    requires
        0 <= i < s.len(),
        ids_of(s).no_duplicates(),
    ensures
        first_with_id(s, s[i].id) == Some(s[i]),
    decreases s.len(),
{
    if i == s.len() - 1 {
        let p = s.drop_last();
        assert(first_with_id(p, s[i].id) is None) by {
            assert forall|j: int| 0 <= j < p.len() implies p[j].id != s[i].id by {
                assert(ids_of(s)[j] == p[j].id);
                assert(ids_of(s)[i] == s[i].id);
            }
            lemma_first_with_id_absent(p, s[i].id);
        }
    } else {
        let p = s.drop_last();
        assert(ids_of(p).no_duplicates()) by {
            assert forall|a: int, b: int| 0 <= a < ids_of(p).len() && 0 <= b < ids_of(p).len() && a != b implies ids_of(
                p,
            )[a] != ids_of(p)[b] by {
                assert(ids_of(p)[a] == ids_of(s)[a] && ids_of(p)[b] == ids_of(s)[b]);
            }
        }
        assert(p[i] == s[i]);
        lemma_first_with_id_of_distinct(p, i);
    }
}

pub(crate) proof fn lemma_first_with_id_absent(p: Seq<ServiceView>, id: Seq<char>)
    requires
        forall|j: int| 0 <= j < p.len() ==> p[j].id != id,
    ensures
        first_with_id(p, id) is None,
    decreases p.len(),
{
    if p.len() > 0 {
        lemma_first_with_id_absent(p.drop_last(), id);
    }
}

/// Diffing a service list with distinct ids against itself plans no
/// operation at all (and reports no change); likewise for a list whose
/// entries are all equal to the old ones.
pub proof fn lemma_diff_of_equal_lists(old: Seq<ServiceView>, new: Seq<ServiceView>)
    requires
        ids_of(old).no_duplicates(),
        same_services(old, new),
    ensures
        plan_ops(old, new) == Seq::<(OpKind, Seq<char>)>::empty(),
{
    assert(ids_of(old) =~= ids_of(new)) by {
        assert forall|i: int| 0 <= i < ids_of(old).len() implies ids_of(old)[i] == ids_of(new)[i] by {
            assert(crate::config::model::same_service(old[i], new[i]));
        }
    }
    lemma_no_destroys(old, ids_of(new), old.len() as int);
    lemma_no_creates(new, ids_of(old), new.len() as int);
    lemma_no_changes(old, new, new.len() as int);
    assert(old.take(old.len() as int) =~= old);
    assert(new.take(new.len() as int) =~= new);
}

proof fn lemma_no_destroys(old: Seq<ServiceView>, new_ids: Seq<Seq<char>>, n: int)
    requires
        0 <= n <= old.len(),
        ids_of(old) == new_ids,
    ensures
        destroys(old.take(n), new_ids) == Seq::<(OpKind, Seq<char>)>::empty(),
    decreases n,
{
    if n > 0 {
        assert(old.take(n).drop_last() =~= old.take(n - 1));
        lemma_no_destroys(old, new_ids, n - 1);
        lemma_ids_contains(old, n - 1);
    }
}

proof fn lemma_no_creates(new: Seq<ServiceView>, old_ids: Seq<Seq<char>>, n: int)
    requires
        0 <= n <= new.len(),
        ids_of(new) == old_ids,
    ensures
        creates(new.take(n), old_ids) == Seq::<(OpKind, Seq<char>)>::empty(),
    decreases n,
{
    if n > 0 {
        assert(new.take(n).drop_last() =~= new.take(n - 1));
        lemma_no_creates(new, old_ids, n - 1);
        lemma_ids_contains(new, n - 1);
    }
}

proof fn lemma_no_changes(old: Seq<ServiceView>, new: Seq<ServiceView>, n: int)
    requires
        0 <= n <= new.len(),
        ids_of(old).no_duplicates(),
        same_services(old, new),
    ensures
        changes(new.take(n), old) == Seq::<(OpKind, Seq<char>)>::empty(),
    decreases n,
{
    if n > 0 {
        assert(new.take(n).drop_last() =~= new.take(n - 1));
        lemma_no_changes(old, new, n - 1);
        let k = n - 1;
        assert(crate::config::model::same_service(old[k], new[k]));
        lemma_first_with_id_of_distinct(old, k);
        assert(new.take(n).last() == new[k]);
    }
}

/// Every entry of `new` equals some entry of `old`.
pub open spec fn entries_from(old: Seq<ServiceView>, new: Seq<ServiceView>) -> bool {
    forall|i: int| 0 <= i < new.len() ==> exists|j: int| 0 <= j < old.len() && same_service(old[j], #[trigger] new[i])
}

/// Putting the services in another order (every old id kept, every entry
/// unchanged) plans no webview operation: a reorder never touches a live
/// webview.
pub proof fn lemma_reorder_plans_nothing(old: Seq<ServiceView>, new: Seq<ServiceView>)
    requires
        ids_of(old).no_duplicates(),
        forall|j: int| 0 <= j < old.len() ==> ids_of(new).contains(#[trigger] old[j].id),
        entries_from(old, new),
    ensures
        plan_ops(old, new) == Seq::<(OpKind, Seq<char>)>::empty(),
{
    lemma_kept_no_destroys(old, ids_of(new), old.len() as int);
    lemma_reordered_no_creates_or_changes(old, new, new.len() as int);
    assert(old.take(old.len() as int) =~= old);
    assert(new.take(new.len() as int) =~= new);
}

proof fn lemma_kept_no_destroys(old: Seq<ServiceView>, new_ids: Seq<Seq<char>>, n: int)
    requires
        0 <= n <= old.len(),
        forall|j: int| 0 <= j < old.len() ==> new_ids.contains(#[trigger] old[j].id),
    ensures
        destroys(old.take(n), new_ids) == Seq::<(OpKind, Seq<char>)>::empty(),
    decreases n,
{
    if n > 0 {
        assert(old.take(n).drop_last() =~= old.take(n - 1));
        lemma_kept_no_destroys(old, new_ids, n - 1);
        assert(new_ids.contains(old[n - 1].id));
    }
}

proof fn lemma_reordered_no_creates_or_changes(old: Seq<ServiceView>, new: Seq<ServiceView>, n: int)
    requires
        0 <= n <= new.len(),
        ids_of(old).no_duplicates(),
        entries_from(old, new),
    ensures
        creates(new.take(n), ids_of(old)) == Seq::<(OpKind, Seq<char>)>::empty(),
        changes(new.take(n), old) == Seq::<(OpKind, Seq<char>)>::empty(),
    decreases n,
{
    if n > 0 {
        assert(new.take(n).drop_last() =~= new.take(n - 1));
        lemma_reordered_no_creates_or_changes(old, new, n - 1);
        let k = n - 1;
        let j = choose|j: int| 0 <= j < old.len() && same_service(old[j], #[trigger] new[k]);
        lemma_ids_contains(old, j);
        lemma_first_with_id_of_distinct(old, j);
        assert(new.take(n).last() == new[k]);
    }
}

/// What a service `n` of the new list calls for against `old`.
spec fn change_at(old: Seq<ServiceView>, n: ServiceView) -> Option<OpKind> {
    match first_with_id(old, n.id) {
        None => None,
        Some(o) => change_of(o, n),
    }
}

proof fn lemma_changes_member(new: Seq<ServiceView>, old: Seq<ServiceView>, k: OpKind, x: Seq<char>)
    ensures
        changes(new, old).contains((k, x)) <==> exists|j: int|
            0 <= j < new.len() && new[j].id == x && #[trigger] change_at(old, new[j]) == Some(k),
    decreases new.len(),
{
    if new.len() > 0 {
        let p = new.drop_last();
        let n = new.last();
        lemma_changes_member(p, old, k, x);
        let rest = changes(p, old);
        let c = changes(new, old);
        if c.contains((k, x)) {
            let q = choose|q: int| 0 <= q < c.len() && c[q] == (k, x);
            if q < rest.len() {
                assert(rest[q] == (k, x));
                let j = choose|j: int| 0 <= j < p.len() && p[j].id == x && #[trigger] change_at(old, p[j]) == Some(k);
                assert(new[j] == p[j]);
            } else {
                assert(new[new.len() - 1] == n);
                assert(change_at(old, new[new.len() - 1]) == Some(k));
            }
        }
        if exists|j: int| 0 <= j < new.len() && new[j].id == x && #[trigger] change_at(old, new[j]) == Some(k) {
            let j = choose|j: int| 0 <= j < new.len() && new[j].id == x && #[trigger] change_at(old, new[j]) == Some(k);
            if j < new.len() - 1 {
                assert(new[j] == p[j]);
                assert(change_at(old, p[j]) == Some(k));
                assert(rest.contains((k, x)));
                let q = choose|q: int| 0 <= q < rest.len() && rest[q] == (k, x);
                assert(c[q] == rest[q]);
            } else {
                assert(c[c.len() - 1] == (k, x));
            }
        }
    }
}

proof fn lemma_destroys_kinds(old: Seq<ServiceView>, ids: Seq<Seq<char>>)
    ensures
        forall|q: int| 0 <= q < destroys(old, ids).len() ==> (#[trigger] destroys(old, ids)[q]).0 == OpKind::Destroy,
    decreases old.len(),
{
    if old.len() > 0 {
        lemma_destroys_kinds(old.drop_last(), ids);
        let rest = destroys(old.drop_last(), ids);
        assert forall|q: int| 0 <= q < destroys(old, ids).len() implies (#[trigger] destroys(old, ids)[q]).0
            == OpKind::Destroy by {
            if q < rest.len() {
                assert(destroys(old, ids)[q] == rest[q]);
            }
        }
    }
}

proof fn lemma_creates_kinds(new: Seq<ServiceView>, ids: Seq<Seq<char>>)
    ensures
        forall|q: int| 0 <= q < creates(new, ids).len() ==> (#[trigger] creates(new, ids)[q]).0 == OpKind::Create,
    decreases new.len(),
{
    if new.len() > 0 {
        lemma_creates_kinds(new.drop_last(), ids);
        let rest = creates(new.drop_last(), ids);
        assert forall|q: int| 0 <= q < creates(new, ids).len() implies (#[trigger] creates(new, ids)[q]).0
            == OpKind::Create by {
            if q < rest.len() {
                assert(creates(new, ids)[q] == rest[q]);
            }
        }
    }
}

/// A recreate or an in-place update is in the plan exactly when it is
/// among the changes of kept services.
proof fn lemma_plan_change_member(old: Seq<ServiceView>, new: Seq<ServiceView>, k: OpKind, x: Seq<char>)
    requires
        k == OpKind::Recreate || k == OpKind::UpdateInPlace,
    ensures
        plan_ops(old, new).contains((k, x)) <==> changes(new, old).contains((k, x)),
{
    let d = destroys(old, ids_of(new));
    let c = creates(new, ids_of(old));
    let ch = changes(new, old);
    let all = plan_ops(old, new);
    lemma_destroys_kinds(old, ids_of(new));
    lemma_creates_kinds(new, ids_of(old));
    assert(all == d + c + ch);
    if all.contains((k, x)) {
        let q = choose|q: int| 0 <= q < all.len() && all[q] == (k, x);
        if q < d.len() {
            assert(all[q] == d[q]);
        } else if q < d.len() + c.len() {
            assert(all[q] == c[q - d.len()]);
        } else {
            assert(all[q] == ch[q - d.len() - c.len()]);
        }
    }
    if ch.contains((k, x)) {
        let q = choose|q: int| 0 <= q < ch.len() && ch[q] == (k, x);
        assert(all[q + d.len() + c.len()] == ch[q]);
    }
}

/// What the plan does to a service kept from `old` to `new` (ids distinct
/// in each list): when its URL or its profile changed, whatever else did,
/// its webview is recreated and never merely updated in place; when both
/// were kept, it is never recreated, and it is updated in place exactly
/// when its name, icon or notification toggle changed.
pub proof fn lemma_kept_service_plan(old: Seq<ServiceView>, new: Seq<ServiceView>, i: int, j: int)
    requires
        ids_of(old).no_duplicates(),
        ids_of(new).no_duplicates(),
        0 <= i < old.len(),
        0 <= j < new.len(),
        old[i].id == new[j].id,
    ensures
        ({
            let o = old[i];
            let n = new[j];
            let ops = plan_ops(old, new);
            &&& (o.url.serialization != n.url.serialization || o.profile != n.profile) ==> ops.contains(
                (OpKind::Recreate, n.id),
            ) && !ops.contains((OpKind::UpdateInPlace, n.id))
            &&& (o.url.serialization == n.url.serialization && o.profile == n.profile) ==> !ops.contains(
                (OpKind::Recreate, n.id),
            ) && (ops.contains((OpKind::UpdateInPlace, n.id)) <==> (o.name != n.name || !same_icon(o.icon, n.icon)
                || o.notifications != n.notifications))
        }),
{
    let x = new[j].id;
    lemma_first_with_id_of_distinct(old, i);
    assert(old[i].id == ids_of(old)[i]);
    assert(change_at(old, new[j]) == change_of(old[i], new[j]));
    assert forall|k: OpKind| k == OpKind::Recreate || k == OpKind::UpdateInPlace implies (plan_ops(old, new).contains(
        (k, x),
    ) <==> change_of(old[i], new[j]) == Some(k)) by {
        lemma_plan_change_member(old, new, k, x);
        lemma_changes_member(new, old, k, x);
        if exists|j2: int| 0 <= j2 < new.len() && new[j2].id == x && #[trigger] change_at(old, new[j2]) == Some(k) {
            let j2 = choose|j2: int| 0 <= j2 < new.len() && new[j2].id == x && #[trigger] change_at(old, new[j2]) == Some(k);
            assert(ids_of(new)[j2] == ids_of(new)[j]);
        }
        if change_of(old[i], new[j]) == Some(k) {
            assert(change_at(old, new[j]) == Some(k));
        }
    }
}

} // verus!
