//! The typed edits that can be applied to `config.toml`, and the checks
//! an edit must pass against the configuration it is applied to. The
//! format-preserving rewrite of the file's text is in [`crate::config::edit`].

use vstd::prelude::*;

use crate::config::ids::{ProfileName, ServiceId};
use crate::config::model::{service_views, Config, ConfigError, IconSource, ServiceConfig};
use crate::services::reconcile::ids_of;
use crate::text::join3;
use crate::weburl::ParsedUrl;

verus! {

/// A single typed change to the configuration.
#[derive(Debug)]
pub enum ConfigEdit {
    /// Appends a new service after the last one.
    AddService(ServiceConfig),
    /// Changes the `Some` fields of an existing service.
    UpdateService(ServiceId, ServicePatch),
    /// Removes an existing service.
    RemoveService(ServiceId),
    /// Puts the services in this order, which must be a permutation of
    /// the existing ids.
    Reorder(Vec<ServiceId>),
    /// Changes the `Some` fields of the settings.
    UpdateSettings(SettingsPatch),
}

/// A partial update to a service; `None` fields are left untouched. The
/// id is not patchable: it says which service the patch is for.
#[derive(Debug)]
pub struct ServicePatch {
    pub name: Option<String>,
    pub url: Option<ParsedUrl>,
    pub profile: Option<ProfileName>,
    pub notifications: Option<bool>,
    pub icon: Option<IconSource>,
}

impl Default for ServicePatch {
    fn default() -> (p: Self)
        ensures
            p.name is None && p.url is None && p.profile is None && p.notifications is None && p.icon is None,
    {
        ServicePatch { name: None, url: None, profile: None, notifications: None, icon: None }
    }
}

/// A partial update to the settings; `None` fields are left untouched.
#[derive(Debug, Clone, Copy, PartialEq, Eq, Structural)]
pub struct SettingsPatch {
    pub reconcile_interval_seconds: Option<u32>,
    pub notifications: Option<bool>,
    pub notification_batch_threshold: Option<u32>,
    pub badge_sidebar: Option<bool>,
}

impl Default for SettingsPatch {
    fn default() -> (p: Self)
        ensures
            p == (SettingsPatch {
                reconcile_interval_seconds: None,
                notifications: None,
                notification_batch_threshold: None,
                badge_sidebar: None,
            }),
    {
        SettingsPatch {
            reconcile_interval_seconds: None,
            notifications: None,
            notification_batch_threshold: None,
            badge_sidebar: None,
        }
    }
}

/// How many times `x` occurs in `s`.
pub open spec fn occurrences(s: Seq<Seq<char>>, x: Seq<char>) -> nat
    decreases s.len(),
{
    if s.len() == 0 {
        0
    } else {
        occurrences(s.drop_last(), x) + if s.last() == x { 1nat } else { 0nat }
    }
}

/// `a` and `b` hold the same ids, each as many times.
pub open spec fn same_ids(a: Seq<Seq<char>>, b: Seq<Seq<char>>) -> bool {
    forall|x: Seq<char>| #[trigger] occurrences(a, x) == occurrences(b, x)
}

pub(crate) proof fn lemma_occurrences_zero(s: Seq<Seq<char>>, x: Seq<char>)
    requires
        !s.contains(x),
    ensures
        occurrences(s, x) == 0,
    decreases s.len(),
{
    if s.len() > 0 {
        assert(!s.drop_last().contains(x)) by {
            if s.drop_last().contains(x) {
                let j = choose|j: int| 0 <= j < s.drop_last().len() && s.drop_last()[j] == x;
                assert(s[j] == x);
            }
        }
        lemma_occurrences_zero(s.drop_last(), x);
    }
}

fn count_in(s: &Vec<String>, x: &String) -> (n: usize)
    ensures
        n == occurrences(s@.map_values(|t: String| t@), x@),
{
    let ghost v = s@.map_values(|t: String| t@);
    let mut n: usize = 0;
    let mut i: usize = 0;
    while i < s.len()
        invariant
            v == s@.map_values(|t: String| t@),
            i <= s@.len(),
            n == occurrences(v.take(i as int), x@),
            n <= i,
        decreases s@.len() - i,
    {
        assert(v.take(i + 1).drop_last() =~= v.take(i as int));
        assert(v.take(i + 1).last() == s@[i as int]@);
        if s[i] == *x {
            n = n + 1;
        }
        i = i + 1;
    }
    assert(v.take(s@.len() as int) =~= v);
    n
}

fn all_counts_match(a: &Vec<String>, b: &Vec<String>) -> (r: bool)
    ensures
        r <==> forall|i: int|
            0 <= i < a@.len() ==> occurrences(a@.map_values(|t: String| t@), #[trigger] a@[i]@) == occurrences(
                b@.map_values(|t: String| t@),
                a@[i]@,
            ),
{
    let mut i: usize = 0;
    while i < a.len()
        invariant
            i <= a@.len(),
            forall|j: int|
                0 <= j < i ==> occurrences(a@.map_values(|t: String| t@), #[trigger] a@[j]@) == occurrences(
                    b@.map_values(|t: String| t@),
                    a@[j]@,
                ),
        decreases a@.len() - i,
    {
        if count_in(a, &a[i]) != count_in(b, &a[i]) {
            return false;
        }
        i = i + 1;
    }
    true
}

fn texts_of_services(services: &Vec<ServiceConfig>) -> (v: Vec<String>)
    ensures
        v@.map_values(|t: String| t@) == ids_of(service_views(services@)),
{
    let mut v: Vec<String> = Vec::new();
    let mut i: usize = 0;
    while i < services.len()
        invariant
            i <= services@.len(),
            v@.map_values(|t: String| t@) == ids_of(service_views(services@)).take(i as int),
        decreases services@.len() - i,
    {
        let ghost before = v@.map_values(|t: String| t@);
        let ghost all = ids_of(service_views(services@));
        v.push(String::from_str(services[i].id.as_str()));
        assert(all[i as int] == services@[i as int].id@);
        assert(v@.map_values(|t: String| t@) =~= before.push(all[i as int]));
        assert(all.take(i + 1) =~= all.take(i as int).push(all[i as int]));
        i = i + 1;
    }
    assert(ids_of(service_views(services@)).take(services@.len() as int) =~= ids_of(service_views(services@)));
    v
}

fn texts_of_ids(ids: &Vec<ServiceId>) -> (v: Vec<String>)
    ensures
        v@.map_values(|t: String| t@) == ids@.map_values(|id: ServiceId| id@),
{
    let mut v: Vec<String> = Vec::new();
    let mut i: usize = 0;
    while i < ids.len()
        invariant
            i <= ids@.len(),
            v@.map_values(|t: String| t@) == ids@.map_values(|id: ServiceId| id@).take(i as int),
        decreases ids@.len() - i,
    {
        let ghost before = v@.map_values(|t: String| t@);
        let ghost all = ids@.map_values(|id: ServiceId| id@);
        v.push(String::from_str(ids[i].as_str()));
        assert(all[i as int] == ids@[i as int]@);
        assert(v@.map_values(|t: String| t@) =~= before.push(all[i as int]));
        assert(all.take(i + 1) =~= all.take(i as int).push(all[i as int]));
        i = i + 1;
    }
    assert(ids@.map_values(|id: ServiceId| id@).take(ids@.len() as int) =~= ids@.map_values(|id: ServiceId| id@));
    v
}

/// Whether `order` is a permutation of the ids of `services`: the same
/// ids, each as many times.
pub fn is_permutation(services: &Vec<ServiceConfig>, order: &Vec<ServiceId>) -> (r: bool)
    ensures
        r == same_ids(ids_of(service_views(services@)), order@.map_values(|id: ServiceId| id@)),
{
    let a = texts_of_services(services);
    let b = texts_of_ids(order);
    let ghost av = a@.map_values(|t: String| t@);
    let ghost bv = b@.map_values(|t: String| t@);
    let forward = all_counts_match(&a, &b);
    let backward = all_counts_match(&b, &a);
    proof {
        if forward && backward {
            assert forall|x: Seq<char>| #[trigger] occurrences(av, x) == occurrences(bv, x) by {
                if av.contains(x) {
                    let j = choose|j: int| 0 <= j < av.len() && av[j] == x;
                    assert(a@[j]@ == x);
                } else if bv.contains(x) {
                    let j = choose|j: int| 0 <= j < bv.len() && bv[j] == x;
                    assert(b@[j]@ == x);
                } else {
                    lemma_occurrences_zero(av, x);
                    lemma_occurrences_zero(bv, x);
                }
            }
        }
        if !forward {
            let j = choose|j: int| 0 <= j < a@.len() && occurrences(av, #[trigger] a@[j]@) != occurrences(bv, a@[j]@);
            assert(occurrences(av, a@[j]@) != occurrences(bv, a@[j]@));
        }
        if !backward {
            let j = choose|j: int| 0 <= j < b@.len() && occurrences(bv, #[trigger] b@[j]@) != occurrences(av, b@[j]@);
            assert(occurrences(av, b@[j]@) != occurrences(bv, b@[j]@));
        }
    }
    forward && backward
}

/// `"no service with id `{id}`"`.
pub open spec fn unknown_id_reason(id: Seq<char>) -> Seq<char> {
    "no service with id `"@ + id + "`"@
}

/// Why `edit` cannot be applied to `services`, if it cannot: an update or
/// removal naming an id no service has, or a reorder that is not a
/// permutation of the existing ids. (Anything else wrong with the edited
/// configuration, such as a duplicate id, is caught by validating it.)
pub open spec fn edit_refusal(services: Seq<Seq<char>>, edit: EditView) -> Option<Seq<char>> {
    match edit {
        EditView::Update(id) => if services.contains(id) { None } else { Some(unknown_id_reason(id)) },
        EditView::Remove(id) => if services.contains(id) { None } else { Some(unknown_id_reason(id)) },
        EditView::Reorder(order) => if same_ids(services, order) {
            None
        } else {
            Some("must be a permutation of the existing service ids"@)
        },
        EditView::Other => None,
    }
}

/// The part of an edit [`edit_refusal`] looks at.
pub enum EditView {
    Update(Seq<char>),
    Remove(Seq<char>),
    Reorder(Seq<Seq<char>>),
    Other,
}

/// The part of `edit` its checks look at.
pub open spec fn edit_view(edit: ConfigEdit) -> EditView {
    match edit {
        ConfigEdit::UpdateService(id, _) => EditView::Update(id@),
        ConfigEdit::RemoveService(id) => EditView::Remove(id@),
        ConfigEdit::Reorder(order) => EditView::Reorder(order@.map_values(|id: ServiceId| id@)),
        _ => EditView::Other,
    }
}

fn has_service(services: &Vec<ServiceConfig>, id: &ServiceId) -> (b: bool)
    ensures
        b == ids_of(service_views(services@)).contains(id@),
{
    let ghost ids = ids_of(service_views(services@));
    let mut i: usize = 0;
    while i < services.len()
        invariant
            ids == ids_of(service_views(services@)),
            i <= services@.len(),
            forall|j: int| 0 <= j < i ==> ids[j] != id@,
        decreases services@.len() - i,
    {
        if services[i].id == *id {
            assert(ids[i as int] == id@);
            return true;
        }
        i = i + 1;
    }
    assert(!ids.contains(id@)) by {
        if ids.contains(id@) {
            let j = choose|j: int| 0 <= j < ids.len() && ids[j] == id@;
            assert(ids[j] != id@);
        }
    }
    false
}

/// Checks `edit` against `before`, the configuration at `file` it is
/// applied to; a refusal is reported against the `services` key.
pub fn check_edit(file: &str, before: &Config, edit: &ConfigEdit) -> (r: Result<(), ConfigError>)
    ensures
        match edit_refusal(ids_of(service_views(before.services@)), edit_view(*edit)) {
            None => r is Ok,
            Some(reason) => r matches Err(e) && (e.file@ == file@ && e.reason@ == reason && (e.key matches Some(
                k) && k@ == "services"@)),
        },
{
    let refusal: Option<String> = match edit {
        ConfigEdit::UpdateService(id, _) => if has_service(&before.services, id) {
            None
        } else {
            Some(join3("no service with id `", id.as_str(), "`"))
        },
        ConfigEdit::RemoveService(id) => if has_service(&before.services, id) {
            None
        } else {
            Some(join3("no service with id `", id.as_str(), "`"))
        },
        ConfigEdit::Reorder(order) => if is_permutation(&before.services, order) {
            None
        } else {
            Some(String::from_str("must be a permutation of the existing service ids"))
        },
        _ => None,
    };
    match refusal {
        None => Ok(()),
        Some(reason) => Err(
            ConfigError { file: String::from_str(file), key: Some(String::from_str("services")), reason },
        ),
    }
}

} // verus!
