//! Applying a [`ConfigEdit`] to the text of `config.toml` while keeping
//! the user's comments and formatting: the edit is made on a `toml_edit`
//! document, table by table, and the edited text is accepted only if it
//! validates to exactly the configuration the edit calls for.

use vstd::prelude::*;

use crate::config::ids::ServiceId;
use crate::config::model::{
    opt_view, same_services, service_views, services_equal, Config, ConfigError, IconSource, ServiceConfig,
    ServiceView, Settings,
};
use crate::config::store::{
    check_edit, edit_refusal, edit_view, lemma_occurrences_zero, occurrences, same_ids, unknown_id_reason, ConfigEdit,
    ServicePatch, SettingsPatch,
};
use crate::config::toml_value::toml_table;
use crate::config::validate::{config_of, is_error, parse};
use crate::services::reconcile::{first_with_id, ids_of};
use crate::text::join3;

verus! {

#[verifier::external_type_specification]
#[verifier::external_body]
pub struct ExTomlDocument(toml_edit::DocumentMut);

#[verifier::external_type_specification]
#[verifier::external_body]
pub struct ExTomlTable(toml_edit::Table);

#[verifier::external_type_specification]
#[verifier::external_body]
pub struct ExTomlEditValue(toml_edit::Value);

#[verifier::external_type_specification]
#[verifier::external_body]
pub struct ExTomlInlineTable(toml_edit::InlineTable);

/// The `id` strings of the `[[services]]` tables of `doc`, in order (an
/// entry is `None` where that table has no string `id`), when `services`
/// is an array of tables; `None` when it is missing or anything else,
/// the inline array `services = []` included.
pub uninterp spec fn doc_service_ids(doc: toml_edit::DocumentMut) -> Option<Seq<Option<Seq<char>>>>;

/// The string under the key `id` of `table`, if that key holds a string.
pub uninterp spec fn table_service_id(table: toml_edit::Table) -> Option<Seq<char>>;

/// The form of a document's `services` key.
pub enum ServicesForm {
    /// An array of this many tables (`[[services]]`).
    Tables(usize),
    /// An inline array of this many values (`services = [...]`).
    InlineArray(usize),
    /// Missing, or anything else.
    Other,
}

/// The text of the error `text.parse::<toml_edit::DocumentMut>()` fails
/// with, or `None` when it parses.
pub uninterp spec fn toml_edit_error(text: Seq<char>) -> Option<Seq<char>>;

/// The text `doc` prints as (`Display for DocumentMut`).
pub uninterp spec fn doc_printed(doc: toml_edit::DocumentMut) -> Seq<char>;

/// `text.parse::<toml_edit::DocumentMut>()`, the parse error carried as
/// its text (named by [`toml_edit_error`]). Nothing is claimed of the
/// document.
#[verifier::external_body]
fn doc_parse(text: &str) -> (r: Result<toml_edit::DocumentMut, String>)
    ensures
        match toml_edit_error(text@) {
            Some(m) => r matches Err(e) && e@ == m,
            None => r is Ok,
        },
{
    match text.parse::<toml_edit::DocumentMut>() {
        Ok(doc) => Ok(doc),
        Err(err) => Err(err.to_string()),
    }
}

/// `doc.to_string()`: the document printed back as TOML text, named by
/// [`doc_printed`].
#[verifier::external_body]
fn doc_text(doc: &toml_edit::DocumentMut) -> (r: String)
    ensures
        r@ == doc_printed(*doc),
{
    doc.to_string()
}

/// Tells the variants of `doc.get("services")` apart: an array of tables
/// and an inline array, each with its `len()`, or anything else. Claimed:
/// an array of tables has as many tables as [`doc_service_ids`] has ids,
/// and for anything else that name is `None`.
#[verifier::external_body]
fn services_form(doc: &toml_edit::DocumentMut) -> (r: ServicesForm)
    ensures
        match r {
            ServicesForm::Tables(n) => doc_service_ids(*doc) matches Some(s) && s.len() == n,
            ServicesForm::InlineArray(_) => doc_service_ids(*doc) is None,
            ServicesForm::Other => doc_service_ids(*doc) is None,
        },
{
    match doc.get("services") {
        Some(toml_edit::Item::ArrayOfTables(a)) => ServicesForm::Tables(a.len()),
        Some(toml_edit::Item::Value(toml_edit::Value::Array(a))) => ServicesForm::InlineArray(a.len()),
        _ => ServicesForm::Other,
    }
}

/// `table.get("id")` read as a string (`Item::as_str`), copied out;
/// claimed to be [`table_service_id`].
#[verifier::external_body]
fn table_id(table: &toml_edit::Table) -> (r: Option<String>)
    ensures
        opt_view(r) == table_service_id(*table),
{
    let item = table.get("id")?;
    let id = item.as_str()?;
    Some(id.to_string())
}

/// The `id` of the `i`-th `[[services]]` table of `doc`: `ArrayOfTables::get`
/// then `Item::as_str` on its `id`, copied out; claimed to be the `i`-th
/// entry of [`doc_service_ids`].
#[verifier::external_body]
fn service_id_at(doc: &toml_edit::DocumentMut, i: usize) -> (r: Option<String>)
    requires
        doc_service_ids(*doc) matches Some(s) && i < s.len(),
    ensures
        opt_view(r) == doc_service_ids(*doc).unwrap()[i as int],
{
    let Some(toml_edit::Item::ArrayOfTables(a)) = doc.get("services") else {
        return None;
    };
    let item = a.get(i)?.get("id")?;
    let id = item.as_str()?;
    Some(id.to_string())
}

/// `ArrayOfTables::remove(i)` on `doc`'s `[[services]]`: takes the
/// `i`-th table out, the later ones moving up by one. Claimed: the ids
/// lose their `i`-th entry, which is the id of the table returned.
#[verifier::external_body]
fn take_service_table(doc: &mut toml_edit::DocumentMut, i: usize) -> (t: toml_edit::Table)
    requires
        doc_service_ids(*old(doc)) matches Some(s) && i < s.len(),
    ensures
        table_service_id(t) == doc_service_ids(*old(doc)).unwrap()[i as int],
        doc_service_ids(*final(doc)) == Some(doc_service_ids(*old(doc)).unwrap().remove(i as int)),
{
    match doc.get_mut("services") {
        Some(toml_edit::Item::ArrayOfTables(a)) => a.remove(i),
        _ => toml_edit::Table::new(),
    }
}

/// `ArrayOfTables::push` on `doc`'s `[[services]]`: appends `table`, so
/// the ids gain its id at the end.
#[verifier::external_body]
fn push_service_table(doc: &mut toml_edit::DocumentMut, table: toml_edit::Table)
    requires
        doc_service_ids(*old(doc)) is Some,
    ensures
        doc_service_ids(*final(doc)) == Some(doc_service_ids(*old(doc)).unwrap().push(table_service_id(table))),
{
    if let Some(toml_edit::Item::ArrayOfTables(a)) = doc.get_mut("services") {
        a.push(table);
    }
}

/// `Table::set_position(None)`: forgets where the table stood in the
/// parsed file, so that it is printed at its place in its array. Its id
/// is claimed unchanged.
#[verifier::external_body]
fn unpin_table(table: &mut toml_edit::Table)
    ensures
        table_service_id(*final(table)) == table_service_id(*old(table)),
{
    table.set_position(None);
}

/// `doc.insert("services", ...)` with a new, empty `ArrayOfTables`: the
/// ids are then the empty sequence.
#[verifier::external_body]
fn start_service_tables(doc: &mut toml_edit::DocumentMut)
    ensures
        doc_service_ids(*final(doc)) == Some(Seq::<Option<Seq<char>>>::empty()),
{
    doc.insert("services", toml_edit::Item::ArrayOfTables(toml_edit::ArrayOfTables::new()));
}

/// `doc.insert("services", ...)` with a new, empty inline `Array`: the
/// document then reads `services = []`, which is no array of tables.
#[verifier::external_body]
fn write_empty_services(doc: &mut toml_edit::DocumentMut)
    ensures
        doc_service_ids(*final(doc)) is None,
{
    doc.insert("services", toml_edit::Item::Value(toml_edit::Value::Array(toml_edit::Array::new())));
}

/// `Value::from` a string.
#[verifier::external_body]
fn string_value(s: &str) -> (r: toml_edit::Value) {
    toml_edit::Value::from(s)
}

/// `Value::from` an `i64`.
#[verifier::external_body]
fn integer_value(n: i64) -> (r: toml_edit::Value) {
    toml_edit::Value::from(n)
}

/// `Value::from` a `bool`.
#[verifier::external_body]
fn bool_value(b: bool) -> (r: toml_edit::Value) {
    toml_edit::Value::from(b)
}

/// `InlineTable::new()`: an empty inline table.
#[verifier::external_body]
fn new_inline_table() -> (t: toml_edit::InlineTable) {
    toml_edit::InlineTable::new()
}

/// `InlineTable::insert(key, value)`.
#[verifier::external_body]
fn inline_table_insert(table: &mut toml_edit::InlineTable, key: &str, value: toml_edit::Value) {
    table.insert(key, value);
}

/// `Value::from(table)`: the inline table as a value.
#[verifier::external_body]
fn inline_table_value(table: toml_edit::InlineTable) -> (r: toml_edit::Value) {
    toml_edit::Value::from(table)
}

/// `Table::new()`: an empty table, so one with no `id`.
#[verifier::external_body]
fn new_table() -> (t: toml_edit::Table)
    ensures
        table_service_id(t) is None,
{
    toml_edit::Table::new()
}

/// `Table::insert(key, toml_edit::value(s))`: puts the string `s` under
/// `key`. Claimed: the table's id becomes `s` when `key` is `id`, and is
/// unchanged otherwise.
#[verifier::external_body]
fn table_insert_str(table: &mut toml_edit::Table, key: &str, s: &str)
    ensures
        table_service_id(*final(table)) == if key@ == "id"@ {
            Some(s@)
        } else {
            table_service_id(*old(table))
        },
{
    table.insert(key, toml_edit::value(s));
}

/// `Table::insert(key, Item::Value(value))`, for a key other than `id`;
/// the table's id is claimed unchanged.
#[verifier::external_body]
fn table_insert_value(table: &mut toml_edit::Table, key: &str, value: toml_edit::Value)
    requires
        key@ != "id"@,
    ensures
        table_service_id(*final(table)) == table_service_id(*old(table)),
{
    table.insert(key, toml_edit::Item::Value(value));
}

/// `to` with `from`'s decor (`Value::decor`, `Value::decor_mut`): the
/// spacing and same-line comment around a value.
#[verifier::external_body]
fn with_decor_of(from: &toml_edit::Value, to: toml_edit::Value) -> (r: toml_edit::Value) {
    let mut to = to;
    *to.decor_mut() = from.decor().clone();
    to
}

/// The value under `key` in the `i`-th `[[services]]` table of `doc`
/// (`ArrayOfTables::get`, `Table::get`, `Item::as_value`), cloned; `None`
/// when the key is missing or holds no value.
#[verifier::external_body]
fn service_field(doc: &toml_edit::DocumentMut, i: usize, key: &str) -> (r: Option<toml_edit::Value>)
    requires
        doc_service_ids(*doc) matches Some(s) && i < s.len(),
{
    let Some(toml_edit::Item::ArrayOfTables(a)) = doc.get("services") else {
        return None;
    };
    let item = a.get(i)?.get(key)?;
    item.as_value().cloned()
}

/// Puts `value` in place of the item under `key` in the `i`-th
/// `[[services]]` table of `doc` (`ArrayOfTables::get_mut`,
/// `Table::get_mut`); `false` when the key is missing. Claimed: no
/// table's id changes (`key` is not `id`).
#[verifier::external_body]
fn replace_service_field(doc: &mut toml_edit::DocumentMut, i: usize, key: &str, value: toml_edit::Value) -> (r: bool)
    requires
        doc_service_ids(*old(doc)) matches Some(s) && i < s.len(),
        key@ != "id"@,
    ensures
        doc_service_ids(*final(doc)) == doc_service_ids(*old(doc)),
{
    let Some(toml_edit::Item::ArrayOfTables(a)) = doc.get_mut("services") else {
        return false;
    };
    let Some(table) = a.get_mut(i) else {
        return false;
    };
    let Some(item) = table.get_mut(key) else {
        return false;
    };
    *item = toml_edit::Item::Value(value);
    true
}

/// Whether `doc.get(key)` is a table (`Item::Table`).
#[verifier::external_body]
fn is_table_at(doc: &toml_edit::DocumentMut, key: &str) -> (r: bool) {
    match doc.get(key) {
        Some(toml_edit::Item::Table(_)) => true,
        _ => false,
    }
}

/// The item under `key` in the table under `table_key` of `doc`
/// (`Table::get`): `None` when there is none, else its value
/// (`Item::as_value`, cloned) if it holds one.
#[verifier::external_body]
fn table_field(doc: &toml_edit::DocumentMut, table_key: &str, key: &str) -> (r: Option<Option<toml_edit::Value>>) {
    let Some(toml_edit::Item::Table(t)) = doc.get(table_key) else {
        return None;
    };
    let item = t.get(key)?;
    Some(item.as_value().cloned())
}

/// Puts `value` in place of the item under `key` in the table under
/// `table_key` of `doc` (`Table::get_mut`); `false` when there is none.
/// Claimed: the `[[services]]` ids do not change (`table_key` is not
/// `services`).
#[verifier::external_body]
fn replace_table_field(doc: &mut toml_edit::DocumentMut, table_key: &str, key: &str, value: toml_edit::Value) -> (r: bool)
    requires
        table_key@ != "services"@,
    ensures
        doc_service_ids(*final(doc)) == doc_service_ids(*old(doc)),
{
    let Some(toml_edit::Item::Table(t)) = doc.get_mut(table_key) else {
        return false;
    };
    let Some(item) = t.get_mut(key) else {
        return false;
    };
    *item = toml_edit::Item::Value(value);
    true
}

} // verus!

verus! {

/// `v` with the `Some` fields of `p` put in.
pub open spec fn patched(v: ServiceView, p: ServicePatch) -> ServiceView {
    ServiceView {
        id: v.id,
        name: match p.name {
            Some(n) => n@,
            None => v.name,
        },
        url: match p.url {
            Some(u) => u@,
            None => v.url,
        },
        profile: match p.profile {
            Some(x) => x@,
            None => v.profile,
        },
        notifications: match p.notifications {
            Some(b) => b,
            None => v.notifications,
        },
        icon: match p.icon {
            Some(i) => i@,
            None => v.icon,
        },
    }
}

/// `st` with the `Some` fields of `p` put in.
pub open spec fn patched_settings(st: Settings, p: SettingsPatch) -> Settings {
    Settings {
        reconcile_interval_seconds: match p.reconcile_interval_seconds {
            Some(x) => x,
            None => st.reconcile_interval_seconds,
        },
        notifications: match p.notifications {
            Some(x) => x,
            None => st.notifications,
        },
        notification_batch_threshold: match p.notification_batch_threshold {
            Some(x) => x,
            None => st.notification_batch_threshold,
        },
        badge_sidebar: match p.badge_sidebar {
            Some(x) => x,
            None => st.badge_sidebar,
        },
    }
}

/// The services of `s` whose id is not `id`, in order.
pub open spec fn without_id(s: Seq<ServiceView>, id: Seq<char>) -> Seq<ServiceView>
    decreases s.len(),
{
    if s.len() == 0 {
        s
    } else {
        let rest = without_id(s.drop_last(), id);
        if s.last().id == id {
            rest
        } else {
            rest.push(s.last())
        }
    }
}

/// The service list that `edit` makes of `s`.
pub open spec fn edited_services(s: Seq<ServiceView>, edit: ConfigEdit) -> Seq<ServiceView> {
    match edit {
        ConfigEdit::AddService(n) => s.push(n@),
        ConfigEdit::UpdateService(id, p) => s.map_values(
            |v: ServiceView|
                if v.id == id@ {
                    patched(v, p)
                } else {
                    v
                },
        ),
        ConfigEdit::RemoveService(id) => without_id(s, id@),
        ConfigEdit::Reorder(order) => order@.map_values(|x: ServiceId| first_with_id(s, x@).unwrap()),
        ConfigEdit::UpdateSettings(_) => s,
    }
}

/// The settings that `edit` makes of `st`.
pub open spec fn edited_settings(st: Settings, edit: ConfigEdit) -> Settings {
    match edit {
        ConfigEdit::UpdateSettings(p) => patched_settings(st, p),
        _ => st,
    }
}

fn patch_service(s: &ServiceConfig, p: &ServicePatch) -> (r: ServiceConfig)
    ensures
        r@ == patched(s@, *p),
{
    ServiceConfig {
        id: s.id.clone(),
        name: match &p.name {
            Some(n) => n.clone(),
            None => s.name.clone(),
        },
        url: match &p.url {
            Some(u) => u.clone(),
            None => s.url.clone(),
        },
        profile: match &p.profile {
            Some(x) => x.clone(),
            None => s.profile.clone(),
        },
        notifications: match p.notifications {
            Some(b) => b,
            None => s.notifications,
        },
        icon: match &p.icon {
            Some(i) => i.clone(),
            None => s.icon.clone(),
        },
    }
}

fn patch_settings(st: Settings, p: SettingsPatch) -> (r: Settings)
    ensures
        r == patched_settings(st, p),
{
    Settings {
        reconcile_interval_seconds: match p.reconcile_interval_seconds {
            Some(x) => x,
            None => st.reconcile_interval_seconds,
        },
        notifications: match p.notifications {
            Some(x) => x,
            None => st.notifications,
        },
        notification_batch_threshold: match p.notification_batch_threshold {
            Some(x) => x,
            None => st.notification_batch_threshold,
        },
        badge_sidebar: match p.badge_sidebar {
            Some(x) => x,
            None => st.badge_sidebar,
        },
    }
}

/// A reorder naming an id no service of `s` has.
pub open spec fn reorder_names_unknown(s: Seq<ServiceView>, edit: ConfigEdit) -> bool {
    edit matches ConfigEdit::Reorder(order) && exists|k: int|
        0 <= k < order@.len() && first_with_id(s, (#[trigger] order@[k])@) is None
}

/// The service list `edit` calls for, computed from `services`; `None`
/// exactly for a reorder naming an id no service has.
/// The services of `services` with the ids of `order`, in that order;
/// `None` when `order` names an id no service has.
fn reordered_list(services: &Vec<ServiceConfig>, order: &Vec<ServiceId>) -> (r: Option<Vec<ServiceConfig>>)
    ensures
        r matches Some(v) ==> service_views(v@) == order@.map_values(
            |x: ServiceId| first_with_id(service_views(services@), x@).unwrap(),
        ),
        r is None <==> exists|k: int|
            0 <= k < order@.len() && first_with_id(service_views(services@), (#[trigger] order@[k])@) is None,
{
    let ghost sv = service_views(services@);
    let mut out: Vec<ServiceConfig> = Vec::new();
    let ghost want = order@.map_values(|x: ServiceId| first_with_id(sv, x@).unwrap());
    let mut k: usize = 0;
    while k < order.len()
        invariant
            sv == service_views(services@),
            want == order@.map_values(|x: ServiceId| first_with_id(sv, x@).unwrap()),
            k <= order@.len(),
            service_views(out@) == want.take(k as int),
            forall|j: int| 0 <= j < k ==> first_with_id(sv, (#[trigger] order@[j])@) is Some,
        decreases order@.len() - k,
    {
        match crate::services::reconcile::find_service(services, &order[k]) {
            Some(s) => {
                assert(first_with_id(sv, order@[k as int]@) is Some);
                assert(want[k as int] == first_with_id(sv, order@[k as int]@).unwrap());
                assert(s@ == want[k as int]);
                let ghost before = service_views(out@);
                let c = s.clone();
                out.push(c);
                assert(service_views(out@) =~= before.push(c@));
                assert(want.take(k + 1) =~= want.take(k as int).push(want[k as int]));
            },
            None => {
                assert(first_with_id(sv, order@[k as int]@) is None);
                return None;
            },
        }
        k = k + 1;
    }
    assert(want.take(order@.len() as int) =~= want);
    Some(out)
}

fn edited_service_list(services: &Vec<ServiceConfig>, edit: &ConfigEdit) -> (r: Option<Vec<ServiceConfig>>)
    ensures
        r matches Some(v) ==> service_views(v@) == edited_services(service_views(services@), *edit),
        r is None <==> reorder_names_unknown(service_views(services@), *edit),
{
    let ghost sv = service_views(services@);
    let mut out: Vec<ServiceConfig> = Vec::new();
    match edit {
        ConfigEdit::Reorder(order) => {
            return reordered_list(services, order);
        },
        _ => {
            let ghost want = edited_services(sv, *edit);
            let mut i: usize = 0;
            while i < services.len()
                invariant
                    sv == service_views(services@),
                    i <= services@.len(),
                    match *edit {
                        ConfigEdit::UpdateService(id, p) => service_views(out@) == want.take(i as int),
                        ConfigEdit::RemoveService(id) => service_views(out@) == without_id(sv.take(i as int), id@),
                        _ => service_views(out@) == sv.take(i as int),
                    },
                    want == edited_services(sv, *edit),
                decreases services@.len() - i,
            {
                assert(sv.take(i + 1).drop_last() =~= sv.take(i as int));
                match edit {
                    ConfigEdit::UpdateService(id, p) => {
                        if services[i].id == *id {
                            out.push(patch_service(&services[i], p));
                        } else {
                            out.push(services[i].clone());
                        }
                        assert(service_views(out@) =~= want.take(i + 1));
                    },
                    ConfigEdit::RemoveService(id) => {
                        if !(services[i].id == *id) {
                            out.push(services[i].clone());
                        }
                        assert(service_views(out@) =~= without_id(sv.take(i + 1), id@));
                    },
                    _ => {
                        out.push(services[i].clone());
                        assert(service_views(out@) =~= sv.take(i + 1));
                    },
                }
                i = i + 1;
            }
            assert(sv.take(services@.len() as int) =~= sv);
            if let ConfigEdit::AddService(n) = edit {
                out.push(n.clone());
                assert(service_views(out@) =~= want);
            }
        },
    }
    Some(out)
}

} // verus!

verus! {

/// An edit the document's own tables refuse, reported against `file`:
/// `services` not an array of tables, no table with the id named, no
/// `[settings]` table, or a key missing from the table edited.
pub open spec fn document_refusal(e: ConfigError, file: Seq<char>) -> bool {
    &&& e.file@ == file
    &&& e.key matches Some(k) && {
        ||| k@ == "services"@ && e.reason@ == "expected an array of tables"@
        ||| k@ == "services"@ && exists|id: Seq<char>| e.reason@ == #[trigger] unknown_id_reason(id)
        ||| k@ == "settings"@ && e.reason@ == "expected a table"@
        ||| e.reason@ == "missing required key"@
    }
}

fn not_tables(file: &str) -> (e: ConfigError)
    ensures
        document_refusal(e, file@),
{
    ConfigError {
        file: String::from_str(file),
        key: Some(String::from_str("services")),
        reason: String::from_str("expected an array of tables"),
    }
}

fn unknown_id(file: &str, id: &ServiceId) -> (e: ConfigError)
    ensures
        document_refusal(e, file@),
{
    let e = ConfigError {
        file: String::from_str(file),
        key: Some(String::from_str("services")),
        reason: join3("no service with id `", id.as_str(), "`"),
    };
    assert(e.reason@ == unknown_id_reason(id@));
    e
}

fn missing_key(file: &str, key: &str) -> (e: ConfigError)
    ensures
        document_refusal(e, file@),
{
    ConfigError {
        file: String::from_str(file),
        key: Some(String::from_str(key)),
        reason: String::from_str("missing required key"),
    }
}

/// The index of the first `[[services]]` table of `doc` whose id is `id`.
fn find_service_table(doc: &toml_edit::DocumentMut, n: usize, id: &ServiceId) -> (r: Option<usize>)
    requires
        doc_service_ids(*doc) matches Some(s) && s.len() == n,
    ensures
        match r {
            Some(i) => i < n && doc_service_ids(*doc).unwrap()[i as int] == Some(id@) && forall|j: int|
                0 <= j < i ==> doc_service_ids(*doc).unwrap()[j] != Some(id@),
            None => forall|j: int| 0 <= j < n ==> doc_service_ids(*doc).unwrap()[j] != Some(id@),
        },
{
    let ghost s = doc_service_ids(*doc).unwrap();
    let target = String::from_str(id.as_str());
    let mut i: usize = 0;
    while i < n
        invariant
            doc_service_ids(*doc) == Some(s),
            s.len() == n,
            target@ == id@,
            i <= n,
            forall|j: int| 0 <= j < i ==> s[j] != Some(id@),
        decreases n - i,
    {
        match service_id_at(doc, i) {
            Some(t) => {
                if t == target {
                    return Some(i);
                }
            },
            None => {},
        }
        i = i + 1;
    }
    None
}

/// The index of the first table of `tables` whose id is `id`.
fn find_table(tables: &Vec<toml_edit::Table>, id: &ServiceId) -> (r: Option<usize>)
    ensures
        r matches Some(j) ==> j < tables@.len() && table_service_id(tables@[j as int]) == Some(id@),
{
    let target = String::from_str(id.as_str());
    let mut j: usize = 0;
    while j < tables.len()
        invariant
            target@ == id@,
            j <= tables@.len(),
        decreases tables@.len() - j,
    {
        match table_id(&tables[j]) {
            Some(t) => {
                if t == target {
                    return Some(j);
                }
            },
            None => {},
        }
        j = j + 1;
    }
    None
}

/// The inline table an icon is written as: `source`, then `value` when
/// the source has one.
fn icon_value_of(icon: &IconSource) -> toml_edit::Value {
    let mut table = new_inline_table();
    match icon {
        IconSource::Favicon => {
            inline_table_insert(&mut table, "source", string_value("favicon"));
        },
        IconSource::File(path) => {
            inline_table_insert(&mut table, "source", string_value("file"));
            inline_table_insert(&mut table, "value", string_value(path.as_str()));
        },
        IconSource::Url(url) => {
            inline_table_insert(&mut table, "source", string_value("url"));
            inline_table_insert(&mut table, "value", string_value(url.serialization.as_str()));
        },
    }
    inline_table_value(table)
}

/// A new `[[services]]` table for `service`, its keys in this order: `id`,
/// `name`, `url`, `profile`, `notifications`, `icon`.
fn service_table(service: &ServiceConfig) -> (t: toml_edit::Table)
    ensures
        table_service_id(t) == Some(service.id@),
{
    proof {
        reveal_strlit("id");
        reveal_strlit("name");
        reveal_strlit("url");
        reveal_strlit("profile");
        reveal_strlit("notifications");
        reveal_strlit("icon");
        assert("id"@.len() == 2);
        assert("name"@.len() != 2 && "url"@.len() != 2 && "profile"@.len() != 2);
        assert("notifications"@.len() != 2 && "icon"@.len() != 2);
    }
    let mut t = new_table();
    table_insert_str(&mut t, "id", service.id.as_str());
    table_insert_str(&mut t, "name", service.name.as_str());
    table_insert_str(&mut t, "url", service.url.serialization.as_str());
    table_insert_str(&mut t, "profile", service.profile.as_str());
    table_insert_value(&mut t, "notifications", bool_value(service.notifications));
    table_insert_value(&mut t, "icon", icon_value_of(&service.icon));
    t
}

/// Replaces the value under `key` in the `i`-th `[[services]]` table,
/// the new value keeping the old one's spacing and same-line comment.
fn set_service_value(
    doc: &mut toml_edit::DocumentMut,
    i: usize,
    key: &str,
    value: toml_edit::Value,
    file: &str,
) -> (r: Result<(), ConfigError>)
    requires
        doc_service_ids(*old(doc)) matches Some(s) && i < s.len(),
        key@ != "id"@,
    ensures
        r matches Err(e) ==> document_refusal(e, file@),
        doc_service_ids(*final(doc)) == doc_service_ids(*old(doc)),
{
    let value = match service_field(doc, i, key) {
        Some(old_value) => with_decor_of(&old_value, value),
        None => value,
    };
    if replace_service_field(doc, i, key, value) {
        Ok(())
    } else {
        Err(missing_key(file, key))
    }
}

/// How the ids of a document's `[[services]]` tables go from `before` to
/// `after` when `edit` is made on it.
spec fn tables_after_edit(
    before: Option<Seq<Option<Seq<char>>>>,
    after: Option<Seq<Option<Seq<char>>>>,
    edit: ConfigEdit,
) -> bool {
    match edit {
        ConfigEdit::AddService(n) => after == Some(
            match before {
                Some(b) => b,
                None => Seq::empty(),
            }.push(Some(n.id@)),
        ),
        ConfigEdit::RemoveService(id) => before matches Some(b) && exists|i: int|
            0 <= i < b.len() && #[trigger] b[i] == Some(id@) && (forall|j: int| 0 <= j < i ==> b[j] != Some(id@))
                && after == (if b.len() == 1 {
                None
            } else {
                Some(b.remove(i))
            }),
        ConfigEdit::Reorder(order) => if order@.len() == 0 && before is None {
            after is None
        } else {
            after == Some(order@.map_values(|x: ServiceId| Some(x@)))
        },
        _ => after == before,
    }
}

fn add_service_table(doc: &mut toml_edit::DocumentMut, service: &ServiceConfig, file: &str) -> (r: Result<
    (),
    ConfigError,
>)
    ensures
        r matches Err(e) ==> document_refusal(e, file@),
        r is Ok ==> doc_service_ids(*final(doc)) == Some(
            match doc_service_ids(*old(doc)) {
                Some(b) => b,
                None => Seq::empty(),
            }.push(Some(service.id@)),
        ),
{
    match services_form(doc) {
        ServicesForm::Tables(_) => {},
        ServicesForm::InlineArray(n) => {
            if n == 0 {
                start_service_tables(doc);
            } else {
                return Err(not_tables(file));
            }
        },
        ServicesForm::Other => {
            return Err(not_tables(file));
        },
    }
    let table = service_table(service);
    push_service_table(doc, table);
    Ok(())
}

fn remove_service_table(doc: &mut toml_edit::DocumentMut, id: &ServiceId, file: &str) -> (r: Result<
    (),
    ConfigError,
>)
    ensures
        r matches Err(e) ==> document_refusal(e, file@),
        r is Ok ==> tables_after_edit(
            doc_service_ids(*old(doc)),
            doc_service_ids(*final(doc)),
            ConfigEdit::RemoveService(*id),
        ),
{
    let n = match services_form(doc) {
        ServicesForm::Tables(n) => n,
        ServicesForm::InlineArray(0) => {
            return Err(unknown_id(file, id));
        },
        _ => {
            return Err(not_tables(file));
        },
    };
    let ghost b = doc_service_ids(*doc).unwrap();
    match find_service_table(doc, n, id) {
        None => Err(unknown_id(file, id)),
        Some(i) => {
            let _table = take_service_table(doc, i);
            if n == 1 {
                write_empty_services(doc);
            }
            assert(b[i as int] == Some(id@));
            Ok(())
        },
    }
}

} // verus!

verus! {

fn update_service_table(
    doc: &mut toml_edit::DocumentMut,
    id: &ServiceId,
    patch: &ServicePatch,
    file: &str,
) -> (r: Result<(), ConfigError>)
    ensures
        r matches Err(e) ==> document_refusal(e, file@),
        r is Ok ==> doc_service_ids(*final(doc)) == doc_service_ids(*old(doc)),
{
    let n = match services_form(doc) {
        ServicesForm::Tables(n) => n,
        ServicesForm::InlineArray(0) => {
            return Err(unknown_id(file, id));
        },
        _ => {
            return Err(not_tables(file));
        },
    };
    let i = match find_service_table(doc, n, id) {
        None => {
            return Err(unknown_id(file, id));
        },
        Some(i) => i,
    };
    proof {
        reveal_strlit("id");
        reveal_strlit("name");
        reveal_strlit("url");
        reveal_strlit("profile");
        reveal_strlit("notifications");
        reveal_strlit("icon");
        assert("id"@.len() == 2);
        assert("name"@.len() != 2 && "url"@.len() != 2 && "profile"@.len() != 2);
        assert("notifications"@.len() != 2 && "icon"@.len() != 2);
    }
    if let Some(name) = &patch.name {
        set_service_value(doc, i, "name", string_value(name.as_str()), file)?;
    }
    if let Some(url) = &patch.url {
        set_service_value(doc, i, "url", string_value(url.serialization.as_str()), file)?;
    }
    if let Some(profile) = &patch.profile {
        set_service_value(doc, i, "profile", string_value(profile.as_str()), file)?;
    }
    if let Some(notifications) = patch.notifications {
        set_service_value(doc, i, "notifications", bool_value(notifications), file)?;
    }
    if let Some(icon) = &patch.icon {
        set_service_value(doc, i, "icon", icon_value_of(icon), file)?;
    }
    Ok(())
}

fn settings_not_a_table(file: &str) -> (e: ConfigError)
    ensures
        document_refusal(e, file@),
{
    ConfigError {
        file: String::from_str(file),
        key: Some(String::from_str("settings")),
        reason: String::from_str("expected a table"),
    }
}

/// Replaces the value under `key` in `[settings]`, the new value keeping
/// the old one's spacing and same-line comment.
fn set_setting(doc: &mut toml_edit::DocumentMut, key: &str, value: toml_edit::Value, file: &str) -> (r: Result<
    (),
    ConfigError,
>)
    ensures
        r matches Err(e) ==> document_refusal(e, file@),
        doc_service_ids(*final(doc)) == doc_service_ids(*old(doc)),
{
    proof {
        reveal_strlit("settings");
        reveal_strlit("services");
        assert("settings"@[5] != "services"@[5]);
    }
    let value = match table_field(doc, "settings", key) {
        None => {
            return Err(missing_key(file, key));
        },
        Some(Some(old_value)) => with_decor_of(&old_value, value),
        Some(None) => value,
    };
    if replace_table_field(doc, "settings", key, value) {
        Ok(())
    } else {
        Err(missing_key(file, key))
    }
}

fn update_settings_table(doc: &mut toml_edit::DocumentMut, patch: &SettingsPatch, file: &str) -> (r: Result<
    (),
    ConfigError,
>)
    ensures
        r matches Err(e) ==> document_refusal(e, file@),
        r is Ok ==> doc_service_ids(*final(doc)) == doc_service_ids(*old(doc)),
{
    if !is_table_at(doc, "settings") {
        return Err(settings_not_a_table(file));
    }
    if let Some(v) = patch.reconcile_interval_seconds {
        set_setting(doc, "reconcile_interval_seconds", integer_value(v as i64), file)?;
    }
    if let Some(v) = patch.notifications {
        set_setting(doc, "notifications", bool_value(v), file)?;
    }
    if let Some(v) = patch.notification_batch_threshold {
        set_setting(doc, "notification_batch_threshold", integer_value(v as i64), file)?;
    }
    if let Some(v) = patch.badge_sidebar {
        set_setting(doc, "badge_sidebar", bool_value(v), file)?;
    }
    Ok(())
}

fn reorder_service_tables(doc: &mut toml_edit::DocumentMut, order: &Vec<ServiceId>, file: &str) -> (r: Result<
    (),
    ConfigError,
>)
    ensures
        r matches Err(e) ==> document_refusal(e, file@),
        r is Ok ==> tables_after_edit(
            doc_service_ids(*old(doc)),
            doc_service_ids(*final(doc)),
            ConfigEdit::Reorder(*order),
        ),
{
    let n = match services_form(doc) {
        ServicesForm::Tables(n) => n,
        ServicesForm::InlineArray(0) => {
            if order.len() == 0 {
                return Ok(());
            } else {
                return Err(unknown_id(file, &order[0]));
            }
        },
        _ => {
            return Err(not_tables(file));
        },
    };
    let mut tables: Vec<toml_edit::Table> = Vec::new();
    let mut k: usize = 0;
    while k < n
        invariant
            k <= n,
            doc_service_ids(*doc) matches Some(s) && s.len() == n - k,
        decreases n - k,
    {
        let table = take_service_table(doc, 0);
        tables.push(table);
        k = k + 1;
    }
    let ghost want = order@.map_values(|x: ServiceId| Some(x@));
    assert(doc_service_ids(*doc).unwrap() =~= want.take(0));
    let mut k: usize = 0;
    while k < order.len()
        invariant
            k <= order@.len(),
            want == order@.map_values(|x: ServiceId| Some(x@)),
            doc_service_ids(*doc) == Some(want.take(k as int)),
        decreases order@.len() - k,
    {
        match find_table(&tables, &order[k]) {
            None => {
                return Err(unknown_id(file, &order[k]));
            },
            Some(j) => {
                let mut table = tables.remove(j);
                unpin_table(&mut table);
                push_service_table(doc, table);
                assert(want.take(k + 1) =~= want.take(k as int).push(Some(order@[k as int]@)));
            },
        }
        k = k + 1;
    }
    assert(want.take(order@.len() as int) =~= want);
    Ok(())
}

/// Makes `edit` on `doc`, table by table; see [`tables_after_edit`].
fn edit_document(doc: &mut toml_edit::DocumentMut, edit: &ConfigEdit, file: &str) -> (r: Result<
    (),
    ConfigError,
>)
    ensures
        r matches Err(e) ==> document_refusal(e, file@),
        r is Ok ==> tables_after_edit(doc_service_ids(*old(doc)), doc_service_ids(*final(doc)), *edit),
{
    match edit {
        ConfigEdit::AddService(service) => add_service_table(doc, service, file),
        ConfigEdit::UpdateService(id, patch) => update_service_table(doc, id, patch, file),
        ConfigEdit::RemoveService(id) => remove_service_table(doc, id, file),
        ConfigEdit::Reorder(order) => reorder_service_tables(doc, order, file),
        ConfigEdit::UpdateSettings(patch) => update_settings_table(doc, patch, file),
    }
}

} // verus!

verus! {

/// What `text` validates to as a configuration file (see [`config_of`]):
/// its version, settings and services, or `None` when it is not TOML or
/// does not validate.
pub open spec fn config_text(text: Seq<char>) -> Option<(u32, Settings, Seq<ServiceView>)> {
    match toml_table(text) {
        Ok(top) => match config_of(top) {
            Ok(c) => Some(c),
            Err(_) => None,
        },
        Err(_) => None,
    }
}

/// Why an edited text is turned down when it validates, but not to the
/// configuration the edit calls for.
pub open spec fn mismatch_reason() -> Seq<char> {
    "the edited document does not validate to the edited configuration"@
}

fn mismatch(file: &str) -> (e: ConfigError)
    ensures
        e.file@ == file@,
        e.key is None,
        e.reason@ == mismatch_reason(),
{
    ConfigError {
        file: String::from_str(file),
        key: None,
        reason: String::from_str("the edited document does not validate to the edited configuration"),
    }
}

/// What [`accept_edited_text`] makes of `printed`, the text of an edited
/// configuration file `file`, given the configuration expected of it: a
/// text that is not TOML or does not validate is rejected as [`parse`]
/// rejects it; one that validates to the expected version, settings and
/// services (URLs by serialization) is accepted with that configuration;
/// any other is turned down with [`mismatch_reason`] and no key.
pub open spec fn accepted(
    file: Seq<char>,
    printed: Seq<char>,
    version: u32,
    settings: Settings,
    services: Seq<ServiceView>,
    r: Result<(String, Config), ConfigError>,
) -> bool {
    match toml_table(printed) {
        Err(m) => r matches Err(e) && e.file@ == file && e.key is None && e.reason@ == m,
        Ok(top) => match config_of(top) {
            Err(ev) => r matches Err(e) && is_error(e, file, ev),
            Ok(c) => if c.0 == version && c.1 == settings && same_services(c.2, services) {
                r matches Ok((t, x)) && t@ == printed && x.version == c.0 && x.settings == c.1 && service_views(
                    x.services@,
                ) == c.2
            } else {
                r matches Err(e) && e.file@ == file && e.key is None && e.reason@ == mismatch_reason()
            },
        },
    }
}

/// Accepts `printed`, the text of the edited configuration file `file`,
/// only if it validates to exactly the configuration expected of it:
/// version `version`, settings `settings` and the services `expected`
/// (see [`accepted`]).
pub fn accept_edited_text(
    file: &str,
    printed: String,
    version: u32,
    settings: Settings,
    expected: &Vec<ServiceConfig>,
) -> (r: Result<(String, Config), ConfigError>)
    ensures
        accepted(file@, printed@, version, settings, service_views(expected@), r),
{
    let after = parse(printed.as_str(), file)?;
    if after.version != version || !(after.settings == settings) || !services_equal(&after.services, expected) {
        return Err(mismatch(file));
    }
    Ok((printed, after))
}

proof fn lemma_contained_occurs(s: Seq<Seq<char>>, x: Seq<char>)
    requires
        s.contains(x),
    ensures
        occurrences(s, x) > 0,
    decreases s.len(),
{
    if s.last() != x {
        let j = choose|j: int| 0 <= j < s.len() && s[j] == x;
        assert(s.drop_last()[j] == x);
        lemma_contained_occurs(s.drop_last(), x);
    }
}

proof fn lemma_not_found_is_absent(s: Seq<ServiceView>, id: Seq<char>)
    requires
        first_with_id(s, id) is None,
    ensures
        !ids_of(s).contains(id),
    decreases s.len(),
{
    if s.len() > 0 {
        lemma_not_found_is_absent(s.drop_last(), id);
        assert forall|j: int| 0 <= j < s.len() implies ids_of(s)[j] != id by {
            if j < s.len() - 1 {
                assert(ids_of(s)[j] == ids_of(s.drop_last())[j]);
            }
        }
    }
}

/// A reorder the checks let through names only ids some service has.
proof fn lemma_unrefused_reorder_names_known(s: Seq<ServiceView>, edit: ConfigEdit)
    requires
        edit_refusal(ids_of(s), edit_view(edit)) is None,
    ensures
        !reorder_names_unknown(s, edit),
{
    if let ConfigEdit::Reorder(order) = edit {
        if reorder_names_unknown(s, edit) {
            let k = choose|k: int| 0 <= k < order@.len() && first_with_id(s, (#[trigger] order@[k])@) is None;
            let x = order@[k]@;
            let o = order@.map_values(|id: ServiceId| id@);
            lemma_not_found_is_absent(s, x);
            lemma_occurrences_zero(ids_of(s), x);
            assert(o[k] == x);
            lemma_contained_occurs(o, x);
            assert(same_ids(ids_of(s), o));
            assert(occurrences(ids_of(s), x) == occurrences(o, x));
        }
    }
}

/// Applies `edit` to `text`, the contents of the configuration file
/// `file` (used only to label errors), keeping the comments and
/// formatting of everything the edit does not touch. `text` is validated
/// as [`parse`] does and the edit checked against it as [`check_edit`]
/// does, with the same errors. Then `text` is read as a `toml_edit`
/// document (its parse error, if any, comes back with no key), the edit
/// is made on the document's tables (which may refuse it, see
/// [`document_refusal`]), and the text the document prints is accepted
/// exactly when it validates to the configuration the edit calls for
/// (see [`accepted`]).
pub fn edit_config_text(file: &str, text: &str, edit: ConfigEdit) -> (r: Result<(String, Config), ConfigError>)
    ensures
        match toml_table(text@) {
            Err(m) => r matches Err(e) && e.file@ == file@ && e.key is None && e.reason@ == m,
            Ok(top) => match config_of(top) {
                Err(ev) => r matches Err(e) && is_error(e, file@, ev),
                Ok(before) => match edit_refusal(ids_of(before.2), edit_view(edit)) {
                    Some(reason) => r matches Err(e) && e.file@ == file@ && e.reason@ == reason && (e.key matches Some(
                        k,
                    ) && k@ == "services"@),
                    None => match toml_edit_error(text@) {
                        Some(m) => r matches Err(e) && e.file@ == file@ && e.key is None && e.reason@ == m,
                        None => (r matches Err(e) && document_refusal(e, file@)) || exists|d: toml_edit::DocumentMut|
                            accepted(
                                file@,
                                #[trigger] doc_printed(d),
                                before.0,
                                edited_settings(before.1, edit),
                                edited_services(before.2, edit),
                                r,
                            ),
                    },
                },
            },
        },
{
    let before = parse(text, file)?;
    check_edit(file, &before, &edit)?;
    proof {
        lemma_unrefused_reorder_names_known(service_views(before.services@), edit);
    }
    let expected = match edited_service_list(&before.services, &edit) {
        Some(v) => v,
        None => {
            return Err(mismatch(file));
        },
    };
    let expected_settings = match &edit {
        ConfigEdit::UpdateSettings(p) => patch_settings(before.settings, *p),
        _ => before.settings,
    };
    let mut doc = match doc_parse(text) {
        Ok(d) => d,
        Err(reason) => {
            return Err(ConfigError { file: String::from_str(file), key: None, reason });
        },
    };
    edit_document(&mut doc, &edit, file)?;
    let printed = doc_text(&doc);
    let r = accept_edited_text(file, printed, before.version, expected_settings, &expected);
    assert(accepted(
        file@,
        doc_printed(doc),
        before.version,
        expected_settings,
        service_views(expected@),
        r,
    ));
    r
}

} // verus!

verus! {

proof fn lemma_without_absent_id(s: Seq<ServiceView>, id: Seq<char>)
    requires
        !ids_of(s).contains(id),
    ensures
        without_id(s, id) == s,
    decreases s.len(),
{
    if s.len() > 0 {
        assert(ids_of(s)[s.len() - 1] == s.last().id);
        assert(!ids_of(s.drop_last()).contains(id)) by {
            if ids_of(s.drop_last()).contains(id) {
                let j = choose|j: int| 0 <= j < ids_of(s.drop_last()).len() && ids_of(s.drop_last())[j] == id;
                assert(ids_of(s)[j] == id);
            }
        }
        lemma_without_absent_id(s.drop_last(), id);
        assert(s.drop_last().push(s.last()) =~= s);
    }
}

/// Removing a service just added, under an id no other service has,
/// gives back the services as they were.
pub proof fn lemma_remove_undoes_add(s: Seq<ServiceView>, added: ServiceConfig)
    requires
        !ids_of(s).contains(added.id@),
    ensures
        edited_services(edited_services(s, ConfigEdit::AddService(added)), ConfigEdit::RemoveService(added.id))
            == s,
{
    let pushed = s.push(added@);
    assert(pushed.drop_last() =~= s);
    lemma_without_absent_id(s, added.id@);
}

/// Reordering services with distinct ids into the order they already
/// have changes nothing.
pub proof fn lemma_reorder_in_place_changes_nothing(s: Seq<ServiceView>, order: Vec<ServiceId>)
    requires
        ids_of(s).no_duplicates(),
        order@.len() == s.len(),
        forall|i: int| 0 <= i < s.len() ==> (#[trigger] order@[i])@ == s[i].id,
    ensures
        edited_services(s, ConfigEdit::Reorder(order)) == s,
{
    let r = edited_services(s, ConfigEdit::Reorder(order));
    assert forall|i: int| 0 <= i < s.len() implies r[i] == s[i] by {
        assert(order@[i]@ == s[i].id);
        crate::services::reconcile::lemma_first_with_id_of_distinct(s, i);
    }
    assert(r =~= s);
}

/// A patch with no field set changes neither a service nor the settings.
pub proof fn lemma_empty_patches_change_nothing(
    s: Seq<ServiceView>,
    st: Settings,
    id: ServiceId,
    p: ServicePatch,
    q: SettingsPatch,
)
    requires
        p.name is None && p.url is None && p.profile is None && p.notifications is None && p.icon is None,
        q.reconcile_interval_seconds is None && q.notifications is None && q.notification_batch_threshold is None
            && q.badge_sidebar is None,
    ensures
        edited_services(s, ConfigEdit::UpdateService(id, p)) == s,
        edited_settings(st, ConfigEdit::UpdateSettings(q)) == st,
{
    assert(edited_services(s, ConfigEdit::UpdateService(id, p)) =~= s);
}

/// A settings edit sets every field its patch gives to the value given,
/// and keeps every other field as it was.
pub proof fn lemma_settings_patch_applies(st: Settings, p: SettingsPatch)
    ensures
        ({
            let r = edited_settings(st, ConfigEdit::UpdateSettings(p));
            &&& p.reconcile_interval_seconds matches Some(v) ==> r.reconcile_interval_seconds == v
            &&& p.reconcile_interval_seconds is None ==> r.reconcile_interval_seconds == st.reconcile_interval_seconds
            &&& p.notifications matches Some(b) ==> r.notifications == b
            &&& p.notifications is None ==> r.notifications == st.notifications
            &&& p.notification_batch_threshold matches Some(v) ==> r.notification_batch_threshold == v
            &&& p.notification_batch_threshold is None ==> r.notification_batch_threshold
                == st.notification_batch_threshold
            &&& p.badge_sidebar matches Some(b) ==> r.badge_sidebar == b
            &&& p.badge_sidebar is None ==> r.badge_sidebar == st.badge_sidebar
        }),
{
}

/// No edit but a settings edit changes the settings.
pub proof fn lemma_only_settings_edits_change_settings(st: Settings, edit: ConfigEdit)
    requires
        !(edit is UpdateSettings),
    ensures
        edited_settings(st, edit) == st,
{
}

} // verus!
