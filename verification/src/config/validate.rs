//! `config.toml` text to a typed, fully validated [`Config`], failing on
//! the first missing or invalid key; nothing is filled in from a default.

use vstd::prelude::*;
use vstd::string::StringExecFns;

use crate::config::ids::id_error;
use crate::config::model::{opt_view, service_views, Config, ConfigError, IconSource, IconView, ServiceConfig, ServiceView, Settings};
use crate::config::toml_value::{
    entries_view, get, items_view, lemma_toml_view_parts, lookup, parse_toml_table, toml_table, toml_type, toml_view,
    TomlValue, TomlView,
};
use crate::config::{is_valid_id, ProfileName, ServiceId};
use crate::services::reconcile::{has_id, ids_of};
use crate::text::{decimal, decimal_string, join2, join3, signed_decimal, signed_decimal_string, to_chars};
use crate::weburl::{parse_url, url_parse, ParsedUrl, UrlView};

verus! {

/// A rejection before it is tied to a file: the key path, and why.
pub struct ErrView {
    pub key: Option<Seq<char>>,
    pub reason: Seq<char>,
}

/// `parent.key`, or just `key` at the top level.
pub open spec fn key_path(parent: Seq<char>, key: Seq<char>) -> Seq<char> {
    if parent.len() == 0 {
        key
    } else {
        parent + "."@ + key
    }
}

/// A rejection at `key` for `reason`.
pub open spec fn at(key: Seq<char>, reason: Seq<char>) -> ErrView {
    ErrView { key: Some(key), reason }
}

/// A required key is absent.
pub open spec fn missing(key: Seq<char>) -> ErrView {
    at(key, "missing required key"@)
}

/// A key holds a value of the wrong type.
pub open spec fn mismatch(key: Seq<char>, expected: Seq<char>, actual: TomlView) -> ErrView {
    at(key, "expected "@ + expected + ", found "@ + toml_type(actual))
}

/// The string at `key` of table `t`.
pub open spec fn req_str(t: Seq<(Seq<char>, TomlView)>, key: Seq<char>, parent: Seq<char>) -> Result<Seq<char>, ErrView> {
    match lookup(t, key) {
        None => Err(missing(key_path(parent, key))),
        Some(TomlView::String(s)) => Ok(s),
        Some(v) => Err(mismatch(key_path(parent, key), "string"@, v)),
    }
}

/// The boolean at `key` of table `t`.
pub open spec fn req_bool(t: Seq<(Seq<char>, TomlView)>, key: Seq<char>, parent: Seq<char>) -> Result<bool, ErrView> {
    match lookup(t, key) {
        None => Err(missing(key_path(parent, key))),
        Some(TomlView::Boolean(b)) => Ok(b),
        Some(v) => Err(mismatch(key_path(parent, key), "boolean"@, v)),
    }
}

/// The table at `key` of table `t`.
pub open spec fn req_table(t: Seq<(Seq<char>, TomlView)>, key: Seq<char>, parent: Seq<char>) -> Result<
    Seq<(Seq<char>, TomlView)>,
    ErrView,
> {
    match lookup(t, key) {
        None => Err(missing(key_path(parent, key))),
        Some(TomlView::Table(x)) => Ok(x),
        Some(v) => Err(mismatch(key_path(parent, key), "table"@, v)),
    }
}

/// The array at `key` of table `t`.
pub open spec fn req_array(t: Seq<(Seq<char>, TomlView)>, key: Seq<char>, parent: Seq<char>) -> Result<
    Seq<TomlView>,
    ErrView,
> {
    match lookup(t, key) {
        None => Err(missing(key_path(parent, key))),
        Some(TomlView::Array(x)) => Ok(x),
        Some(v) => Err(mismatch(key_path(parent, key), "array"@, v)),
    }
}

/// The integer at `key` of table `t`, which must fit in `0..=u32::MAX`.
pub open spec fn req_u32(t: Seq<(Seq<char>, TomlView)>, key: Seq<char>, parent: Seq<char>) -> Result<u32, ErrView> {
    match lookup(t, key) {
        None => Err(missing(key_path(parent, key))),
        Some(TomlView::Integer(n)) => if 0 <= n <= u32::MAX {
            Ok(n as u32)
        } else {
            Err(at(key_path(parent, key), "must be between 0 and 4294967295 (found "@ + signed_decimal(n as int) + ")"@))
        },
        Some(v) => Err(mismatch(key_path(parent, key), "integer"@, v)),
    }
}

/// The http(s) URL at `key` of table `t`.
pub open spec fn req_http_url(t: Seq<(Seq<char>, TomlView)>, key: Seq<char>, parent: Seq<char>) -> Result<
    UrlView,
    ErrView,
> {
    match req_str(t, key, parent) {
        Err(e) => Err(e),
        Ok(raw) => match url_parse(raw) {
            Err(m) => Err(at(key_path(parent, key), "invalid URL: "@ + m)),
            Ok(u) => if u.scheme == "http"@ || u.scheme == "https"@ {
                Ok(u)
            } else {
                Err(at(key_path(parent, key), "must use http or https scheme (found `"@ + u.scheme + "`)"@))
            },
        },
    }
}

/// The `[settings]` table's values, read in file-documented order.
pub open spec fn settings_of(t: Seq<(Seq<char>, TomlView)>) -> Result<Settings, ErrView> {
    let p = "settings"@;
    match req_u32(t, "reconcile_interval_seconds"@, p) {
        Err(e) => Err(e),
        Ok(reconcile) => match req_bool(t, "notifications"@, p) {
            Err(e) => Err(e),
            Ok(notifications) => match req_u32(t, "notification_batch_threshold"@, p) {
                Err(e) => Err(e),
                Ok(threshold) => match req_bool(t, "badge_sidebar"@, p) {
                    Err(e) => Err(e),
                    Ok(badge) => Ok(
                        Settings {
                            reconcile_interval_seconds: reconcile,
                            notifications,
                            notification_batch_threshold: threshold,
                            badge_sidebar: badge,
                        },
                    ),
                },
            },
        },
    }
}

/// A path separator, on any platform.
pub open spec fn is_sep(c: char) -> bool {
    c == '/' || c == '\\'
}

/// A `..` component starts at `i` in `v`.
pub open spec fn dotdot_at(v: Seq<char>, i: int) -> bool {
    &&& 0 <= i
    &&& i + 2 <= v.len()
    &&& v[i] == '.'
    &&& v[i + 1] == '.'
    &&& (i == 0 || is_sep(v[i - 1]))
    &&& (i + 2 == v.len() || is_sep(v[i + 2]))
}

/// A file icon value stays inside the data directory: a relative path (no
/// leading separator, no drive or other prefix) with no `..` component.
pub open spec fn stays_inside(v: Seq<char>) -> bool {
    &&& !(v.len() > 0 && is_sep(v[0]))
    &&& !v.contains(':')
    &&& !exists|i: int| dotdot_at(v, i)
}

/// Why a file icon value that leaves the data directory is refused.
pub open spec fn outside_data_dir_reason() -> Seq<char> {
    "must be a relative path inside the data directory, without `..` components"@
}


/// A service's `icon` table: `source` is `favicon`, `file` (with a
/// non-empty `value` path) or `url` (with an http(s) `value`).
pub open spec fn icon_of(t: Seq<(Seq<char>, TomlView)>, parent: Seq<char>) -> Result<IconView, ErrView> {
    match req_str(t, "source"@, parent) {
        Err(e) => Err(e),
        Ok(source) => if source == "favicon"@ {
            Ok(IconView::Favicon)
        } else if source == "file"@ {
            match req_str(t, "value"@, parent) {
                Err(e) => Err(e),
                Ok(v) => if v.len() == 0 {
                    Err(at(key_path(parent, "value"@), "must not be empty"@))
                } else if !stays_inside(v) {
                    Err(at(key_path(parent, "value"@), outside_data_dir_reason()))
                } else {
                    Ok(IconView::File(v))
                },
            }
        } else if source == "url"@ {
            match req_http_url(t, "value"@, parent) {
                Err(e) => Err(e),
                Ok(u) => Ok(IconView::Url(u)),
            }
        } else {
            Err(
                at(
                    key_path(parent, "source"@),
                    "unknown icon source `"@ + source + "` (expected `favicon`, `file`, or `url`)"@,
                ),
            )
        },
    }
}

/// One `[[services]]` table, its keys read in the order id, name, url,
/// profile, notifications, icon.
pub open spec fn service_of(t: Seq<(Seq<char>, TomlView)>, parent: Seq<char>) -> Result<ServiceView, ErrView> {
    match req_str(t, "id"@, parent) {
        Err(e) => Err(e),
        Ok(id) => if !is_valid_id(id) {
            Err(at(key_path(parent, "id"@), id_error(id).unwrap()))
        } else {
            match req_str(t, "name"@, parent) {
                Err(e) => Err(e),
                Ok(name) => match req_http_url(t, "url"@, parent) {
                    Err(e) => Err(e),
                    Ok(url) => match req_str(t, "profile"@, parent) {
                        Err(e) => Err(e),
                        Ok(profile) => if !is_valid_id(profile) {
                            Err(at(key_path(parent, "profile"@), id_error(profile).unwrap()))
                        } else {
                            match req_bool(t, "notifications"@, parent) {
                                Err(e) => Err(e),
                                Ok(notifications) => match req_table(t, "icon"@, parent) {
                                    Err(e) => Err(e),
                                    Ok(icon_table) => match icon_of(icon_table, key_path(parent, "icon"@)) {
                                        Err(e) => Err(e),
                                        Ok(icon) => Ok(ServiceView { id, name, url, profile, notifications, icon }),
                                    },
                                },
                            }
                        },
                    },
                },
            }
        },
    }
}

/// `services[i]`.
pub open spec fn service_path(i: nat) -> Seq<char> {
    "services["@ + decimal(i) + "]"@
}

/// The `services` array's entries, in order, each a table naming an id
/// no earlier entry used.
pub open spec fn services_of(items: Seq<TomlView>) -> Result<Seq<ServiceView>, ErrView>
    decreases items.len(),
{
    if items.len() == 0 {
        Ok(seq![])
    } else {
        match services_of(items.drop_last()) {
            Err(e) => Err(e),
            Ok(prev) => {
                let parent = service_path((items.len() - 1) as nat);
                match items.last() {
                    TomlView::Table(t) => match service_of(t, parent) {
                        Err(e) => Err(e),
                        Ok(s) => if ids_of(prev).contains(s.id) {
                            Err(at(key_path(parent, "id"@), "duplicate service id `"@ + s.id + "`"@))
                        } else {
                            Ok(prev.push(s))
                        },
                    },
                    other => Err(mismatch(parent, "table"@, other)),
                }
            },
        }
    }
}

/// The whole document: `version` (which must be 1), `[settings]`, then
/// `services`.
pub open spec fn config_of(top: Seq<(Seq<char>, TomlView)>) -> Result<(u32, Settings, Seq<ServiceView>), ErrView> {
    match req_u32(top, "version"@, ""@) {
        Err(e) => Err(e),
        Ok(version) => if version != 1 {
            Err(at("version"@, "must equal 1 (found "@ + decimal(version as nat) + ")"@))
        } else {
            match req_table(top, "settings"@, ""@) {
                Err(e) => Err(e),
                Ok(st) => match settings_of(st) {
                    Err(e) => Err(e),
                    Ok(settings) => match req_array(top, "services"@, ""@) {
                        Err(e) => Err(e),
                        Ok(items) => match services_of(items) {
                            Err(e) => Err(e),
                            Ok(services) => Ok((version, settings, services)),
                        },
                    },
                },
            }
        },
    }
}

/// `e` is the rejection `ev` reported against `file`.
pub open spec fn is_error(e: ConfigError, file: Seq<char>, ev: ErrView) -> bool {
    e.file@ == file && opt_view(e.key) == ev.key && e.reason@ == ev.reason
}

fn error_at(file: &str, key: String, reason: String) -> (e: ConfigError)
    ensures
        e.file@ == file@,
        e.key matches Some(k) && k@ == key@,
        e.reason@ == reason@,
{
    ConfigError { file: String::from_str(file), key: Some(key), reason }
}

fn key_path_exec(parent: &str, key: &str) -> (s: String)
    ensures
        s@ == key_path(parent@, key@),
{
    if parent.unicode_len() == 0 {
        String::from_str(key)
    } else {
        join3(parent, ".", key)
    }
}

fn mismatch_error(file: &str, path: String, expected: &str, actual: &TomlValue) -> (e: ConfigError)
    ensures
        is_error(e, file@, mismatch(path@, expected@, toml_view(*actual))),
{
    let head = join3("expected ", expected, ", found ");
    error_at(file, path, join2(head.as_str(), actual.type_str()))
}

fn require_str<'a>(t: &'a Vec<(String, TomlValue)>, key: &str, parent: &str, file: &str) -> (r: Result<&'a String, ConfigError>)
    ensures
        match req_str(entries_view(t@), key@, parent@) {
            Ok(s) => r matches Ok(x) && x@ == s,
            Err(ev) => r matches Err(e) && is_error(e, file@, ev),
        },
{
    let path = key_path_exec(parent, key);
    match get(t, key) {
        None => Err(error_at(file, path, String::from_str("missing required key"))),
        Some(TomlValue::String(s)) => Ok(s),
        Some(other) => Err(mismatch_error(file, path, "string", other)),
    }
}

fn require_bool(t: &Vec<(String, TomlValue)>, key: &str, parent: &str, file: &str) -> (r: Result<bool, ConfigError>)
    ensures
        match req_bool(entries_view(t@), key@, parent@) {
            Ok(b) => r == Ok::<bool, ConfigError>(b),
            Err(ev) => r matches Err(e) && is_error(e, file@, ev),
        },
{
    let path = key_path_exec(parent, key);
    match get(t, key) {
        None => Err(error_at(file, path, String::from_str("missing required key"))),
        Some(TomlValue::Boolean(b)) => Ok(*b),
        Some(other) => Err(mismatch_error(file, path, "boolean", other)),
    }
}

fn require_table<'a>(t: &'a Vec<(String, TomlValue)>, key: &str, parent: &str, file: &str) -> (r: Result<
    &'a Vec<(String, TomlValue)>,
    ConfigError,
>)
    ensures
        match req_table(entries_view(t@), key@, parent@) {
            Ok(x) => r matches Ok(inner) && entries_view(inner@) == x,
            Err(ev) => r matches Err(e) && is_error(e, file@, ev),
        },
{
    let path = key_path_exec(parent, key);
    match get(t, key) {
        None => Err(error_at(file, path, String::from_str("missing required key"))),
        Some(v) => {
            proof {
                lemma_toml_view_parts(*v);
            }
            match v {
                TomlValue::Table(inner) => Ok(inner),
                other => Err(mismatch_error(file, path, "table", other)),
            }
        },
    }
}

fn require_array<'a>(t: &'a Vec<(String, TomlValue)>, key: &str, parent: &str, file: &str) -> (r: Result<
    &'a Vec<TomlValue>,
    ConfigError,
>)
    ensures
        match req_array(entries_view(t@), key@, parent@) {
            Ok(x) => r matches Ok(inner) && items_view(inner@) == x,
            Err(ev) => r matches Err(e) && is_error(e, file@, ev),
        },
{
    let path = key_path_exec(parent, key);
    match get(t, key) {
        None => Err(error_at(file, path, String::from_str("missing required key"))),
        Some(v) => {
            proof {
                lemma_toml_view_parts(*v);
            }
            match v {
                TomlValue::Array(inner) => Ok(inner),
                other => Err(mismatch_error(file, path, "array", other)),
            }
        },
    }
}

fn require_u32(t: &Vec<(String, TomlValue)>, key: &str, parent: &str, file: &str) -> (r: Result<u32, ConfigError>)
    ensures
        match req_u32(entries_view(t@), key@, parent@) {
            Ok(n) => r == Ok::<u32, ConfigError>(n),
            Err(ev) => r matches Err(e) && is_error(e, file@, ev),
        },
{
    let path = key_path_exec(parent, key);
    match get(t, key) {
        None => Err(error_at(file, path, String::from_str("missing required key"))),
        Some(TomlValue::Integer(n)) => {
            let n = *n;
            if 0 <= n && n <= 4294967295 {
                Ok(n as u32)
            } else {
                let found = signed_decimal_string(n);
                let reason = join3("must be between 0 and 4294967295 (found ", found.as_str(), ")");
                Err(error_at(file, path, reason))
            }
        },
        Some(other) => Err(mismatch_error(file, path, "integer", other)),
    }
}

fn require_http_url(t: &Vec<(String, TomlValue)>, key: &str, parent: &str, file: &str) -> (r: Result<ParsedUrl, ConfigError>)
    ensures
        match req_http_url(entries_view(t@), key@, parent@) {
            Ok(u) => r matches Ok(x) && x@ == u,
            Err(ev) => r matches Err(e) && is_error(e, file@, ev),
        },
{
    let raw = require_str(t, key, parent, file)?;
    let path = key_path_exec(parent, key);
    let url = match parse_url(raw.as_str()) {
        Ok(u) => u,
        Err(m) => return Err(error_at(file, path, join2("invalid URL: ", m.as_str()))),
    };
    let http = String::from_str("http");
    let https = String::from_str("https");
    if !(url.scheme == http || url.scheme == https) {
        let reason = join3("must use http or https scheme (found `", url.scheme.as_str(), "`)");
        return Err(error_at(file, path, reason));
    }
    Ok(url)
}

fn parse_settings(t: &Vec<(String, TomlValue)>, file: &str) -> (r: Result<Settings, ConfigError>)
    ensures
        match settings_of(entries_view(t@)) {
            Ok(s) => r == Ok::<Settings, ConfigError>(s),
            Err(ev) => r matches Err(e) && is_error(e, file@, ev),
        },
{
    let parent = "settings";
    let reconcile = require_u32(t, "reconcile_interval_seconds", parent, file)?;
    let notifications = require_bool(t, "notifications", parent, file)?;
    let threshold = require_u32(t, "notification_batch_threshold", parent, file)?;
    let badge = require_bool(t, "badge_sidebar", parent, file)?;
    Ok(
        Settings {
            reconcile_interval_seconds: reconcile,
            notifications,
            notification_batch_threshold: threshold,
            badge_sidebar: badge,
        },
    )
}

fn path_stays_inside(v: &str) -> (b: bool)
    ensures
        b == stays_inside(v@),
{
    let chars = to_chars(v);
    let n = chars.len();
    let mut i: usize = 0;
    while i < n
        invariant
            chars@ == v@,
            n == v@.len(),
            i <= n,
            forall|j: int| 0 <= j < i ==> v@[j] != ':',
            forall|j: int| 0 <= j < i ==> !dotdot_at(v@, j),
            i > 0 ==> !is_sep(v@[0]),
        decreases n - i,
    {
        let c = chars[i];
        if c == ':' {
            assert(v@.contains(':')) by {
                assert(v@[i as int] == ':');
            }
            return false;
        }
        if i == 0 && (c == '/' || c == '\\') {
            return false;
        }
        if c == '.' && i + 1 < n && chars[i + 1] == '.' && (i == 0 || chars[i - 1] == '/' || chars[i - 1] == '\\')
            && (i + 2 == n || chars[i + 2] == '/' || chars[i + 2] == '\\') {
            assert(dotdot_at(v@, i as int));
            return false;
        }
        assert(!dotdot_at(v@, i as int));
        i = i + 1;
    }
    assert(!v@.contains(':'));
    true
}

fn parse_icon(t: &Vec<(String, TomlValue)>, parent: &str, file: &str) -> (r: Result<IconSource, ConfigError>)
    ensures
        match icon_of(entries_view(t@), parent@) {
            Ok(i) => r matches Ok(x) && x@ == i,
            Err(ev) => r matches Err(e) && is_error(e, file@, ev),
        },
{
    let source = require_str(t, "source", parent, file)?;
    if *source == String::from_str("favicon") {
        Ok(IconSource::Favicon)
    } else if *source == String::from_str("file") {
        let value = require_str(t, "value", parent, file)?;
        if value.unicode_len() == 0 {
            return Err(error_at(file, key_path_exec(parent, "value"), String::from_str("must not be empty")));
        }
        if !path_stays_inside(value.as_str()) {
            let reason = String::from_str("must be a relative path inside the data directory, without `..` components");
            proof {
                reveal_strlit("must be a relative path inside the data directory, without `..` components");
            }
            return Err(error_at(file, key_path_exec(parent, "value"), reason));
        }
        Ok(IconSource::File(value.clone()))
    } else if *source == String::from_str("url") {
        let url = require_http_url(t, "value", parent, file)?;
        Ok(IconSource::Url(url))
    } else {
        let reason = join3("unknown icon source `", source.as_str(), "` (expected `favicon`, `file`, or `url`)");
        Err(error_at(file, key_path_exec(parent, "source"), reason))
    }
}

fn parse_service(t: &Vec<(String, TomlValue)>, parent: &str, file: &str) -> (r: Result<ServiceConfig, ConfigError>)
    ensures
        match service_of(entries_view(t@), parent@) {
            Ok(s) => r matches Ok(x) && x@ == s,
            Err(ev) => r matches Err(e) && is_error(e, file@, ev),
        },
{
    let id_raw = require_str(t, "id", parent, file)?;
    let id = match ServiceId::new(id_raw.as_str()) {
        Ok(id) => id,
        Err(reason) => return Err(error_at(file, key_path_exec(parent, "id"), reason)),
    };
    let name = require_str(t, "name", parent, file)?.clone();
    let url = require_http_url(t, "url", parent, file)?;
    let profile_raw = require_str(t, "profile", parent, file)?;
    let profile = match ProfileName::new(profile_raw.as_str()) {
        Ok(p) => p,
        Err(reason) => return Err(error_at(file, key_path_exec(parent, "profile"), reason)),
    };
    let notifications = require_bool(t, "notifications", parent, file)?;
    let icon_table = require_table(t, "icon", parent, file)?;
    let icon_parent = key_path_exec(parent, "icon");
    let icon = parse_icon(icon_table, icon_parent.as_str(), file)?;
    Ok(ServiceConfig { id, name, url, profile, notifications, icon })
}

fn service_path_exec(i: usize) -> (s: String)
    ensures
        s@ == service_path(i as nat),
{
    let digits = decimal_string(i as u64);
    join3("services[", digits.as_str(), "]")
}

fn parse_services(items: &Vec<TomlValue>, file: &str) -> (r: Result<Vec<ServiceConfig>, ConfigError>)
    ensures
        match services_of(items_view(items@)) {
            Ok(s) => r matches Ok(x) && service_views(x@) == s,
            Err(ev) => r matches Err(e) && is_error(e, file@, ev),
        },
{
    let ghost iv = items_view(items@);
    let mut services: Vec<ServiceConfig> = Vec::new();
    let mut i: usize = 0;
    assert(iv.take(0) =~= Seq::<TomlView>::empty());
    assert(service_views(services@) =~= Seq::<ServiceView>::empty());
    while i < items.len()
        invariant
            iv == items_view(items@),
            i <= items@.len(),
            services_of(iv.take(i as int)) == Ok::<Seq<ServiceView>, ErrView>(service_views(services@)),
        decreases items@.len() - i,
    {
        let ghost next = iv.take(i + 1);
        assert(next.drop_last() =~= iv.take(i as int));
        assert(next.last() == toml_view(items@[i as int]));
        let parent = service_path_exec(i);
        let item = &items[i];
        proof {
            lemma_toml_view_parts(*item);
        }
        let service = match item {
            TomlValue::Table(t) => match parse_service(t, parent.as_str(), file) {
                Ok(s) => s,
                Err(e) => {
                    proof {
                        lemma_services_prefix_error(iv, (i + 1) as int);
                    }
                    return Err(e);
                },
            },
            other => {
                let e = mismatch_error(file, parent, "table", other);
                proof {
                    lemma_services_prefix_error(iv, (i + 1) as int);
                }
                return Err(e);
            },
        };
        if has_id(&services, &service.id) {
            let path = key_path_exec(parent.as_str(), "id");
            let reason = join3("duplicate service id `", service.id.as_str(), "`");
            proof {
                lemma_services_prefix_error(iv, (i + 1) as int);
            }
            return Err(error_at(file, path, reason));
        }
        let ghost before = service_views(services@);
        services.push(service);
        assert(service_views(services@) =~= before.push(service@));
        i = i + 1;
    }
    assert(iv.take(items@.len() as int) =~= iv);
    Ok(services)
}

/// Once a prefix of the array is rejected, the whole array is rejected
/// the same way.
proof fn lemma_services_prefix_error(items: Seq<TomlView>, n: int)
    requires
        0 <= n <= items.len(),
        services_of(items.take(n)) is Err,
    ensures
        services_of(items) == services_of(items.take(n)),
    decreases items.len() - n,
{
    if n < items.len() {
        assert(items.take(n + 1).drop_last() =~= items.take(n));
        lemma_services_prefix_error(items, n + 1);
    } else {
        assert(items.take(n) =~= items);
    }
}

/// Parses `text`, the contents of the configuration file `file` (used
/// only to label errors), into a validated [`Config`] (see [`config_of`]);
/// a document that is not TOML is rejected with no key.
pub fn parse(text: &str, file: &str) -> (r: Result<Config, ConfigError>)
    ensures
        match toml_table(text@) {
            Err(m) => r matches Err(e) && e.file@ == file@ && e.key is None && e.reason@ == m,
            Ok(top) => match config_of(top) {
                Ok(c) => r matches Ok(x) && x.version == c.0 && x.settings == c.1 && service_views(x.services@) == c.2,
                Err(ev) => r matches Err(e) && is_error(e, file@, ev),
            },
        },
{
    let table = match parse_toml_table(text) {
        Ok(t) => t,
        Err(reason) => return Err(ConfigError { file: String::from_str(file), key: None, reason }),
    };
    let version = require_u32(&table, "version", "", file)?;
    if version != 1 {
        let found = decimal_string(version as u64);
        let reason = join3("must equal 1 (found ", found.as_str(), ")");
        return Err(error_at(file, String::from_str("version"), reason));
    }
    let settings_table = require_table(&table, "settings", "", file)?;
    let settings = parse_settings(settings_table, file)?;
    let items = require_array(&table, "services", "", file)?;
    let services = parse_services(items, file)?;
    Ok(Config { version, settings, services })
}

} // verus!

verus! {

/// Every configuration that parses has distinct, valid service ids.
pub proof fn lemma_parsed_services_are_distinct(items: Seq<TomlView>)
    ensures
        services_of(items) matches Ok(s) ==> ids_of(s).no_duplicates() && forall|i: int|
            0 <= i < s.len() ==> is_valid_id(#[trigger] s[i].id),
    decreases items.len(),
{
    if items.len() > 0 {
        lemma_parsed_services_are_distinct(items.drop_last());
        if let Ok(s) = services_of(items) {
            let prev = services_of(items.drop_last())->Ok_0;
            let new = s.last();
            assert(s == prev.push(new));
            assert(!ids_of(prev).contains(new.id));
            assert forall|a: int, b: int| 0 <= a < ids_of(s).len() && 0 <= b < ids_of(s).len() && a != b implies ids_of(
                s,
            )[a] != ids_of(s)[b] by {
                if a < prev.len() && b < prev.len() {
                    assert(ids_of(s)[a] == ids_of(prev)[a] && ids_of(s)[b] == ids_of(prev)[b]);
                } else if a == prev.len() {
                    assert(ids_of(s)[b] == ids_of(prev)[b]);
                    assert(ids_of(prev).contains(ids_of(prev)[b]));
                } else {
                    assert(ids_of(s)[a] == ids_of(prev)[a]);
                    assert(ids_of(prev).contains(ids_of(prev)[a]));
                }
            }
            assert forall|i: int| 0 <= i < s.len() implies is_valid_id(#[trigger] s[i].id) by {
                if i < prev.len() {
                    assert(s[i] == prev[i]);
                }
            }
        }
    }
}

/// Every configuration that parses has version 1.
pub proof fn lemma_parsed_version_is_one(top: Seq<(Seq<char>, TomlView)>)
    ensures
        config_of(top) matches Ok(c) ==> c.0 == 1,
{
}

/// Every setting of a configuration that parses is the value stored
/// under its own key of the `[settings]` table: each boolean the boolean
/// there, each number the integer there.
pub proof fn lemma_settings_are_their_keys(top: Seq<(Seq<char>, TomlView)>)
    requires
        config_of(top) is Ok,
    ensures
        lookup(top, "settings"@) matches Some(TomlView::Table(st)) && {
            let s = config_of(top)->Ok_0.1;
            &&& lookup(st, "reconcile_interval_seconds"@) == Some(
                TomlView::Integer(s.reconcile_interval_seconds as i64),
            )
            &&& lookup(st, "notifications"@) == Some(TomlView::Boolean(s.notifications))
            &&& lookup(st, "notification_batch_threshold"@) == Some(
                TomlView::Integer(s.notification_batch_threshold as i64),
            )
            &&& lookup(st, "badge_sidebar"@) == Some(TomlView::Boolean(s.badge_sidebar))
        },
{
}

} // verus!
