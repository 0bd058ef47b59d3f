//! Typed configuration model: global settings, one entry per service, the
//! whole file, and the error a load, parse or validation fails with.

use vstd::prelude::*;

use crate::config::ids::{ProfileName, ServiceId};
use crate::error::AppError;
use crate::text::{join2, join3};
use crate::weburl::{ParsedUrl, UrlView};

verus! {

/// Global settings (`[settings]`). Every field is required.
#[derive(Debug, Clone, Copy, PartialEq, Eq, Structural)]
pub struct Settings {
    pub reconcile_interval_seconds: u32,
    pub notifications: bool,
    pub notification_batch_threshold: u32,
    pub badge_sidebar: bool,
}

/// Where a service's sidebar icon comes from (`[[services]].icon`).
#[derive(Debug)]
pub enum IconSource {
    /// Use the service's own favicon.
    Favicon,
    /// A local file path, relative to the data directory.
    File(String),
    /// An http(s) URL to fetch the icon from.
    Url(ParsedUrl),
}

/// The spec-level value of an [`IconSource`].
pub enum IconView {
    Favicon,
    File(Seq<char>),
    Url(UrlView),
}

impl View for IconSource {
    type V = IconView;

    open spec fn view(&self) -> IconView {
        match self {
            IconSource::Favicon => IconView::Favicon,
            IconSource::File(p) => IconView::File(p@),
            IconSource::Url(u) => IconView::Url(u@),
        }
    }
}

/// Two icon sources are equal: same variant, same path, or URLs with the
/// same serialization.
pub open spec fn same_icon(a: IconView, b: IconView) -> bool {
    match (a, b) {
        (IconView::Favicon, IconView::Favicon) => true,
        (IconView::File(x), IconView::File(y)) => x == y,
        (IconView::Url(x), IconView::Url(y)) => x.serialization == y.serialization,
        _ => false,
    }
}

impl Clone for IconSource {
    fn clone(&self) -> (r: Self)
        ensures
            r@ == self@,
    {
        match self {
            IconSource::Favicon => IconSource::Favicon,
            IconSource::File(p) => IconSource::File(p.clone()),
            IconSource::Url(u) => IconSource::Url(u.clone()),
        }
    }
}

impl PartialEq for IconSource {
    fn eq(&self, other: &Self) -> (r: bool) {
        match (self, other) {
            (IconSource::Favicon, IconSource::Favicon) => true,
            (IconSource::File(x), IconSource::File(y)) => *x == *y,
            (IconSource::Url(x), IconSource::Url(y)) => x.serialization == y.serialization,
            _ => false,
        }
    }
}

impl vstd::std_specs::cmp::PartialEqSpecImpl for IconSource {
    open spec fn obeys_eq_spec() -> bool {
        true
    }

    open spec fn eq_spec(&self, other: &Self) -> bool {
        same_icon(self@, other@)
    }
}

/// One sidebar entry (`[[services]]`). Every field is required.
#[derive(Debug)]
pub struct ServiceConfig {
    pub id: ServiceId,
    pub name: String,
    pub url: ParsedUrl,
    pub profile: ProfileName,
    pub notifications: bool,
    pub icon: IconSource,
}

/// The spec-level value of a [`ServiceConfig`].
pub struct ServiceView {
    pub id: Seq<char>,
    pub name: Seq<char>,
    pub url: UrlView,
    pub profile: Seq<char>,
    pub notifications: bool,
    pub icon: IconView,
}

impl View for ServiceConfig {
    type V = ServiceView;

    open spec fn view(&self) -> ServiceView {
        ServiceView {
            id: self.id@,
            name: self.name@,
            url: self.url@,
            profile: self.profile@,
            notifications: self.notifications,
            icon: self.icon@,
        }
    }
}

/// Two service entries are equal field by field (URLs by serialization).
pub open spec fn same_service(a: ServiceView, b: ServiceView) -> bool {
    &&& a.id == b.id
    &&& a.name == b.name
    &&& a.url.serialization == b.url.serialization
    &&& a.profile == b.profile
    &&& a.notifications == b.notifications
    &&& same_icon(a.icon, b.icon)
}

impl Clone for ServiceConfig {
    fn clone(&self) -> (r: Self)
        ensures
            r@ == self@,
    {
        ServiceConfig {
            id: self.id.clone(),
            name: self.name.clone(),
            url: self.url.clone(),
            profile: self.profile.clone(),
            notifications: self.notifications,
            icon: self.icon.clone(),
        }
    }
}

impl PartialEq for ServiceConfig {
    fn eq(&self, other: &Self) -> (r: bool) {
        self.id == other.id && self.name == other.name && self.url.serialization
            == other.url.serialization && self.profile == other.profile && self.notifications
            == other.notifications && self.icon == other.icon
    }
}

impl vstd::std_specs::cmp::PartialEqSpecImpl for ServiceConfig {
    open spec fn obeys_eq_spec() -> bool {
        true
    }

    open spec fn eq_spec(&self, other: &Self) -> bool {
        same_service(self@, other@)
    }
}

/// Two service lists are equal: same length, equal entry by entry.
pub open spec fn same_services(a: Seq<ServiceView>, b: Seq<ServiceView>) -> bool {
    a.len() == b.len() && forall|i: int| 0 <= i < a.len() ==> same_service(#[trigger] a[i], b[i])
}

/// The views of `services`, in order.
pub open spec fn service_views(services: Seq<ServiceConfig>) -> Seq<ServiceView> {
    services.map_values(|s: ServiceConfig| s@)
}

/// Whether two service lists are equal, entry by entry, in order.
pub fn services_equal(a: &Vec<ServiceConfig>, b: &Vec<ServiceConfig>) -> (r: bool)
    ensures
        r == same_services(service_views(a@), service_views(b@)),
{
    if a.len() != b.len() {
        return false;
    }
    let mut i: usize = 0;
    while i < a.len()
        invariant
            a.len() == b.len(),
            i <= a.len(),
            forall|j: int| 0 <= j < i ==> same_service(#[trigger] a@[j]@, b@[j]@),
        decreases a.len() - i,
    {
        if !(a[i] == b[i]) {
            assert(!same_service(service_views(a@)[i as int], service_views(b@)[i as int]));
            return false;
        }
        i = i + 1;
    }
    true
}

/// The full contents of `config.toml`. `services` keeps file order, which
/// is sidebar order.
#[derive(Debug)]
pub struct Config {
    pub version: u32,
    pub settings: Settings,
    pub services: Vec<ServiceConfig>,
}

impl Clone for Config {
    fn clone(&self) -> (r: Self)
        ensures
            r.version == self.version,
            r.settings == self.settings,
            service_views(r.services@) == service_views(self.services@),
    {
        let mut services: Vec<ServiceConfig> = Vec::new();
        let mut i: usize = 0;
        while i < self.services.len()
            invariant
                i <= self.services.len(),
                services@.len() == i,
                forall|j: int| 0 <= j < i ==> (#[trigger] services@[j])@ == self.services@[j]@,
            decreases self.services.len() - i,
        {
            services.push(self.services[i].clone());
            i = i + 1;
        }
        assert(service_views(services@) =~= service_views(self.services@));
        Config { version: self.version, settings: self.settings, services }
    }
}

impl PartialEq for Config {
    fn eq(&self, other: &Self) -> (r: bool) {
        self.version == other.version && self.settings == other.settings && services_equal(
            &self.services,
            &other.services,
        )
    }
}

impl vstd::std_specs::cmp::PartialEqSpecImpl for Config {
    open spec fn obeys_eq_spec() -> bool {
        true
    }

    open spec fn eq_spec(&self, other: &Self) -> bool {
        &&& self.version == other.version
        &&& self.settings == other.settings
        &&& same_services(service_views(self.services@), service_views(other.services@))
    }
}

impl Config {
    /// The configuration written on first launch: version 1, every
    /// setting at its documented value, and no services.
    pub fn initial() -> (c: Self)
        ensures
            c.version == 1,
            c.settings == (Settings {
                reconcile_interval_seconds: 60,
                notifications: true,
                notification_batch_threshold: 5,
                badge_sidebar: true,
            }),
            c.services@.len() == 0,
    {
        Config {
            version: 1,
            settings: Settings {
                reconcile_interval_seconds: 60,
                notifications: true,
                notification_batch_threshold: 5,
                badge_sidebar: true,
            },
            services: Vec::new(),
        }
    }
}

/// A `config.toml` load, parse or validation failure: the file, a dotted
/// or indexed key path (`None` only for failures before any key is read,
/// such as I/O and syntax errors), and the reason.
#[derive(Debug)]
pub struct ConfigError {
    pub file: String,
    pub key: Option<String>,
    pub reason: String,
}

impl Clone for ConfigError {
    fn clone(&self) -> (r: Self)
        ensures
            r.file@ == self.file@,
            r.reason@ == self.reason@,
            r.key is Some <==> self.key is Some,
            r.key matches Some(k) ==> k@ == self.key->0@,
    {
        ConfigError {
            file: self.file.clone(),
            key: match &self.key {
                Some(k) => Some(k.clone()),
                None => None,
            },
            reason: self.reason.clone(),
        }
    }
}

/// The key shown for a failure: the key path, or `<root>` when there is
/// none.
pub open spec fn key_text(key: Option<Seq<char>>) -> Seq<char> {
    match key {
        Some(k) => k,
        None => "<root>"@,
    }
}

/// The view of an optional string.
pub open spec fn opt_view(s: Option<String>) -> Option<Seq<char>> {
    match s {
        Some(x) => Some(x@),
        None => None,
    }
}

/// The placeholder shown for [`ConfigError::key`] when a failure has no
/// key, so every message keeps the `<file>: <key>: <reason>` shape.
pub fn key_or_root(key: &Option<String>) -> (s: &str)
    ensures
        s@ == key_text(opt_view(*key)),
{
    match key {
        Some(k) => k.as_str(),
        None => "<root>",
    }
}

impl ConfigError {
    /// `<file>: <key>: <reason>`, with `<root>` for a missing key.
    pub fn message(&self) -> (m: String)
        ensures
            m@ == self.file@ + ": "@ + key_text(opt_view(self.key)) + ": "@ + self.reason@,
    {
        let head = join3(self.file.as_str(), ": ", key_or_root(&self.key));
        join3(head.as_str(), ": ", self.reason.as_str())
    }
}

impl From<ConfigError> for AppError {
    fn from(err: ConfigError) -> (r: Self)
        ensures
            r matches AppError::Config(m) && m@ == err.file@ + ": "@ + key_text(opt_view(err.key))
                + ": "@ + err.reason@,
    {
        AppError::Config(err.message())
    }
}

impl vstd::std_specs::convert::FromSpecImpl<ConfigError> for AppError {
    /// The message is built at run time, so no spec-level `from` value
    /// is given; `from`'s own `ensures` states what it returns.
    open spec fn obeys_from_spec() -> bool {
        false
    }

    open spec fn from_spec(v: ConfigError) -> Self {
        arbitrary()
    }
}

} // verus!
