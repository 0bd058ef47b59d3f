//! Icon resolution rules: which sources to try for a service's sidebar
//! icon and in what order, the checks a user's URL override must pass,
//! and the plain values the resolver works with.

use vstd::prelude::*;

use crate::config::model::IconView;
use crate::config::IconSource;
use crate::error::AppError;
use crate::net_guard::{host_disallowed, is_disallowed_host};
use crate::text::join2;
use crate::weburl::{HostView, ParsedUrl, UrlHost, UrlView};

pub mod book;
pub mod fetch;

pub use book::IconBook;

verus! {

/// The side length, in pixels, every cached icon is normalised to.
pub const ICON_SIZE: u32 = 128;

/// Where an image of `width` by `height` pixels (already scaled to fit
/// [`ICON_SIZE`]) is placed on the square transparent canvas: centred,
/// rounding down, at the edge in a dimension it fills.
pub fn canvas_offsets(width: u32, height: u32) -> (o: (u32, u32))
    ensures
        o.0 == (if width >= ICON_SIZE { 0 } else { (ICON_SIZE - width) / 2 }),
        o.1 == (if height >= ICON_SIZE { 0 } else { (ICON_SIZE - height) / 2 }),
{
    let x = if width >= ICON_SIZE { 0 } else { (ICON_SIZE - width) / 2 };
    let y = if height >= ICON_SIZE { 0 } else { (ICON_SIZE - height) / 2 };
    (x, y)
}

/// The source a user picks for a service's icon: the favicon, an image
/// file anywhere on disk (copied into the data directory before use), or
/// a URL.
#[derive(Debug)]
pub enum IconOverride {
    Favicon,
    File(String),
    Url(ParsedUrl),
}

/// One source to try, in order; the first that yields an image wins.
#[derive(Debug)]
pub enum ResolutionStep {
    /// The installed override file, relative to the data directory.
    OverrideFile(String),
    /// A URL to download: the user's URL override or an agent candidate.
    Fetch(ParsedUrl),
}

/// The spec-level value of a [`ResolutionStep`].
pub enum StepView {
    OverrideFile(Seq<char>),
    Fetch(UrlView),
}

impl View for ResolutionStep {
    type V = StepView;

    open spec fn view(&self) -> StepView {
        match self {
            ResolutionStep::OverrideFile(p) => StepView::OverrideFile(p@),
            ResolutionStep::Fetch(u) => StepView::Fetch(u@),
        }
    }
}

impl PartialEq for ResolutionStep {
    fn eq(&self, other: &Self) -> (r: bool) {
        match (self, other) {
            (ResolutionStep::OverrideFile(a), ResolutionStep::OverrideFile(b)) => *a == *b,
            (ResolutionStep::Fetch(a), ResolutionStep::Fetch(b)) => a.serialization == b.serialization,
            _ => false,
        }
    }
}

impl Eq for ResolutionStep {}

impl vstd::std_specs::cmp::PartialEqSpecImpl for ResolutionStep {
    open spec fn obeys_eq_spec() -> bool {
        true
    }

    open spec fn eq_spec(&self, other: &Self) -> bool {
        match (self@, other@) {
            (StepView::OverrideFile(a), StepView::OverrideFile(b)) => a == b,
            (StepView::Fetch(a), StepView::Fetch(b)) => a.serialization == b.serialization,
            _ => false,
        }
    }
}

/// Why a user's URL override was refused.
#[derive(Debug, Clone, Copy, PartialEq, Eq, Structural)]
pub enum IconOverrideError {
    InvalidScheme,
    DisallowedHost,
}

/// The text of each refusal.
pub open spec fn override_error_text(e: IconOverrideError) -> Seq<char> {
    match e {
        IconOverrideError::InvalidScheme => "icon override URL must be http or https"@,
        IconOverrideError::DisallowedHost => "icon override URL host is loopback, private or link-local"@,
    }
}

impl IconOverrideError {
    /// The refusal's text.
    pub fn message(&self) -> (m: &'static str)
        ensures
            m@ == override_error_text(*self),
    {
        match self {
            IconOverrideError::InvalidScheme => "icon override URL must be http or https",
            IconOverrideError::DisallowedHost => "icon override URL host is loopback, private or link-local",
        }
    }
}

impl From<IconOverrideError> for AppError {
    fn from(err: IconOverrideError) -> (r: Self)
        ensures
            r matches AppError::Icon(m) && m@ == override_error_text(err),
    {
        AppError::Icon(String::from_str(err.message()))
    }
}

impl vstd::std_specs::convert::FromSpecImpl<IconOverrideError> for AppError {
    /// The message is a run-time string, so no spec-level `from` value is
    /// given; `from`'s own `ensures` states what it returns.
    open spec fn obeys_from_spec() -> bool {
        false
    }

    open spec fn from_spec(v: IconOverrideError) -> Self {
        arbitrary()
    }
}

/// The refusal a URL override earns, if any: not http or https (a URL
/// without a host counts as that too), or a loopback, private or
/// link-local IP host. No name is resolved here.
pub open spec fn override_error(u: UrlView) -> Option<IconOverrideError> {
    if !(u.scheme == "http"@ || u.scheme == "https"@) {
        Some(IconOverrideError::InvalidScheme)
    } else if u.host is NoHost {
        Some(IconOverrideError::InvalidScheme)
    } else if host_disallowed(u.host) {
        Some(IconOverrideError::DisallowedHost)
    } else {
        None
    }
}

/// Checks a user's URL override like an agent's icon candidate.
pub fn validate_override_url(url: &ParsedUrl) -> (r: Result<(), IconOverrideError>)
    ensures
        match override_error(url@) {
            Some(e) => r == Err::<(), IconOverrideError>(e),
            None => r is Ok,
        },
{
    let http = String::from_str("http");
    let https = String::from_str("https");
    if !(url.scheme == http || url.scheme == https) {
        return Err(IconOverrideError::InvalidScheme);
    }
    if let UrlHost::NoHost = url.host {
        return Err(IconOverrideError::InvalidScheme);
    }
    if is_disallowed_host(&url.host) {
        return Err(IconOverrideError::DisallowedHost);
    }
    Ok(())
}

/// The sources to try for one service: the override first (a file or a
/// URL; a favicon override defers to the candidates), then every
/// candidate in the order the agent gave.
pub open spec fn resolution_steps(override_source: Option<IconView>, candidates: Seq<UrlView>) -> Seq<StepView> {
    let first: Seq<StepView> = match override_source {
        Some(IconView::File(p)) => seq![StepView::OverrideFile(p)],
        Some(IconView::Url(u)) => seq![StepView::Fetch(u)],
        _ => seq![],
    };
    first + candidates.map_values(|u: UrlView| StepView::Fetch(u))
}

/// Builds the ordered list of sources to try (see [`resolution_steps`]).
pub fn resolution_order(override_source: Option<&IconSource>, candidates: &[ParsedUrl]) -> (steps: Vec<
    ResolutionStep,
>)
    ensures
        steps@.map_values(|s: ResolutionStep| s@) == resolution_steps(
            match override_source {
                Some(s) => Some(s@),
                None => None,
            },
            candidates@.map_values(|u: ParsedUrl| u@),
        ),
{
    let mut steps: Vec<ResolutionStep> = Vec::new();
    match override_source {
        Some(IconSource::File(p)) => steps.push(ResolutionStep::OverrideFile(p.clone())),
        Some(IconSource::Url(u)) => steps.push(ResolutionStep::Fetch(u.clone())),
        _ => {},
    }
    let ghost first = steps@.map_values(|s: ResolutionStep| s@);
    let ghost cv = candidates@.map_values(|u: ParsedUrl| u@);
    let mut i: usize = 0;
    while i < candidates.len()
        invariant
            cv == candidates@.map_values(|u: ParsedUrl| u@),
            i <= candidates@.len(),
            steps@.map_values(|s: ResolutionStep| s@) == first + cv.take(i as int).map_values(
                |u: UrlView| StepView::Fetch(u),
            ),
        decreases candidates@.len() - i,
    {
        let ghost before = steps@.map_values(|s: ResolutionStep| s@);
        steps.push(ResolutionStep::Fetch(candidates[i].clone()));
        assert(steps@.map_values(|s: ResolutionStep| s@) =~= before.push(StepView::Fetch(cv[i as int])));
        assert(cv.take(i + 1).map_values(|u: UrlView| StepView::Fetch(u)) =~= cv.take(i as int).map_values(
            |u: UrlView| StepView::Fetch(u),
        ).push(StepView::Fetch(cv[i as int])));
        i = i + 1;
    }
    assert(cv.take(candidates@.len() as int) =~= cv);
    steps
}

/// A cached icon: the PNG's absolute path, and a version (its
/// modification time in Unix seconds) that changes whenever it is
/// rewritten.
#[derive(Debug, Clone, PartialEq, Eq)]
pub struct CachedIcon {
    pub path: String,
    pub version: u64,
}

/// Why an icon download failed.
#[derive(Debug, Clone, PartialEq, Eq)]
pub enum FetchError {
    InvalidScheme,
    DisallowedHost,
    Timeout,
    TooLarge,
    Request(String),
}

/// The largest icon download accepted, in bytes.
pub const MAX_FETCH_BYTES: u64 = 1024 * 1024;

impl FetchError {
    /// The failure's text.
    pub fn message(&self) -> (m: String)
        ensures
            match self {
                FetchError::InvalidScheme => m@ == "iconCandidate URL must be http or https"@,
                FetchError::DisallowedHost => m@ == "iconCandidate host is loopback, private or link-local"@,
                FetchError::Timeout => m@ == "request timed out"@,
                FetchError::TooLarge => m@ == "response exceeded the 1048576 byte cap"@,
                FetchError::Request(d) => m@ == "request failed: "@ + d@,
            },
    {
        match self {
            FetchError::InvalidScheme => String::from_str("iconCandidate URL must be http or https"),
            FetchError::DisallowedHost => String::from_str("iconCandidate host is loopback, private or link-local"),
            FetchError::Timeout => String::from_str("request timed out"),
            FetchError::TooLarge => String::from_str("response exceeded the 1048576 byte cap"),
            FetchError::Request(d) => join2("request failed: ", d.as_str()),
        }
    }
}

/// Why downloaded bytes could not become a cached icon.
#[derive(Debug, Clone, Copy, PartialEq, Eq, Structural)]
pub enum NormalizeError {
    /// Not a supported raster image (an SVG, or corrupt data).
    Decode,
    /// Decoded, but the resized PNG could not be written.
    Encode,
}

impl NormalizeError {
    /// The failure's text.
    pub fn message(&self) -> (m: &'static str)
        ensures
            match self {
                NormalizeError::Decode => m@ == "could not decode image data"@,
                NormalizeError::Encode => m@ == "could not encode PNG"@,
            },
    {
        match self {
            NormalizeError::Decode => "could not decode image data",
            NormalizeError::Encode => "could not encode PNG",
        }
    }
}

} // verus!
