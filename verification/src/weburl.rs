//! The parts of a parsed URL that the library's rules read, held as plain
//! values: its full text, scheme, host and origin. Parsing itself is done
//! by the `url` crate (WHATWG URL parsing).

use vstd::prelude::*;

verus! {

/// The host of a parsed URL.
#[derive(Debug)]
pub enum UrlHost {
    /// No host at all (e.g. `data:` or `about:` URLs).
    NoHost,
    /// A domain name, in its serialized (lowercased, punycoded) form.
    Domain(String),
    /// A literal IPv4 address, as its four octets.
    Ipv4([u8; 4]),
    /// A literal IPv6 address, as its eight 16-bit segments.
    Ipv6([u16; 8]),
}

/// The spec-level value of a [`UrlHost`].
pub enum HostView {
    NoHost,
    Domain(Seq<char>),
    Ipv4(Seq<u8>),
    Ipv6(Seq<u16>),
}

impl View for UrlHost {
    type V = HostView;

    open spec fn view(&self) -> HostView {
        match self {
            UrlHost::NoHost => HostView::NoHost,
            UrlHost::Domain(d) => HostView::Domain(d@),
            UrlHost::Ipv4(a) => HostView::Ipv4(a@),
            UrlHost::Ipv6(a) => HostView::Ipv6(a@),
        }
    }
}

impl Clone for UrlHost {
    fn clone(&self) -> (r: Self)
        ensures
            r@ == self@,
    {
        match self {
            UrlHost::NoHost => UrlHost::NoHost,
            UrlHost::Domain(d) => UrlHost::Domain(d.clone()),
            UrlHost::Ipv4(a) => UrlHost::Ipv4(*a),
            UrlHost::Ipv6(a) => UrlHost::Ipv6(*a),
        }
    }
}

/// A successfully parsed absolute URL.
#[derive(Debug)]
pub struct ParsedUrl {
    /// The URL's full serialization (`Url::as_str`).
    pub serialization: String,
    /// The scheme, lowercase, without the `:`.
    pub scheme: String,
    pub host: UrlHost,
    /// `Some(scheme://host[:port])` for a tuple origin (the port only when
    /// it differs from the scheme's default), `None` for an opaque origin.
    /// Two origins are the same exactly when both are tuples with the
    /// same serialization: an opaque origin equals no other origin.
    pub origin: Option<String>,
}

/// The spec-level value of a [`ParsedUrl`].
pub struct UrlView {
    pub serialization: Seq<char>,
    pub scheme: Seq<char>,
    pub host: HostView,
    pub origin: Option<Seq<char>>,
}

impl View for ParsedUrl {
    type V = UrlView;

    open spec fn view(&self) -> UrlView {
        UrlView {
            serialization: self.serialization@,
            scheme: self.scheme@,
            host: self.host@,
            origin: match self.origin {
                Some(o) => Some(o@),
                None => None,
            },
        }
    }
}

impl Clone for ParsedUrl {
    fn clone(&self) -> (r: Self)
        ensures
            r@ == self@,
    {
        ParsedUrl {
            serialization: self.serialization.clone(),
            scheme: self.scheme.clone(),
            host: self.host.clone(),
            origin: match &self.origin {
                Some(o) => Some(o.clone()),
                None => None,
            },
        }
    }
}

impl PartialEq for ParsedUrl {
    fn eq(&self, other: &Self) -> (r: bool) {
        self.serialization == other.serialization
    }
}

impl Eq for ParsedUrl {}

impl vstd::std_specs::cmp::PartialEqSpecImpl for ParsedUrl {
    open spec fn obeys_eq_spec() -> bool {
        true
    }

    open spec fn eq_spec(&self, other: &Self) -> bool {
        self@.serialization == other@.serialization
    }
}

/// What `url::Url::parse` makes of `text`: the parsed URL's parts, or
/// the text of the parse error when it is not a valid absolute URL.
pub uninterp spec fn url_parse(text: Seq<char>) -> Result<UrlView, Seq<char>>;

/// The parsed URL's parts, or `None` when `text` does not parse.
pub open spec fn parsed_url(text: Seq<char>) -> Option<UrlView> {
    match url_parse(text) {
        Ok(u) => Some(u),
        Err(_) => None,
    }
}

/// Two origins are the same origin: both tuple origins, serialized alike.
pub open spec fn same_origin(a: Option<Seq<char>>, b: Option<Seq<char>>) -> bool {
    a is Some && a == b
}

/// `url::Url::parse(text)`, keeping the parts the library reads, or the
/// parse error's text. The result is named by [`url_parse`]; nothing
/// about WHATWG parsing itself is stated.
#[verifier::external_body]
fn url_crate_parse(text: &str) -> (r: Result<ParsedUrl, String>)
    ensures
        match url_parse(text@) {
            Ok(v) => r matches Ok(u) && u@ == v,
            Err(m) => r matches Err(e) && e@ == m,
        },
{
    let u = url::Url::parse(text).map_err(|err| err.to_string())?;
    let host = match u.host() {
        None => UrlHost::NoHost,
        Some(url::Host::Domain(d)) => UrlHost::Domain(d.to_string()),
        Some(url::Host::Ipv4(a)) => UrlHost::Ipv4(a.octets()),
        Some(url::Host::Ipv6(a)) => UrlHost::Ipv6(a.segments()),
    };
    let origin = match u.origin() {
        o @ url::Origin::Tuple(..) => Some(o.ascii_serialization()),
        url::Origin::Opaque(_) => None,
    };
    Ok(ParsedUrl { serialization: u.to_string(), scheme: u.scheme().to_string(), host, origin })
}

/// Parses `text` as an absolute URL: its serialization, scheme, host and
/// origin, or the parse error's text (see [`url_parse`]).
pub fn parse_url(text: &str) -> (r: Result<ParsedUrl, String>)
    ensures
        match url_parse(text@) {
            Ok(v) => r matches Ok(u) && u@ == v,
            Err(m) => r matches Err(e) && e@ == m,
        },
{
    url_crate_parse(text)
}

/// Whether `a` and `b` have the same origin (an opaque origin matches
/// nothing).
pub fn same_origin_exec(a: &Option<String>, b: &Option<String>) -> (r: bool)
    ensures
        r == same_origin(
            match a { Some(x) => Some(x@), None => None },
            match b { Some(x) => Some(x@), None => None },
        ),
{
    match (a, b) {
        (Some(x), Some(y)) => *x == *y,
        _ => false,
    }
}

} // verus!
