//! The safety rules of an icon download: where a download may start,
//! which redirects it may follow, which resolved addresses it may
//! connect to, and how many bytes it may read. The transfer itself is the
//! platform layer's.

use vstd::prelude::*;

use crate::net_guard::{host_disallowed, ipv4_disallowed, ipv6_disallowed, is_disallowed_host, is_disallowed_ip, IpAddress};
use crate::weburl::{ParsedUrl, UrlView};

use super::{FetchError, MAX_FETCH_BYTES};

verus! {

/// The most redirects one download follows.
pub const MAX_REDIRECTS: usize = 10;

/// A scheme a download may use: `http` or `https`.
pub open spec fn web_scheme(s: Seq<char>) -> bool {
    s == "http"@ || s == "https"@
}

fn is_web_scheme(url: &ParsedUrl) -> (b: bool)
    ensures
        b == web_scheme(url@.scheme),
{
    url.scheme == String::from_str("http") || url.scheme == String::from_str("https")
}

/// Where a download may start: an http(s) URL whose host, if it is a
/// literal address, is not loopback, private or link-local.
pub fn check_initial_destination(url: &ParsedUrl) -> (r: Result<(), FetchError>)
    ensures
        !web_scheme(url@.scheme) ==> r == Err::<(), FetchError>(FetchError::InvalidScheme),
        web_scheme(url@.scheme) && host_disallowed(url@.host) ==> r == Err::<(), FetchError>(
            FetchError::DisallowedHost,
        ),
        web_scheme(url@.scheme) && !host_disallowed(url@.host) ==> r is Ok,
{
    if !is_web_scheme(url) {
        return Err(FetchError::InvalidScheme);
    }
    if is_disallowed_host(&url.host) {
        return Err(FetchError::DisallowedHost);
    }
    Ok(())
}

/// Why a redirect is not followed.
#[derive(Debug, Clone, Copy, PartialEq, Eq, Structural)]
pub enum RedirectRefusal {
    TooManyRedirects,
    NotWebScheme,
    DisallowedDestination,
}

/// Whether a redirect to `url`, after `previous` redirects already
/// followed, is followed: at most [`MAX_REDIRECTS`], to http(s) only, and
/// never to a loopback, private or link-local literal host.
pub fn redirect_decision(previous: usize, url: &ParsedUrl) -> (r: Result<(), RedirectRefusal>)
    ensures
        previous >= MAX_REDIRECTS ==> r == Err::<(), RedirectRefusal>(RedirectRefusal::TooManyRedirects),
        previous < MAX_REDIRECTS && !web_scheme(url@.scheme) ==> r == Err::<(), RedirectRefusal>(
            RedirectRefusal::NotWebScheme,
        ),
        previous < MAX_REDIRECTS && web_scheme(url@.scheme) && host_disallowed(url@.host) ==> r == Err::<
            (),
            RedirectRefusal,
        >(RedirectRefusal::DisallowedDestination),
        previous < MAX_REDIRECTS && web_scheme(url@.scheme) && !host_disallowed(url@.host) ==> r is Ok,
{
    if previous >= MAX_REDIRECTS {
        return Err(RedirectRefusal::TooManyRedirects);
    }
    if !is_web_scheme(url) {
        return Err(RedirectRefusal::NotWebScheme);
    }
    if is_disallowed_host(&url.host) {
        return Err(RedirectRefusal::DisallowedDestination);
    }
    Ok(())
}

/// A resolved address a download may connect to.
pub open spec fn address_allowed(a: IpAddress) -> bool {
    match a {
        IpAddress::V4(o) => !ipv4_disallowed(o@),
        IpAddress::V6(s) => !ipv6_disallowed(s@),
    }
}

/// The resolved addresses of `addrs` a download may connect to, in
/// order. An empty result means the name resolves only to forbidden
/// addresses, and the download fails.
pub fn allowed_addresses(addrs: &[IpAddress]) -> (out: Vec<IpAddress>)
    ensures
        out@ == addrs@.filter(|a: IpAddress| address_allowed(a)),
{
    let mut out: Vec<IpAddress> = Vec::new();
    let mut i: usize = 0;
    while i < addrs.len()
        invariant
            i <= addrs@.len(),
            out@ == addrs@.take(i as int).filter(|a: IpAddress| address_allowed(a)),
        decreases addrs@.len() - i,
    {
        let a = addrs[i];
        proof {
            let t = addrs@.take(i + 1);
            assert(t.drop_last() =~= addrs@.take(i as int));
            assert(t.last() == a);
            addrs@.take(i as int).lemma_filter_push(a, |a: IpAddress| address_allowed(a));
            assert(addrs@.take(i as int).push(a) =~= t);
        }
        if !is_disallowed_ip(&a) {
            out.push(a);
        }
        i = i + 1;
    }
    assert(addrs@.take(addrs@.len() as int) =~= addrs@);
    out
}

/// Whether a response announcing `content_length` bytes may be read: not
/// when it announces more than [`MAX_FETCH_BYTES`].
pub fn declared_length_ok(content_length: Option<u64>) -> (b: bool)
    ensures
        b == match content_length {
            Some(n) => n <= MAX_FETCH_BYTES,
            None => true,
        },
{
    match content_length {
        Some(n) => n <= MAX_FETCH_BYTES,
        None => true,
    }
}

/// Whether a chunk of `chunk_len` bytes may be added to the `received`
/// bytes read so far without passing [`MAX_FETCH_BYTES`].
pub fn chunk_fits(received: u64, chunk_len: u64) -> (b: bool)
    ensures
        b == (received + chunk_len <= MAX_FETCH_BYTES),
{
    received <= MAX_FETCH_BYTES && chunk_len <= MAX_FETCH_BYTES - received
}

} // verus!
