//! Shared "is this host/address safe to contact" checks: a loopback,
//! private or link-local destination is never contacted, whether it is
//! named literally (an IP-literal host) or reached by resolving a domain
//! name (a resolved address).

use vstd::prelude::*;

use crate::weburl::{HostView, UrlHost};

verus! {

/// An IP address: four octets (IPv4) or eight 16-bit segments (IPv6).
#[derive(Debug, Clone, Copy)]
pub enum IpAddress {
    V4([u8; 4]),
    V6([u16; 8]),
}

/// `127.0.0.0/8`, `10.0.0.0/8`, `172.16.0.0/12`, `192.168.0.0/16` or
/// `169.254.0.0/16`.
pub open spec fn ipv4_disallowed(o: Seq<u8>) -> bool {
    ||| o[0] == 127
    ||| o[0] == 10
    ||| o[0] == 172 && 16 <= o[1] <= 31
    ||| o[0] == 192 && o[1] == 168
    ||| o[0] == 169 && o[1] == 254
}

/// The IPv4 address an IPv4-mapped IPv6 address (`::ffff:a.b.c.d`) carries.
pub open spec fn mapped_octets(s: Seq<u16>) -> Seq<u8> {
    seq![(s[6] / 256) as u8, (s[6] % 256) as u8, (s[7] / 256) as u8, (s[7] % 256) as u8]
}

/// `s[0..5]` are zero and `s[5]` is `0xffff`: an IPv4-mapped address.
pub open spec fn ipv4_mapped(s: Seq<u16>) -> bool {
    s[0] == 0 && s[1] == 0 && s[2] == 0 && s[3] == 0 && s[4] == 0 && s[5] == 0xffff
}

/// `::1`, an IPv4-mapped address whose IPv4 address is disallowed,
/// `fe80::/10` or `fc00::/7`.
pub open spec fn ipv6_disallowed(s: Seq<u16>) -> bool {
    ||| (s[0] == 0 && s[1] == 0 && s[2] == 0 && s[3] == 0 && s[4] == 0 && s[5] == 0 && s[6] == 0
        && s[7] == 1)
    ||| ipv4_mapped(s) && ipv4_disallowed(mapped_octets(s))
    ||| 0xfe80 <= s[0] <= 0xfebf
    ||| 0xfc00 <= s[0] <= 0xfdff
}

/// A literal IP host is disallowed; a domain (never resolved here) or a
/// missing host is not.
pub open spec fn host_disallowed(h: HostView) -> bool {
    match h {
        HostView::Ipv4(o) => ipv4_disallowed(o),
        HostView::Ipv6(s) => ipv6_disallowed(s),
        _ => false,
    }
}

fn is_disallowed_ipv4(o: &[u8; 4]) -> (r: bool)
    ensures
        r == ipv4_disallowed(o@),
{
    let a = o[0];
    let b = o[1];
    a == 127 || a == 10 || (a == 172 && 16 <= b && b <= 31) || (a == 192 && b == 168) || (a == 169
        && b == 254)
}

fn is_disallowed_ipv6(s: &[u16; 8]) -> (r: bool)
    ensures
        r == ipv6_disallowed(s@),
{
    if s[0] == 0 && s[1] == 0 && s[2] == 0 && s[3] == 0 && s[4] == 0 && s[5] == 0 && s[6] == 0
        && s[7] == 1 {
        return true;
    }
    if s[0] == 0 && s[1] == 0 && s[2] == 0 && s[3] == 0 && s[4] == 0 && s[5] == 0xffff {
        let mapped: [u8; 4] = [(s[6] / 256) as u8, (s[6] % 256) as u8, (s[7] / 256) as u8, (s[7]
            % 256) as u8];
        assert(mapped@ =~= mapped_octets(s@));
        return is_disallowed_ipv4(&mapped);
    }
    0xfe80 <= s[0] && s[0] <= 0xfebf || 0xfc00 <= s[0] && s[0] <= 0xfdff
}

/// Whether `host` is a loopback, private or link-local address. A domain
/// name is never disallowed on this basis (no DNS resolution here).
pub fn is_disallowed_host(host: &UrlHost) -> (r: bool)
    ensures
        r == host_disallowed(host@),
{
    match host {
        UrlHost::Ipv4(o) => is_disallowed_ipv4(o),
        UrlHost::Ipv6(s) => is_disallowed_ipv6(s),
        _ => false,
    }
}

/// Whether a resolved address is loopback, private or link-local.
pub fn is_disallowed_ip(addr: &IpAddress) -> (r: bool)
    ensures
        r == match addr {
            IpAddress::V4(o) => ipv4_disallowed(o@),
            IpAddress::V6(s) => ipv6_disallowed(s@),
        },
{
    match addr {
        IpAddress::V4(o) => is_disallowed_ipv4(o),
        IpAddress::V6(s) => is_disallowed_ipv6(s),
    }
}

} // verus!
