use vstd::prelude::*;

use crate::error::DecodeError;
use crate::uri::Uri;

verus! {

/// A host as the host-literal parser classifies it.
#[derive(Debug, Clone, PartialEq, Eq)]
pub enum HostLiteral {
    Domain(String),
    Ipv4([u8; 4]),
    Ipv6([u16; 8]),
}

/// A numeric address: four octets, or eight 16-bit groups.
#[derive(Debug, Clone, Copy, PartialEq, Eq)]
pub enum IpAddress {
    V4([u8; 4]),
    V6([u16; 8]),
}

/// The host of a destination: a numeric address or a domain name.
#[derive(Debug, Clone, PartialEq, Eq)]
pub enum HostName {
    DomainName(String),
    Ip(IpAddress),
}

/// Where a proxy server is reached.
#[derive(Debug, Clone, PartialEq, Eq)]
pub struct DestinationAddr {
    pub host: HostName,
    pub port: u16,
}

/// The content of a host, whichever of the types above holds it.
pub enum HostView {
    Domain(Seq<char>),
    Ipv4([u8; 4]),
    Ipv6([u16; 8]),
}

impl View for HostLiteral {
    type V = HostView;

    open spec fn view(&self) -> HostView {
        match self {
            HostLiteral::Domain(d) => HostView::Domain(d@),
            HostLiteral::Ipv4(a) => HostView::Ipv4(*a),
            HostLiteral::Ipv6(a) => HostView::Ipv6(*a),
        }
    }
}

impl View for HostName {
    type V = HostView;

    open spec fn view(&self) -> HostView {
        match self {
            HostName::DomainName(d) => HostView::Domain(d@),
            HostName::Ip(IpAddress::V4(a)) => HostView::Ipv4(*a),
            HostName::Ip(IpAddress::V6(a)) => HostView::Ipv6(*a),
        }
    }
}

pub open spec fn opt_host(o: Option<HostLiteral>) -> Option<HostView> {
    match o {
        Some(h) => Some(h@),
        None => None,
    }
}

/// What host-literal parsing makes of a text: `None` where it fails.
pub uninterp spec fn host_literal_of(s: Seq<char>) -> Option<HostView>;

/// Relies on `url::Host::parse`: bracketed IPv6, IPv4 (a text ending in a
/// number) or a percent-decoded, IDNA-checked domain; an empty text fails.
#[verifier::external_body]
fn parse_host_literal(s: &str) -> (r: Option<HostLiteral>)
    ensures
        opt_host(r) == host_literal_of(s@),
        s@.len() == 0 ==> r is None,
{
    match url::Host::parse(s) {
        Ok(url::Host::Domain(d)) => Some(HostLiteral::Domain(d)),
        Ok(url::Host::Ipv4(a)) => Some(HostLiteral::Ipv4(a.octets())),
        Ok(url::Host::Ipv6(a)) => Some(HostLiteral::Ipv6(a.segments())),
        Err(_) => None,
    }
}

/// The host text of a URI, empty where it has none.
pub open spec fn host_text(u: crate::uri::UriView) -> Seq<char> {
    match u.host {
        Some(h) => h,
        None => Seq::empty(),
    }
}

/// Classifies the host of `url` again, with the rules for address literals
/// that hold whatever the scheme is. Schemes such as `ss` or `trojan` are not
/// special to URI parsing, which leaves a dotted IPv4 host as plain text.
pub fn parse_host_transparent(url: &Uri) -> (r: Result<HostName, DecodeError>)
    ensures
        match host_literal_of(host_text(url@)) {
            Some(h) => r matches Ok(n) && n@ == h,
            None => r matches Err(DecodeError::InvalidEncoding),
        },
        url.host is None ==> r matches Err(DecodeError::InvalidEncoding),
{
    let parsed = match &url.host {
        Some(h) => parse_host_literal(h.as_str()),
        None => {
            let empty = String::new();
            parse_host_literal(empty.as_str())
        },
    };
    match parsed {
        Some(host) => Ok(map_host_name(host)),
        None => Err(DecodeError::InvalidEncoding),
    }
}

/// The destination host that a parsed host literal stands for.
pub fn map_host_name(host: HostLiteral) -> (r: HostName)
    ensures
        r@ == host@,
        host matches HostLiteral::Domain(d) ==> r == HostName::DomainName(d),
{
    match host {
        HostLiteral::Domain(d) => HostName::DomainName(d),
        HostLiteral::Ipv4(a) => HostName::Ip(IpAddress::V4(a)),
        HostLiteral::Ipv6(a) => HostName::Ip(IpAddress::V6(a)),
    }
}

} // verus!
