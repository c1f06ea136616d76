use vstd::prelude::*;
use vstd::utf8::{decode_utf8, encode_utf8, valid_utf8};

use crate::error::DecodeError;
use crate::host::{DestinationAddr, HostName, HostView, IpAddress};
use crate::uri::{opt_text, Uri};

verus! {

/// The value of an ASCII hexadecimal digit, if `b` is one.
pub open spec fn hex_value(b: u8) -> Option<u8> {
    if 48 <= b <= 57 {
        Some((b - 48) as u8)
    } else if 65 <= b <= 70 {
        Some((b - 55) as u8)
    } else if 97 <= b <= 102 {
        Some((b - 87) as u8)
    } else {
        None
    }
}

/// Percent-decoding: each `%` followed by two hexadecimal digits becomes
/// the byte they spell; every other byte, a lone `%` included, stays.
pub open spec fn percent_decoded(b: Seq<u8>) -> Seq<u8>
    decreases b.len(),
{
    if b.len() == 0 {
        Seq::empty()
    } else if b[0] == 37 && b.len() >= 3 && hex_value(b[1]) is Some && hex_value(b[2]) is Some {
        seq![(hex_value(b[1])->0 * 16 + hex_value(b[2])->0) as u8] + percent_decoded(b.skip(3))
    } else {
        seq![b[0]] + percent_decoded(b.drop_first())
    }
}

/// The text that percent-decoding `s` and reading the bytes as UTF-8 gives,
/// or `None` where the bytes are no UTF-8.
pub open spec fn percent_decoded_text(s: Seq<char>) -> Option<Seq<char>> {
    let b = percent_decoded(encode_utf8(s));
    if valid_utf8(b) {
        Some(decode_utf8(b))
    } else {
        None
    }
}

/// Relies on `percent_encoding::percent_decode_str` and
/// `PercentDecode::decode_utf8`: the bytes of `s` percent-decoded, then
/// read as UTF-8, which fails on bytes that are no UTF-8.
#[verifier::external_body]
fn percent_decode_text(s: &str) -> (r: Option<String>)
    ensures
        opt_text(r) == percent_decoded_text(s@),
{
    percent_encoding::percent_decode_str(s).decode_utf8().ok().map(|t| t.into_owned())
}

/// The decimal digit for `d < 10`.
pub open spec fn digit_char(d: nat) -> char {
    seq!['0', '1', '2', '3', '4', '5', '6', '7', '8', '9'][d as int]
}

/// A number in decimal, without sign or leading zeros.
pub open spec fn decimal_text(n: nat) -> Seq<char>
    decreases n,
{
    if n < 10 {
        seq![digit_char(n)]
    } else {
        decimal_text(n / 10) + seq![digit_char(n % 10)]
    }
}

/// Relies on `ToString` of `u16`: the number in decimal.
#[verifier::external_body]
fn decimal(n: u16) -> (r: String)
    ensures
        r@ == decimal_text(n as nat),
{
    n.to_string()
}

/// The bracketed text of an IPv6 address, as URLs write it.
pub uninterp spec fn ipv6_host_text(a: [u16; 8]) -> Seq<char>;

/// Relies on the `Display` of `url::Host::Ipv6`: the address in brackets,
/// the longest run of zero groups shortened to `::`; it depends on the
/// address alone.
#[verifier::external_body]
fn ipv6_text(a: [u16; 8]) -> (r: String)
    ensures
        r@ == ipv6_host_text(a),
{
    url::Host::<String>::Ipv6(a.into()).to_string()
}

/// The canonical text of a host.
pub open spec fn host_display(h: HostView) -> Seq<char> {
    match h {
        HostView::Domain(d) => d,
        HostView::Ipv4(a) => decimal_text(a@[0] as nat) + seq!['.'] + decimal_text(a@[1] as nat)
            + seq!['.'] + decimal_text(a@[2] as nat) + seq!['.'] + decimal_text(a@[3] as nat),
        HostView::Ipv6(a) => ipv6_host_text(a),
    }
}

/// The canonical `host:port` text of a destination.
pub open spec fn destination_text(d: DestinationAddr) -> Seq<char> {
    host_display(d.host@) + seq![':'] + decimal_text(d.port as nat)
}

impl DestinationAddr {
    /// The canonical `host:port` text.
    pub fn to_string(&self) -> (r: String)
        ensures
            r@ == destination_text(*self),
    {
        let mut s = String::new();
        match &self.host {
            HostName::DomainName(d) => {
                s.append(d.as_str());
            },
            HostName::Ip(IpAddress::V4(a)) => {
                let mut i: usize = 0;
                while i < 4
                    invariant
                        i <= 4,
                        s@ == octets_text(*a, i as int),
                    decreases 4 - i,
                {
                    proof {
                        reveal_strlit(".");
                    }
                    if i > 0 {
                        s.append(".");
                    }
                    let part = decimal(a[i] as u16);
                    s.append(part.as_str());
                    i = i + 1;
                }
                proof {
                    reveal_with_fuel(octets_text, 5);
                }
                assert(s@ =~= host_display(self.host@));
            },
            HostName::Ip(IpAddress::V6(a)) => {
                let t = ipv6_text(*a);
                s.append(t.as_str());
            },
        }
        assert(s@ == host_display(self.host@));
        proof {
            reveal_strlit(":");
        }
        s.append(":");
        let p = decimal(self.port);
        s.append(p.as_str());
        s
    }
}

/// The first `n` octets of `a` in decimal, joined by dots.
pub open spec fn octets_text(a: [u8; 4], n: int) -> Seq<char>
    decreases n,
{
    if n <= 0 {
        Seq::empty()
    } else if n == 1 {
        decimal_text(a@[0] as nat)
    } else {
        octets_text(a, n - 1) + seq!['.'] + decimal_text(a@[n - 1] as nat)
    }
}

/// The display name of a link: its fragment, percent-decoded once, or the
/// destination's canonical text where the link has no fragment.
pub fn extract_name_from_frag(url: &Uri, dest: &DestinationAddr) -> (r: Result<String, DecodeError>)
    ensures
        match url.fragment {
            None => r matches Ok(n) && n@ == destination_text(*dest),
            Some(f) => match percent_decoded_text(f@) {
                Some(t) => r matches Ok(n) && n@ == t,
                None => r matches Err(DecodeError::InvalidEncoding),
            },
        },
{
    match &url.fragment {
        Some(f) => match percent_decode_text(f.as_str()) {
            Some(t) => Ok(t),
            None => Err(DecodeError::InvalidEncoding),
        },
        None => Ok(dest.to_string()),
    }
}

} // verus!
