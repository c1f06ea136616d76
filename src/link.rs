use vstd::prelude::*;

use crate::error::DecodeError;
use crate::ledger::{
    is_least_key, key_equal, key_lt, lemma_key_lt_irreflexive, lemma_key_lt_transitive, pairs_map,
    QueryMap,
};
use crate::uri::{parse_uri, trim, trimmed, uri_of, Uri};

verus! {

/// The protocols that share links name by their scheme.
#[derive(Debug, Clone, Copy, PartialEq, Eq, Structural)]
pub enum Protocol {
    Shadowsocks,
    Trojan,
    Http,
    Socks5,
}

/// Decoding of the protocol-specific part of a share link.
///
/// An implementation takes out of `queries` every key that it recognises;
/// what it leaves behind makes the whole link fail.
pub trait ProtocolDecoder {
    type Proxy;

    fn decode(&self, protocol: Protocol, url: &Uri, queries: &mut QueryMap) -> Result<
        Self::Proxy,
        DecodeError,
    >;
}

/// `c` with ASCII upper case letters mapped to lower case, as a code point.
pub open spec fn ascii_lower_code(c: char) -> u32 {
    if 65 <= c as u32 <= 90 {
        (c as u32 + 32) as u32
    } else {
        c as u32
    }
}

/// Equality of texts, ASCII letters compared without regard to case.
pub open spec fn eq_ignore_ascii_case(a: Seq<char>, b: Seq<char>) -> bool {
    &&& a.len() == b.len()
    &&& forall|i: int| 0 <= i < a.len() ==> ascii_lower_code(#[trigger] a[i]) == ascii_lower_code(b[i])
}

/// Compares two texts, ASCII letters without regard to case.
pub fn text_eq_ignore_ascii_case(a: &str, b: &str) -> (r: bool)
    ensures
        r == eq_ignore_ascii_case(a@, b@),
{
    let la = a.unicode_len();
    let lb = b.unicode_len();
    if la != lb {
        return false;
    }
    let mut i: usize = 0;
    while i < la
        invariant
            la == a@.len(),
            lb == b@.len(),
            la == lb,
            i <= la,
            forall|j: int| 0 <= j < i ==> ascii_lower_code(#[trigger] a@[j]) == ascii_lower_code(b@[j]),
        decreases la - i,
    {
        let x = a.get_char(i) as u32;
        let y = b.get_char(i) as u32;
        let lx = if 65 <= x && x <= 90 { x + 32 } else { x };
        let ly = if 65 <= y && y <= 90 { y + 32 } else { y };
        if lx != ly {
            return false;
        }
        i = i + 1;
    }
    true
}

/// The domain of a messaging service whose web links are not proxies.
pub open spec fn reserved_domain() -> Seq<char> {
    seq!['t', '.', 'm', 'e']
}

/// Whether a host is the reserved messaging domain, in any letter case.
pub open spec fn is_reserved_host(host: Option<Seq<char>>) -> bool {
    host matches Some(h) && eq_ignore_ascii_case(h, reserved_domain())
}

pub open spec fn scheme_ss() -> Seq<char> {
    seq!['s', 's']
}

pub open spec fn scheme_trojan() -> Seq<char> {
    seq!['t', 'r', 'o', 'j', 'a', 'n']
}

pub open spec fn scheme_http() -> Seq<char> {
    seq!['h', 't', 't', 'p']
}

pub open spec fn scheme_https() -> Seq<char> {
    seq!['h', 't', 't', 'p', 's']
}

pub open spec fn scheme_socks5() -> Seq<char> {
    seq!['s', 'o', 'c', 'k', 's', '5']
}

/// The protocol that a link with this scheme and host is decoded as.
pub open spec fn protocol_for(scheme: Seq<char>, host: Option<Seq<char>>) -> Result<
    Protocol,
    DecodeError,
> {
    if scheme == scheme_ss() {
        Ok(Protocol::Shadowsocks)
    } else if scheme == scheme_trojan() {
        Ok(Protocol::Trojan)
    } else if scheme == scheme_http() || scheme == scheme_https() {
        if is_reserved_host(host) {
            Err(DecodeError::UnknownScheme)
        } else {
            Ok(Protocol::Http)
        }
    } else if scheme == scheme_socks5() {
        Ok(Protocol::Socks5)
    } else {
        Err(DecodeError::UnknownScheme)
    }
}

/// Picks the decoder for a parsed link by its scheme.
pub fn select_protocol(url: &Uri) -> (r: Result<Protocol, DecodeError>)
    ensures
        r == protocol_for(url@.scheme, url@.host),
{
    proof {
        reveal_strlit("ss");
        reveal_strlit("trojan");
        reveal_strlit("http");
        reveal_strlit("https");
        reveal_strlit("socks5");
        reveal_strlit("t.me");
    }
    let scheme = url.scheme.as_str();
    if key_equal(scheme, "ss") {
        assert("ss"@ =~= scheme_ss());
        Ok(Protocol::Shadowsocks)
    } else if key_equal(scheme, "trojan") {
        assert("trojan"@ =~= scheme_trojan());
        Ok(Protocol::Trojan)
    } else if key_equal(scheme, "http") || key_equal(scheme, "https") {
        assert("http"@ =~= scheme_http());
        assert("https"@ =~= scheme_https());
        assert("t.me"@ =~= reserved_domain());
        let reserved = match &url.host {
            Some(h) => text_eq_ignore_ascii_case(h.as_str(), "t.me"),
            None => false,
        };
        if reserved {
            Err(DecodeError::UnknownScheme)
        } else {
            Ok(Protocol::Http)
        }
    } else if key_equal(scheme, "socks5") {
        assert("socks5"@ =~= scheme_socks5());
        Ok(Protocol::Socks5)
    } else {
        assert("ss"@ =~= scheme_ss());
        assert("trojan"@ =~= scheme_trojan());
        assert("http"@ =~= scheme_http());
        assert("https"@ =~= scheme_https());
        assert("socks5"@ =~= scheme_socks5());
        Err(DecodeError::UnknownScheme)
    }
}

/// The outcome of a link once its decoder has returned: the decoder's error
/// stands; a proxy stands only where no query parameter is left over, and
/// otherwise the least leftover key is reported.
pub fn finish_decode<P>(decoded: Result<P, DecodeError>, queries: &QueryMap) -> (r: Result<
    P,
    DecodeError,
>)
    ensures
        decoded is Err ==> r == decoded,
        decoded is Ok && queries@.dom() == Set::<Seq<char>>::empty() ==> r == decoded,
        decoded is Ok && queries@.dom() != Set::<Seq<char>>::empty() ==> (r matches Err(
            DecodeError::ExtraParameters(k),
        ) && is_least_key(queries@, k@)),
        r is Ok <==> (decoded is Ok && queries@.dom() == Set::<Seq<char>>::empty()),
{
    match decoded {
        Err(e) => Err(e),
        Ok(proxy) => match queries.first_key() {
            Some(k) => Err(DecodeError::ExtraParameters(k.clone())),
            None => Ok(proxy),
        },
    }
}

/// A link made ready for its decoder: the protocol, the parsed URI, and the
/// ledger of its query pairs.
pub struct PreparedLink {
    pub protocol: Protocol,
    pub url: Uri,
    pub queries: QueryMap,
}

/// Parses a link, collects its query pairs, and picks its protocol.
pub fn prepare_link(link: &str) -> (r: Result<PreparedLink, DecodeError>)
    ensures
        match uri_of(trimmed(link@)) {
            None => r matches Err(DecodeError::InvalidUrl),
            Some(u) => match protocol_for(u.scheme, u.host) {
                Err(e) => r == Err::<PreparedLink, DecodeError>(e),
                Ok(p) => r matches Ok(l) && l.protocol == p && l.url@ == u && l.queries@ == pairs_map(
                    u.query,
                ),
            },
        },
{
    let text = trim(link);
    let url = match parse_uri(text) {
        Some(u) => u,
        None => return Err(DecodeError::InvalidUrl),
    };
    let protocol = match select_protocol(&url) {
        Ok(p) => p,
        Err(e) => return Err(e),
    };
    let queries = QueryMap::from_pairs(&url.query);
    Ok(PreparedLink { protocol, url, queries })
}

/// Decodes a share link into a proxy with the protocol decoders `decoders`.
///
/// Text that is no URI fails with `InvalidUrl`; a scheme that no decoder
/// handles, or a web link to the reserved messaging domain, with
/// `UnknownScheme`. Otherwise the decoder's error stands, and a query
/// parameter that it left in the ledger fails the link with
/// `ExtraParameters`.
pub fn decode_share_link<D: ProtocolDecoder>(link: &str, decoders: &D) -> (r: Result<
    D::Proxy,
    DecodeError,
>)
    ensures
        match uri_of(trimmed(link@)) {
            None => r matches Err(DecodeError::InvalidUrl),
            Some(u) => match protocol_for(u.scheme, u.host) {
                Err(e) => r == Err::<D::Proxy, DecodeError>(e),
                Ok(_) => true,
            },
        },
        r is Ok ==> (uri_of(trimmed(link@)) matches Some(u) && protocol_for(u.scheme, u.host) is Ok),
{
    let mut prepared = match prepare_link(link) {
        Ok(l) => l,
        Err(e) => return Err(e),
    };
    let decoded = decoders.decode(prepared.protocol, &prepared.url, &mut prepared.queries);
    finish_decode(decoded, &prepared.queries)
}

/// A scheme other than `ss`, `trojan`, `http`, `https` and `socks5` is
/// rejected as unknown, whatever the host.
pub proof fn lemma_unknown_scheme_rejected(scheme: Seq<char>, host: Option<Seq<char>>)
    requires
        scheme != scheme_ss(),
        scheme != scheme_trojan(),
        scheme != scheme_http(),
        scheme != scheme_https(),
        scheme != scheme_socks5(),
    ensures
        protocol_for(scheme, host) == Err::<Protocol, DecodeError>(DecodeError::UnknownScheme),
{
}

/// A web link whose host is the reserved messaging domain, in any letter
/// case, is rejected as an unknown scheme.
pub proof fn lemma_reserved_host_rejected(scheme: Seq<char>, host: Seq<char>)
    requires
        scheme == scheme_http() || scheme == scheme_https(),
        eq_ignore_ascii_case(host, reserved_domain()),
    ensures
        protocol_for(scheme, Some(host)) == Err::<Protocol, DecodeError>(DecodeError::UnknownScheme),
{
}

/// The leftover key that a failed link reports is determined by the
/// leftover parameters alone: a ledger has at most one least key.
pub proof fn lemma_least_key_unique(m: Map<Seq<char>, Seq<char>>, a: Seq<char>, b: Seq<char>)
    requires
        is_least_key(m, a),
        is_least_key(m, b),
    ensures
        a == b,
{
    if a != b {
        assert(key_lt(a, b));
        assert(key_lt(b, a));
        lemma_key_lt_transitive(a, b, a);
        lemma_key_lt_irreflexive(a);
    }
}

} // verus!
