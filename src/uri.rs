use vstd::prelude::*;

verus! {

/// A parsed URI as text: what a protocol decoder reads of a link.
pub struct Uri {
    /// The scheme, without the `:`.
    pub scheme: String,
    /// The user name of the userinfo part, empty where there is none.
    pub username: String,
    /// The password of the userinfo part.
    pub password: Option<String>,
    /// The host as it stands in the URI (brackets kept for IPv6).
    pub host: Option<String>,
    /// The explicit port, if it is not the scheme's default.
    pub port: Option<u16>,
    /// The path.
    pub path: String,
    /// The query's key/value pairs, percent-decoded, in order of appearance.
    pub query: Vec<(String, String)>,
    /// The fragment, without the `#`, still percent-encoded.
    pub fragment: Option<String>,
}

/// The mathematical content of a `Uri`.
pub struct UriView {
    pub scheme: Seq<char>,
    pub username: Seq<char>,
    pub password: Option<Seq<char>>,
    pub host: Option<Seq<char>>,
    pub port: Option<u16>,
    pub path: Seq<char>,
    pub query: Seq<(Seq<char>, Seq<char>)>,
    pub fragment: Option<Seq<char>>,
}

pub open spec fn opt_text(o: Option<String>) -> Option<Seq<char>> {
    match o {
        Some(s) => Some(s@),
        None => None,
    }
}

impl View for Uri {
    type V = UriView;

    open spec fn view(&self) -> UriView {
        UriView {
            scheme: self.scheme@,
            username: self.username@,
            password: opt_text(self.password),
            host: opt_text(self.host),
            port: self.port,
            path: self.path@,
            query: self.query@.map_values(|p: (String, String)| (p.0@, p.1@)),
            fragment: opt_text(self.fragment),
        }
    }
}

pub open spec fn opt_uri(o: Option<Uri>) -> Option<UriView> {
    match o {
        Some(u) => Some(u@),
        None => None,
    }
}

/// What URI parsing makes of a text: `None` where it is no URI.
pub uninterp spec fn uri_of(s: Seq<char>) -> Option<UriView>;

/// Relies on `url::Url::parse` and the accessors of `url::Url`: parsing
/// depends on the text alone, and each field is read off the parsed URL.
#[verifier::external_body]
pub(crate) fn parse_uri(s: &str) -> (r: Option<Uri>)
    ensures
        opt_uri(r) == uri_of(s@),
{
    let u = url::Url::parse(s).ok()?;
    Some(Uri {
        scheme: u.scheme().into(),
        username: u.username().into(),
        password: u.password().map(String::from),
        host: u.host_str().map(String::from),
        port: u.port(),
        path: u.path().into(),
        query: u.query_pairs().map(|(k, v)| (k.into(), v.into())).collect(),
        fragment: u.fragment().map(String::from),
    })
}

/// Unicode's `White_Space` property.
pub open spec fn is_white_space(c: char) -> bool {
    let n = c as u32;
    (9 <= n <= 13) || n == 32 || n == 0x85 || n == 0xa0 || n == 0x1680 || (0x2000 <= n <= 0x200a)
        || n == 0x2028 || n == 0x2029 || n == 0x202f || n == 0x205f || n == 0x3000
}

pub open spec fn trim_start(s: Seq<char>) -> Seq<char>
    decreases s.len(),
{
    if s.len() > 0 && is_white_space(s[0]) {
        trim_start(s.drop_first())
    } else {
        s
    }
}

pub open spec fn trim_end(s: Seq<char>) -> Seq<char>
    decreases s.len(),
{
    if s.len() > 0 && is_white_space(s.last()) {
        trim_end(s.drop_last())
    } else {
        s
    }
}

/// The text without leading and trailing white space.
pub open spec fn trimmed(s: Seq<char>) -> Seq<char> {
    trim_end(trim_start(s))
}

/// Relies on `str::trim`: it removes leading and trailing characters that
/// have Unicode's `White_Space` property.
#[verifier::external_body]
pub(crate) fn trim(s: &str) -> (r: &str)
    ensures
        r@ == trimmed(s@),
{
    s.trim()
}

} // verus!
