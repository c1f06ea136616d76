use share_link::host::parse_host_transparent;
use share_link::host::map_host_name;
use share_link::link::{finish_decode, prepare_link, select_protocol, text_eq_ignore_ascii_case};
use share_link::name::extract_name_from_frag;
use share_link::{
    decode_base64, decode_share_link, DecodeError, DestinationAddr, HostLiteral, HostName,
    IpAddress, Protocol, ProtocolDecoder, QueryMap, Uri,
};

fn parsed(link: &str) -> Uri {
    prepare_link(link).ok().unwrap().url
}

/// A decoder that recognises the keys it was given and reports the protocol.
struct KeyTaker {
    known: Vec<&'static str>,
}

impl ProtocolDecoder for KeyTaker {
    type Proxy = (Protocol, Option<String>);

    fn decode(
        &self,
        protocol: Protocol,
        url: &Uri,
        queries: &mut QueryMap,
    ) -> Result<Self::Proxy, DecodeError> {
        if url.host.is_none() {
            return Err(DecodeError::MissingInfo("host"));
        }
        for k in &self.known {
            queries.remove(k);
        }
        Ok((protocol, url.host.clone()))
    }
}

fn taker(known: &[&'static str]) -> KeyTaker {
    KeyTaker { known: known.to_vec() }
}

#[test]
fn test_extract_name_from_frag() {
    let url = parsed("ss://test#cabc%2fabca");
    let dest = DestinationAddr {
        host: HostName::DomainName("example.com".into()),
        port: 1234,
    };
    assert_eq!(
        extract_name_from_frag(&url, &dest).unwrap(),
        "cabc/abca".to_string()
    );
}

#[test]
fn test_extract_name_from_frag_invalid() {
    let url = parsed("ss://test#cabc%ff%ffabca");
    let dest = DestinationAddr {
        host: HostName::DomainName("example.com".into()),
        port: 1234,
    };
    assert_eq!(
        extract_name_from_frag(&url, &dest),
        Err(DecodeError::InvalidEncoding)
    );
}

#[test]
fn test_parse_host_transparent() {
    let cases = [
        ("3.187.225.7", HostName::Ip(IpAddress::V4([3, 187, 225, 7]))),
        ("a.co", HostName::DomainName("a.co".into())),
        ("[::1]", HostName::Ip(IpAddress::V6([0, 0, 0, 0, 0, 0, 0, 1]))),
    ];
    for (host_part, expected_host) in cases {
        let url = parsed(&format!("ss://{}:1080", host_part));
        let host = parse_host_transparent(&url).unwrap();
        assert_eq!(host, expected_host);
    }
}

#[test]
fn test_parse_host_transparent_invalid_encoding() {
    let url = parsed("ss://a%25b:34187");
    let host = parse_host_transparent(&url);
    assert_eq!(host.unwrap_err(), DecodeError::InvalidEncoding);
}

#[test]
fn test_map_host_name() {
    let cases = [
        (
            HostLiteral::Ipv4([3, 187, 225, 7]),
            HostName::Ip(IpAddress::V4([3, 187, 225, 7])),
        ),
        (
            HostLiteral::Domain("a.co".into()),
            HostName::DomainName("a.co".into()),
        ),
        (
            HostLiteral::Ipv6([0, 0, 0, 0, 0, 0, 0, 1]),
            HostName::Ip(IpAddress::V6([0, 0, 0, 0, 0, 0, 0, 1])),
        ),
    ];
    for (host, expected_host) in cases {
        assert_eq!(map_host_name(host), expected_host);
    }
}

#[test]
fn host_without_text_is_invalid_encoding() {
    let url = Uri {
        scheme: "ss".into(),
        username: String::new(),
        password: None,
        host: None,
        port: None,
        path: String::new(),
        query: vec![],
        fragment: None,
    };
    assert_eq!(parse_host_transparent(&url), Err(DecodeError::InvalidEncoding));
}

#[test]
fn name_without_fragment_is_destination_text() {
    let url = parsed("ss://test");
    let dest = DestinationAddr {
        host: HostName::DomainName("example.com".into()),
        port: 1234,
    };
    assert_eq!(extract_name_from_frag(&url, &dest).unwrap(), "example.com:1234");
}

#[test]
fn name_fragment_is_decoded_once() {
    let url = parsed("ss://test#a%2525b");
    let dest = DestinationAddr {
        host: HostName::DomainName("example.com".into()),
        port: 1,
    };
    assert_eq!(extract_name_from_frag(&url, &dest).unwrap(), "a%25b");
}

#[test]
fn destination_text_of_addresses() {
    let v4 = DestinationAddr {
        host: HostName::Ip(IpAddress::V4([3, 187, 225, 7])),
        port: 1080,
    };
    assert_eq!(v4.to_string(), "3.187.225.7:1080");
    let v6 = DestinationAddr {
        host: HostName::Ip(IpAddress::V6([0, 0, 0, 0, 0, 0, 0, 1])),
        port: 443,
    };
    assert_eq!(v6.to_string(), "[::1]:443");
    let v6b = DestinationAddr {
        host: HostName::Ip(IpAddress::V6([0x2001, 0xdb8, 0, 0, 1, 0, 0, 0xff])),
        port: 65535,
    };
    assert_eq!(v6b.to_string(), "[2001:db8::1:0:0:ff]:65535");
    let zero = DestinationAddr {
        host: HostName::Ip(IpAddress::V4([0, 0, 0, 0])),
        port: 0,
    };
    assert_eq!(zero.to_string(), "0.0.0.0:0");
}

#[test]
fn not_a_uri_is_invalid_url() {
    let d = taker(&[]);
    assert_eq!(decode_share_link("not a uri", &d), Err(DecodeError::InvalidUrl));
    assert_eq!(decode_share_link("", &d), Err(DecodeError::InvalidUrl));
    assert_eq!(decode_share_link("   ", &d), Err(DecodeError::InvalidUrl));
}

#[test]
fn unknown_scheme_is_rejected() {
    let d = taker(&[]);
    assert_eq!(decode_share_link("vmess://abc@host:1", &d), Err(DecodeError::UnknownScheme));
    assert_eq!(decode_share_link("SSR://host:1", &d), Err(DecodeError::UnknownScheme));
}

#[test]
fn reserved_messaging_domain_is_rejected() {
    let d = taker(&["server", "port"]);
    assert_eq!(
        decode_share_link("https://t.me/proxy?server=1.2.3.4&port=1", &d),
        Err(DecodeError::UnknownScheme)
    );
    assert_eq!(decode_share_link("http://T.Me/socks", &d), Err(DecodeError::UnknownScheme));
    assert_eq!(
        decode_share_link("http://a.t.me:80", &d),
        Ok((Protocol::Http, Some("a.t.me".to_string())))
    );
}

#[test]
fn schemes_select_their_protocol() {
    let d = taker(&[]);
    assert_eq!(decode_share_link("ss://h:1", &d).unwrap().0, Protocol::Shadowsocks);
    assert_eq!(decode_share_link("trojan://p@h:1", &d).unwrap().0, Protocol::Trojan);
    assert_eq!(decode_share_link("http://h:1", &d).unwrap().0, Protocol::Http);
    assert_eq!(decode_share_link("https://h:1", &d).unwrap().0, Protocol::Http);
    assert_eq!(decode_share_link("socks5://h:1", &d).unwrap().0, Protocol::Socks5);
    assert_eq!(
        decode_share_link("  socks5://h:1\n", &d).unwrap(),
        (Protocol::Socks5, Some("h".to_string()))
    );
}

#[test]
fn consumed_keys_leave_nothing_over() {
    let d = taker(&["plugin", "sni"]);
    assert!(decode_share_link("ss://h:1?plugin=x&sni=y", &d).is_ok());
}

#[test]
fn leftover_key_is_reported() {
    let d = taker(&["sni"]);
    assert_eq!(
        decode_share_link("trojan://p@h:1?sni=a&type=tcp", &d),
        Err(DecodeError::ExtraParameters("type".into()))
    );
}

#[test]
fn least_leftover_key_is_reported() {
    let d = taker(&["c"]);
    assert_eq!(
        decode_share_link("ss://h:1?b=1&c=2&a=3&B=4", &d),
        Err(DecodeError::ExtraParameters("B".into()))
    );
    assert_eq!(
        decode_share_link("ss://h:1?ab=1&a=2", &d),
        Err(DecodeError::ExtraParameters("a".into()))
    );
}

#[test]
fn decoder_error_stands() {
    let d = taker(&[]);
    assert_eq!(
        decode_share_link("socks5:/path?x=1", &d),
        Err(DecodeError::MissingInfo("host"))
    );
}

#[test]
fn prepared_link_holds_decoded_queries() {
    let p = prepare_link("ss://h:1?k=a%20b&k=c&j=%2F").ok().unwrap();
    assert_eq!(p.protocol, Protocol::Shadowsocks);
    assert_eq!(p.queries.get("k"), Some(&"c".to_string()));
    assert_eq!(p.queries.get("j"), Some(&"/".to_string()));
    assert_eq!(p.queries.get("x"), None);
    assert_eq!(p.queries.first_key(), Some(&"j".to_string()));
}

#[test]
fn ledger_insert_get_remove() {
    let mut q = QueryMap::new();
    assert!(q.is_empty());
    assert_eq!(q.first_key(), None);
    q.insert("z".into(), "1".into());
    q.insert("y".into(), "2".into());
    q.insert("z".into(), "3".into());
    assert_eq!(q.get("z"), Some(&"3".to_string()));
    assert_eq!(q.first_key(), Some(&"y".to_string()));
    assert_eq!(q.remove("y"), Some("2".to_string()));
    assert_eq!(q.remove("y"), None);
    assert_eq!(q.first_key(), Some(&"z".to_string()));
    assert!(!q.is_empty());
    q.remove("z");
    assert!(q.is_empty());
}

#[test]
fn ledger_from_pairs_keeps_last_value() {
    let q = QueryMap::from_pairs(&vec![
        ("a".to_string(), "1".to_string()),
        ("b".to_string(), "2".to_string()),
        ("a".to_string(), "3".to_string()),
    ]);
    assert_eq!(q.get("a"), Some(&"3".to_string()));
    assert_eq!(q.get("b"), Some(&"2".to_string()));
}

#[test]
fn finish_decode_outcomes() {
    let empty = QueryMap::new();
    assert_eq!(finish_decode(Ok::<u8, DecodeError>(7), &empty), Ok(7));
    assert_eq!(
        finish_decode(Err::<u8, DecodeError>(DecodeError::UnknownValue("cipher")), &empty),
        Err(DecodeError::UnknownValue("cipher"))
    );
    let mut left = QueryMap::new();
    left.insert("\u{e9}".into(), "1".into());
    left.insert("z".into(), "2".into());
    assert_eq!(
        finish_decode(Ok::<u8, DecodeError>(7), &left),
        Err(DecodeError::ExtraParameters("z".into()))
    );
}

#[test]
fn select_protocol_on_parsed_uri() {
    let u = Uri {
        scheme: "https".into(),
        username: String::new(),
        password: None,
        host: Some("t.ME".into()),
        port: None,
        path: "/".into(),
        query: vec![],
        fragment: None,
    };
    assert_eq!(select_protocol(&u), Err(DecodeError::UnknownScheme));
}

#[test]
fn ascii_case_insensitive_comparison() {
    assert!(text_eq_ignore_ascii_case("T.Me", "t.me"));
    assert!(!text_eq_ignore_ascii_case("t.me.", "t.me"));
    assert!(!text_eq_ignore_ascii_case("[", "{"));
    assert!(!text_eq_ignore_ascii_case("\u{c9}", "\u{e9}"));
}

#[test]
fn base64_with_and_without_padding() {
    assert_eq!(decode_base64("aGVsbG8").unwrap(), b"hello".to_vec());
    assert_eq!(decode_base64("aGVsbG8=").unwrap(), b"hello".to_vec());
    assert_eq!(decode_base64("").unwrap(), Vec::<u8>::new());
    assert_eq!(decode_base64("a-b_"), Err(DecodeError::InvalidEncoding));
}
