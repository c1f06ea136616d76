//! Decoding of proxy share links: a URI that carries one proxy server's
//! connection parameters is classified by scheme, handed to a protocol
//! decoder, and checked for query parameters that nobody consumed.

pub mod encoding;
pub mod error;
pub mod host;
pub mod ledger;
pub mod link;
pub mod name;
pub mod uri;

pub use encoding::decode_base64;
pub use error::{DecodeError, DecodeResult};
pub use host::{DestinationAddr, HostLiteral, HostName, IpAddress};
pub use ledger::QueryMap;
pub use link::{decode_share_link, PreparedLink, Protocol, ProtocolDecoder};
pub use uri::Uri;
