use vstd::prelude::*;

verus! {

/// Why a share link could not be decoded.
#[derive(Debug, Clone, PartialEq, Eq)]
pub enum DecodeError {
    /// The text is not a URI.
    InvalidUrl,
    /// A URI, UTF-8 or Base64 encoding inside the link is broken.
    InvalidEncoding,
    /// A required field is absent; carries the field's name.
    MissingInfo(&'static str),
    /// A field holds a value that is not recognised; carries the field's name.
    UnknownValue(&'static str),
    /// No decoder handles the link's scheme.
    UnknownScheme,
    /// A query parameter was left unconsumed; carries its key.
    ExtraParameters(String),
}

pub type DecodeResult<T> = Result<T, DecodeError>;

} // verus!
