use vstd::prelude::*;

verus! {

/// The failure kinds surfaced by archive lookup and asset decoding.
///
/// Every malformed or short read yields one of these; no decoding function
/// panics, and no partial result is ever returned.
#[derive(Clone, Copy, Debug, PartialEq, Eq, Structural)]
pub enum FormatError {
    /// The leading magic bytes are not the expected container tag.
    BadSignature,
    /// The version field holds a value this decoder does not support.
    UnsupportedVersion,
    /// A record is truncated, or a field holds a value outside its wire range.
    MalformedRecord,
    /// A type tag selects no known record variant.
    UnknownVariant,
    /// An archive lookup named no entry.
    NotFound,
    /// The byte source backing an archive could not be read.
    IOFailure,
}

} // verus!
