//! JSONRPC IDs

use crate::text::hex_text;
use vstd::prelude::*;

verus! {

/// JSONRPC ID: request-specific identifier
#[derive(Clone, Debug, Eq, PartialEq)]
pub struct Id(String);

impl View for Id {
    type V = Seq<char>;

    closed spec fn view(&self) -> Seq<char> {
        self.0@
    }
}

/// The usual text of a UUID: its sixteen bytes in hexadecimal, in groups of
/// four, two, two, two and six bytes with a hyphen between them.
pub open spec fn hyphenated(bytes: Seq<u8>) -> Seq<char> {
    hex_text(bytes.subrange(0, 4)) + seq!['-'] + hex_text(bytes.subrange(4, 6)) + seq!['-']
        + hex_text(bytes.subrange(6, 8)) + seq!['-'] + hex_text(bytes.subrange(8, 10)) + seq![
        '-',
    ] + hex_text(bytes.subrange(10, 16))
}

/// The sixteen bytes marked as a random UUID: the high half of byte six
/// holds the version four, the two high bits of byte eight the variant of
/// RFC 4122.
pub open spec fn as_random_uuid(bytes: Seq<u8>) -> Seq<u8> {
    bytes.update(6, (bytes[6] % 16 + 64) as u8).update(8, (bytes[8] % 64 + 128) as u8)
}

/// Sixteen bytes from the system's random number source, by
/// `getrandom::getrandom`; nothing where the source fails. Nothing is
/// claimed of the bytes.
#[verifier::external_body]
fn random_bytes() -> (bytes: Option<[u8; 16]>) {
    let mut bytes = [0u8; 16];
    match getrandom::getrandom(&mut bytes) {
        Ok(()) => Some(bytes),
        Err(_) => None,
    }
}

/// The text of the random UUID made of `bytes`, by `uuid::Builder`: the
/// builder sets the variant of RFC 4122 and the version four, and the UUID
/// it builds is written in lower-case hexadecimal with hyphens.
#[verifier::external_body]
fn random_uuid_text(bytes: [u8; 16]) -> (text: String)
    ensures
        text@ == hyphenated(as_random_uuid(bytes@)),
{
    uuid::Builder::from_bytes(bytes)
        .set_variant(uuid::Variant::RFC4122)
        .set_version(uuid::Version::Random)
        .build()
        .to_string()
}

impl Id {
    /// The JSONRPC ID that holds the random UUID made of `bytes`.
    pub fn from_random_bytes(bytes: [u8; 16]) -> (id: Id)
        ensures
            id@ == hyphenated(as_random_uuid(bytes@)),
    {
        Id(random_uuid_text(bytes))
    }

    /// Create a JSONRPC ID containing a UUID v4 (i.e. random). There is
    /// none where the system's random number source fails.
    pub fn uuid_v4() -> (id: Option<Id>)
        ensures
            id matches Some(made) ==> exists|bytes: [u8; 16]|
                made@ == hyphenated(as_random_uuid(#[trigger] bytes@)),
    {
        match random_bytes() {
            Some(bytes) => Some(Id::from_random_bytes(bytes)),
            None => None,
        }
    }

    /// The text of the ID.
    pub fn as_str(&self) -> (text: &str)
        ensures
            text@ == self@,
    {
        self.0.as_str()
    }
}

} // verus!
