//! Encoding and decoding of a link tag as a single string path component.

use vstd::prelude::*;
use hdi::prelude::{Component, SerializedBytes, UnsafeBytes};
use holochain_serialized_bytes::SerializedBytesError;

verus! {

#[verifier::external_type_specification]
#[verifier::external_body]
pub struct ExSerializedBytesError(SerializedBytesError);

/// Hard errors: the candidate could not be evaluated at all.
#[derive(Debug, Clone, Copy, PartialEq, Eq, Structural)]
pub enum ValidationError {
    /// A tag payload is not a serialized string component.
    Decode,
    /// A record needed for the decision could not be fetched.
    Lookup,
    /// A configuration payload does not hold a value of the needed type.
    ConfigDecode,
    /// A path component could not be serialized for hashing.
    Hash,
}

/// The string that a tag payload holds, or `None` where the bytes are not a
/// serialized path component made of valid characters.
pub uninterp spec fn decoded_tag(tag: Seq<u8>) -> Option<Seq<char>>;

/// The tag payload that holds the string `s` as a serialized path component.
pub uninterp spec fn encoded_tag(s: Seq<char>) -> Seq<u8>;

/// What `decode` returns for a tag payload.
pub open spec fn decode_result(tag: Seq<u8>) -> Result<Seq<char>, ValidationError> {
    match decoded_tag(tag) {
        Some(s) => Ok(s),
        None => Err(ValidationError::Decode),
    }
}

/// Relies on `SerializedBytes::from(UnsafeBytes)`, `Component::try_from(SerializedBytes)`
/// (messagepack) and `String::try_from(&Component)` (four little-endian bytes per
/// character): the result depends on the bytes alone.
#[verifier::external_body]
fn unpack_tag(tag: &Vec<u8>) -> (r: Result<String, SerializedBytesError>)
    ensures
        match r {
            Ok(s) => decoded_tag(tag@) == Some(s@),
            Err(_) => decoded_tag(tag@) is None,
        },
{
    let bytes = SerializedBytes::from(UnsafeBytes::from(tag.clone()));
    match Component::try_from(bytes) {
        Ok(c) => String::try_from(&c),
        Err(e) => Err(e),
    }
}

/// Relies on `Component::from(&String)` and `SerializedBytes::try_from(Component)`:
/// the bytes depend on the string alone; messagepack writes the component as a
/// binary value into a `Vec`, which does not fail; and `String::try_from(&Component)` reads
/// back the characters that `Component::from` wrote.
#[verifier::external_body]
fn pack_tag(s: &String) -> (r: Result<Vec<u8>, SerializedBytesError>)
    ensures
        r is Ok,
        r is Ok ==> r->Ok_0@ == encoded_tag(s@),
        r is Ok ==> decoded_tag(r->Ok_0@) == Some(s@),
{
    SerializedBytes::try_from(Component::from(s)).map(|b| b.bytes().clone())
}

/// Decodes a tag payload into the string component it holds.
pub fn decode(tag: &Vec<u8>) -> (r: Result<String, ValidationError>)
    ensures
        match r {
            Ok(s) => decode_result(tag@) == Ok::<Seq<char>, ValidationError>(s@),
            Err(e) => decode_result(tag@) == Err::<Seq<char>, ValidationError>(e),
        },
{
    match unpack_tag(tag) {
        Ok(s) => Ok(s),
        Err(_) => Err(ValidationError::Decode),
    }
}

/// Encodes a string as a tag payload; decoding the payload gives the string back.
pub fn encode(s: &String) -> (r: Vec<u8>)
    ensures
        r@ == encoded_tag(s@),
        decode_result(r@) == Ok::<Seq<char>, ValidationError>(s@),
{
    match pack_tag(s) {
        Ok(b) => b,
        Err(_) => Vec::new(),
    }
}

} // verus!
