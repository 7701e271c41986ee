//! The binary form of stored values: a length of eight bytes, least
//! significant first, and then that many bytes.

use vstd::prelude::*;
use vstd::bytes::{lemma_auto_spec_u64_to_from_le_bytes, spec_u64_from_le_bytes, spec_u64_to_le_bytes};
use vstd::string::StringSliceAdditionalSpecFns;
use vstd::utf8::{decode_utf8, encode_utf8, valid_utf8};
use crate::errors::{Error, Result};
use crate::record::Record;

verus! {

/// `bincode::ErrorKind`, the failure of an encoding or a decoding. A value
/// is carried to where its message is taken; nothing is known of it.
#[verifier::external_type_specification]
#[verifier::external_body]
pub struct ExBincodeErrorKind(bincode::ErrorKind);

/// A payload behind its length.
pub open spec fn framed(payload: Seq<u8>) -> Seq<u8> {
    spec_u64_to_le_bytes(payload.len() as u64) + payload
}

/// `bytes` starts with a length and holds at least that many bytes after
/// it.
pub open spec fn is_frame(bytes: Seq<u8>) -> bool {
    bytes.len() >= 8 && 8 + spec_u64_from_le_bytes(bytes.take(8)) <= bytes.len()
}

/// The payload of a frame: the bytes that its length covers.
pub open spec fn frame_payload(bytes: Seq<u8>) -> Seq<u8> {
    bytes.subrange(8, 8 + spec_u64_from_le_bytes(bytes.take(8)))
}

/// `bytes` is a frame whose payload is valid UTF-8.
pub open spec fn is_text_frame(bytes: Seq<u8>) -> bool {
    is_frame(bytes) && valid_utf8(frame_payload(bytes))
}

/// `bincode::serialize` of a string. With the crate's default options a
/// string is written as its length in bytes, as a `u64` least significant
/// byte first, and then its UTF-8 bytes; there is no size limit and the
/// writer is a vector, so the call does not fail.
#[verifier::external_body]
fn serialize_str(value: &str) -> (r: std::result::Result<Vec<u8>, Box<bincode::ErrorKind>>)
    ensures
        r is Ok,
        r matches Ok(bytes) ==> bytes@ == framed(value.spec_bytes()),
{
    bincode::serialize(value)
}

/// `bincode::deserialize` to a string. The call succeeds where the bytes
/// start with a length, hold that many bytes after it, and those are valid
/// UTF-8; they are the string. Bytes after them are allowed.
#[verifier::external_body]
fn deserialize_string(encoded: &[u8]) -> (r: std::result::Result<String, Box<bincode::ErrorKind>>)
    ensures
        r is Ok <==> is_text_frame(encoded@),
        r matches Ok(text) ==> text@ == decode_utf8(frame_payload(encoded@)),
{
    bincode::deserialize::<String>(encoded)
}

/// `bincode::serialize` of a vector of bytes: its length as a `u64` least
/// significant byte first, and then the bytes. The call does not fail.
#[verifier::external_body]
fn serialize_bytes(value: &Vec<u8>) -> (r: std::result::Result<Vec<u8>, Box<bincode::ErrorKind>>)
    ensures
        r is Ok,
        r matches Ok(bytes) ==> bytes@ == framed(value@),
{
    bincode::serialize(value)
}

/// `bincode::deserialize` to a vector of bytes. The call succeeds where the
/// bytes start with a length and hold that many bytes after it; those are
/// the vector. Bytes after them are allowed.
#[verifier::external_body]
fn deserialize_bytes(encoded: &[u8]) -> (r: std::result::Result<Vec<u8>, Box<bincode::ErrorKind>>)
    ensures
        r is Ok <==> is_frame(encoded@),
        r matches Ok(bytes) ==> bytes@ == frame_payload(encoded@),
{
    bincode::deserialize::<Vec<u8>>(encoded)
}

/// The message of a `bincode` error, by its `Display`. Nothing is claimed
/// of the text.
#[verifier::external_body]
fn error_text(error: &bincode::ErrorKind) -> (text: String) {
    error.to_string()
}

/// Values that are stored in binary form.
pub trait BinCode: Sized {
    /// The binary form of this value.
    fn to_bytes(&self) -> Result<Vec<u8>>;

    /// The value that `encoded` is the binary form of.
    fn from_bytes(encoded: &[u8]) -> Result<Self>;
}

impl BinCode for String {
    /// The length of the string's UTF-8 form, then that form. This does not
    /// fail.
    fn to_bytes(&self) -> (r: Result<Vec<u8>>)
        ensures
            r matches Ok(bytes) && bytes@ == framed(encode_utf8(self@)),
    {
        match serialize_str(self.as_str()) {
            Ok(bytes) => Ok(bytes),
            Err(error) => Err(Error::SerializationFailed(error_text(&error))),
        }
    }

    /// Reads a string from a frame whose payload is valid UTF-8; anything
    /// else is refused as `DeserializationFailed`.
    fn from_bytes(encoded: &[u8]) -> (r: Result<String>)
        ensures
            r is Ok <==> is_text_frame(encoded@),
            r matches Ok(text) ==> text@ == decode_utf8(frame_payload(encoded@)),
            r is Err ==> r matches Err(Error::DeserializationFailed(_)),
    {
        match deserialize_string(encoded) {
            Ok(text) => Ok(text),
            Err(error) => Err(Error::DeserializationFailed(error_text(&error))),
        }
    }
}

impl BinCode for Record {
    /// The number of bytes, then the bytes. This does not fail.
    fn to_bytes(&self) -> (r: Result<Vec<u8>>)
        ensures
            r matches Ok(bytes) && bytes@ == framed(self@),
    {
        match serialize_bytes(self) {
            Ok(bytes) => Ok(bytes),
            Err(error) => Err(Error::SerializationFailed(error_text(&error))),
        }
    }

    /// Reads the payload of a frame; anything that is not a frame is
    /// refused as `DeserializationFailed`.
    fn from_bytes(encoded: &[u8]) -> (r: Result<Record>)
        ensures
            r is Ok <==> is_frame(encoded@),
            r matches Ok(bytes) ==> bytes@ == frame_payload(encoded@),
            r is Err ==> r matches Err(Error::DeserializationFailed(_)),
    {
        match deserialize_bytes(encoded) {
            Ok(bytes) => Ok(bytes),
            Err(error) => Err(Error::DeserializationFailed(error_text(&error))),
        }
    }
}

/// A frame gives back the payload it was made of.
pub proof fn law_frame_round_trip(payload: Seq<u8>)
    requires
        payload.len() <= u64::MAX,
    ensures
        is_frame(framed(payload)),
        frame_payload(framed(payload)) == payload,
{
    lemma_auto_spec_u64_to_from_le_bytes();
    let head = spec_u64_to_le_bytes(payload.len() as u64);
    assert(framed(payload).take(8) =~= head);
    assert(framed(payload).subrange(8, 8 + payload.len() as int) =~= payload);
}

/// The binary form of a string reads back as that string.
pub proof fn law_string_round_trip(text: Seq<char>)
    requires
        encode_utf8(text).len() <= u64::MAX,
    ensures
        is_text_frame(framed(encode_utf8(text))),
        decode_utf8(frame_payload(framed(encode_utf8(text)))) == text,
{
    law_frame_round_trip(encode_utf8(text));
    vstd::utf8::encode_utf8_valid_utf8(text);
    vstd::utf8::encode_utf8_decode_utf8(text);
}

} // verus!
