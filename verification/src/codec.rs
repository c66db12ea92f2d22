//! The codec boundary: paired encode/decode capabilities, one per wire format.
//!
//! The payload of a negotiated exchange is carried as a dynamic value
//! (`serde_json::Value`), which both shipped codecs can read and write. The
//! calls into the codec crates stand behind trusted wrappers; everything a
//! wrapper promises is stated over the bytes alone.

use vstd::prelude::*;

verus! {

use vstd::string::StringSliceAdditionalSpecFns;
use vstd::slice::slice_to_vec;
use crate::scan::bytes_eq;

/// The wire formats this crate ships codecs for.
#[derive(Clone, Copy, Debug, PartialEq, Eq, Structural)]
pub enum Codec {
    Json,
    Cbor,
}

/// The media-type token served by the JSON codec.
pub open spec fn json_token() -> Seq<u8> {
    "application/json".spec_bytes()
}

/// The media-type token served by the CBOR codec.
pub open spec fn cbor_token() -> Seq<u8> {
    "application/cbor".spec_bytes()
}

/// The codec serving a media-type token, if there is one.
pub open spec fn codec_for_spec(token: Seq<u8>) -> Option<Codec> {
    if token == json_token() {
        Some(Codec::Json)
    } else if token == cbor_token() {
        Some(Codec::Cbor)
    } else {
        None
    }
}

/// Looks up the codec serving a media-type token.
pub fn codec_for(token: &[u8]) -> (r: Option<Codec>)
    ensures
        r == codec_for_spec(token@),
{
    if bytes_eq(token, "application/json".as_bytes()) {
        Some(Codec::Json)
    } else if bytes_eq(token, "application/cbor".as_bytes()) {
        Some(Codec::Cbor)
    } else {
        None
    }
}

/// The JSON media-type token as owned bytes.
pub fn json_token_bytes() -> (r: Vec<u8>)
    ensures
        r@ == json_token(),
{
    slice_to_vec("application/json".as_bytes())
}

/// The CBOR media-type token as owned bytes.
pub fn cbor_token_bytes() -> (r: Vec<u8>)
    ensures
        r@ == cbor_token(),
{
    slice_to_vec("application/cbor".as_bytes())
}

#[verifier::external_type_specification]
#[verifier::external_body]
pub struct ExValue(serde_json::Value);

/// The dynamic value the JSON codec reads from these bytes, or `None` when
/// they are not acceptable JSON: a function of the bytes alone.
pub uninterp spec fn json_value_of(bytes: Seq<u8>) -> Option<serde_json::Value>;

/// The dynamic value the CBOR codec reads from these bytes, or `None` when
/// they are not acceptable CBOR: a function of the bytes alone.
pub uninterp spec fn cbor_value_of(bytes: Seq<u8>) -> Option<serde_json::Value>;

/// The JSON text the codec produces for a dynamic value, or `None` when the
/// serializer fails: a function of the value alone.
pub uninterp spec fn json_encoding_of(value: serde_json::Value) -> Option<Seq<u8>>;

/// The CBOR bytes the codec produces for a dynamic value, or `None` when
/// the serializer fails: a function of the value alone.
pub uninterp spec fn cbor_encoding_of(value: serde_json::Value) -> Option<Seq<u8>>;

/// Whether the JSON codec accepts these bytes.
pub open spec fn json_accepts(bytes: Seq<u8>) -> bool {
    json_value_of(bytes) is Some
}

/// Whether the CBOR codec accepts these bytes.
pub open spec fn cbor_accepts(bytes: Seq<u8>) -> bool {
    cbor_value_of(bytes) is Some
}

/// Relies on serde_json::from_slice::<serde_json::Value>: it parses the
/// given bytes as JSON, the outcome and the value read depending on the
/// bytes alone.
#[verifier::external_body]
fn json_decode_raw(bytes: &[u8]) -> (r: Option<serde_json::Value>)
    ensures
        r == json_value_of(bytes@),
{
    serde_json::from_slice(bytes).ok()
}

/// Relies on cbor4ii::serde::from_slice::<serde_json::Value>: it parses the
/// given bytes as CBOR, the outcome and the value read depending on the
/// bytes alone.
#[verifier::external_body]
fn cbor_decode_raw(bytes: &[u8]) -> (r: Option<serde_json::Value>)
    ensures
        r == cbor_value_of(bytes@),
{
    cbor4ii::serde::from_slice(bytes).ok()
}

/// Relies on serde_json::to_vec: it serializes a dynamic value as JSON
/// text, the outcome and the bytes produced depending on the value alone.
/// A serializer error yields `None`.
#[verifier::external_body]
fn json_encode_raw(value: &serde_json::Value) -> (r: Option<Vec<u8>>)
    ensures
        r is Some <==> json_encoding_of(*value) is Some,
        r matches Some(b) ==> Some(b@) == json_encoding_of(*value),
{
    serde_json::to_vec(value).ok()
}

/// Relies on cbor4ii::serde::to_vec: it serializes a dynamic value as CBOR,
/// the outcome and the bytes produced depending on the value alone. A
/// serializer error yields `None`.
#[verifier::external_body]
fn cbor_encode_raw(value: &serde_json::Value) -> (r: Option<Vec<u8>>)
    ensures
        r is Some <==> cbor_encoding_of(*value) is Some,
        r matches Some(b) ==> Some(b@) == cbor_encoding_of(*value),
{
    cbor4ii::serde::to_vec(Vec::new(), value).ok()
}

/// Whether the given codec accepts these bytes.
pub open spec fn codec_accepts(codec: Codec, bytes: Seq<u8>) -> bool {
    match codec {
        Codec::Json => json_accepts(bytes),
        Codec::Cbor => cbor_accepts(bytes),
    }
}

/// The dynamic value the given codec reads from these bytes.
pub open spec fn value_of(codec: Codec, bytes: Seq<u8>) -> Option<serde_json::Value> {
    match codec {
        Codec::Json => json_value_of(bytes),
        Codec::Cbor => cbor_value_of(bytes),
    }
}

/// The bytes the given codec produces for a dynamic value.
pub open spec fn encoding_of(codec: Codec, value: serde_json::Value) -> Option<Seq<u8>> {
    match codec {
        Codec::Json => json_encoding_of(value),
        Codec::Cbor => cbor_encoding_of(value),
    }
}

/// Decodes a body with the given codec: exactly the value the codec reads,
/// succeeding exactly when the codec accepts the bytes.
pub fn decode_with(codec: Codec, bytes: &[u8]) -> (r: Option<serde_json::Value>)
    ensures
        r == value_of(codec, bytes@),
        r is Some <==> codec_accepts(codec, bytes@),
{
    match codec {
        Codec::Json => json_decode_raw(bytes),
        Codec::Cbor => cbor_decode_raw(bytes),
    }
}

/// Encodes a dynamic value with the given codec: exactly the bytes the
/// codec produces for it; a codec failure yields `None`.
pub fn encode_with(codec: Codec, value: &serde_json::Value) -> (r: Option<Vec<u8>>)
    ensures
        r is Some <==> encoding_of(codec, *value) is Some,
        r matches Some(b) ==> Some(b@) == encoding_of(codec, *value),
{
    match codec {
        Codec::Json => json_encode_raw(value),
        Codec::Cbor => cbor_encode_raw(value),
    }
}

} // verus!
