//! The inbound decoder: resolves a declared content type against the
//! registry and decodes the request body with the matching codec.
//!
//! A declared content type is a single declaration, so only an exact match
//! counts — no wildcard, no quality weights. An absent declaration falls
//! back to the registry default. An unsupported declaration fails before
//! the body is looked at; a codec failure on the body is a distinct error.

use vstd::prelude::*;

verus! {

use vstd::slice::slice_to_vec;
use crate::accept::opt_view;
use crate::codec::Codec;
use crate::codec::codec_accepts;
use crate::codec::codec_for_spec;
use crate::codec::decode_with;
use crate::codec::value_of;
use crate::registry::Registry;

/// Why an inbound body could not be decoded.
#[derive(Debug, PartialEq, Eq)]
pub enum DecodeError {
    /// The declared content type names no registered format. Raised before
    /// any body bytes are consumed.
    UnsupportedDeclaredType { token: Vec<u8> },
    /// The body bytes do not parse under the resolved format.
    MalformedBody { codec: Codec, body_len: usize },
}

/// The token an inbound declaration stands for: the declared token itself,
/// or the registry default when nothing is declared.
pub open spec fn declared_token(reg: Registry, declared: Option<Seq<u8>>) -> Seq<u8> {
    match declared {
        None => reg.token_at(reg.default_index as int),
        Some(t) => t,
    }
}

/// The registry position an inbound declaration resolves to: exact match
/// only.
pub open spec fn inbound_resolution(reg: Registry, declared: Option<Seq<u8>>) -> Option<int> {
    reg.resolve_exact_spec(declared_token(reg, declared))
}

/// Whether decoding succeeds: the declaration resolves and the resolved
/// codec accepts the body bytes.
pub open spec fn decode_accepts(reg: Registry, declared: Option<Seq<u8>>, body: Seq<u8>) -> bool {
    match inbound_resolution(reg, declared) {
        Some(i) => codec_accepts(codec_for_spec(reg.token_at(i)).unwrap(), body),
        None => false,
    }
}

/// The dynamic value an inbound body decodes to: what the resolved codec
/// reads from the bytes, and `None` wherever decoding fails.
pub open spec fn decoded_value(reg: Registry, declared: Option<Seq<u8>>, body: Seq<u8>) -> Option<
    serde_json::Value,
> {
    match inbound_resolution(reg, declared) {
        Some(i) => value_of(codec_for_spec(reg.token_at(i)).unwrap(), body),
        None => None,
    }
}

/// Decodes an inbound body under its declared content type. Returns exactly
/// the value the resolved codec reads, when the declaration resolves and
/// the codec accepts the bytes; otherwise the error says which step
/// refused.
pub fn decode_body(reg: &Registry, declared: Option<&[u8]>, body: &[u8]) -> (r: Result<
    serde_json::Value,
    DecodeError,
>)
    requires
        reg.wf(),
    ensures
        ({
            let res = inbound_resolution(*reg, opt_view(declared));
            match r {
                Ok(value) => res is Some && decode_accepts(*reg, opt_view(declared), body@)
                    && Some(value) == decoded_value(*reg, opt_view(declared), body@),
                Err(DecodeError::UnsupportedDeclaredType { token }) => res is None && token@
                    == declared_token(*reg, opt_view(declared)),
                Err(DecodeError::MalformedBody { codec, body_len }) => {
                    &&& res is Some
                    &&& !decode_accepts(*reg, opt_view(declared), body@)
                    &&& Some(codec) == codec_for_spec(reg.token_at(res.unwrap()))
                    &&& body_len == body@.len()
                },
            }
        }),
{
    let token: Vec<u8> = match declared {
        Some(t) => slice_to_vec(t),
        None => reg.token_bytes(reg.default_index),
    };
    match reg.resolve_exact(token.as_slice()) {
        None => Err(DecodeError::UnsupportedDeclaredType { token }),
        Some(i) => {
            let codec = reg.codec_at(i);
            match decode_with(codec, body) {
                Some(value) => Ok(value),
                None => Err(DecodeError::MalformedBody { codec, body_len: body.len() }),
            }
        },
    }
}

/// P6 as a law: a declaration that resolves to no registered format fails
/// identically for every body — no body bytes can bring decoding to a
/// codec, so the body is never consumed by one.
pub proof fn lemma_unsupported_type_ignores_body(
    reg: Registry,
    declared: Option<Seq<u8>>,
    b1: Seq<u8>,
    b2: Seq<u8>,
)
    requires
        inbound_resolution(reg, declared) is None,
    ensures
        !decode_accepts(reg, declared, b1),
        decode_accepts(reg, declared, b1) == decode_accepts(reg, declared, b2),
{
}

} // verus!
