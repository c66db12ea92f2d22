//! The outbound erasure and re-encoder, and the per-exchange state machine.
//!
//! Phase 1, before the handler: the accept header is parsed and a format
//! selected; with none acceptable the exchange short-circuits to a refusal
//! without reaching the handler. Phase 2, in the handler: a negotiated
//! value is attached to a placeholder response whose deliberate
//! "unsupported media type" status makes a missing wrapping stage visible.
//! Phase 3, after the handler: a pending payload is re-encoded with the
//! format chosen in phase 1; the placeholder status becomes success, any
//! other status the handler set is kept, the content-type header is set and
//! stale body-length metadata is cleared. A codec failure here discards the
//! partial output for a generic server error.

use vstd::prelude::*;

verus! {

use vstd::string::StringSliceAdditionalSpecFns;
use vstd::slice::slice_to_vec;
use crate::accept::opt_view;
use crate::codec::codec_for_spec;
use crate::codec::encode_with;
use crate::codec::encoding_of;
use crate::inbound::DecodeError;
use crate::registry::Registry;
use crate::select::NegotiatedFormat;
use crate::select::negotiate;
use crate::select::negotiate_spec;

/// Success after re-encoding, and the replacement for the placeholder.
pub const STATUS_OK: u16 = 200;

/// A body that did not parse under its declared format.
pub const STATUS_BAD_REQUEST: u16 = 400;

/// Negotiation failed: no acceptable format.
pub const STATUS_NOT_ACCEPTABLE: u16 = 406;

/// The phase-2 placeholder: only ever seen when phase 3 never ran.
pub const STATUS_UNSUPPORTED_MEDIA_TYPE: u16 = 415;

/// A codec failure while re-encoding an otherwise valid value.
pub const STATUS_INTERNAL_ERROR: u16 = 500;

/// Diagnostic body of a negotiation failure and of an unsupported
/// declared content type.
pub open spec fn negotiation_failed_text() -> Seq<u8> {
    "Invalid content type on request".spec_bytes()
}

/// Diagnostic body of a malformed request body.
pub open spec fn malformed_body_text() -> Seq<u8> {
    "Malformed request body".spec_bytes()
}

/// Diagnostic body of the phase-2 placeholder.
pub open spec fn misconfigured_text() -> Seq<u8> {
    "Misconfigured service layer".spec_bytes()
}

/// Diagnostic body of a phase-3 encode failure; codec internals are never
/// echoed to the caller.
pub open spec fn encode_failed_text() -> Seq<u8> {
    "Failed to serialize response".spec_bytes()
}

/// The model of one response: a status, the content-type header, stale-able
/// body-length metadata, the body bytes, and the out-of-band negotiation
/// payload a handler may have attached.
pub struct Response {
    pub status: u16,
    pub content_type: Option<Vec<u8>>,
    pub content_length: Option<usize>,
    pub body: Vec<u8>,
    pub payload: Option<serde_json::Value>,
}

/// The negotiation-failure response: fixed status, fixed diagnostic, no
/// content type.
pub fn negotiation_failed_response() -> (r: Response)
    ensures
        r.status == STATUS_NOT_ACCEPTABLE,
        r.body@ == negotiation_failed_text(),
        r.content_type is None,
        r.content_length is None,
        r.payload is None,
{
    Response {
        status: STATUS_NOT_ACCEPTABLE,
        content_type: None,
        content_length: None,
        body: slice_to_vec("Invalid content type on request".as_bytes()),
        payload: None,
    }
}

/// The malformed-body response: fixed status, fixed diagnostic.
pub fn malformed_body_response() -> (r: Response)
    ensures
        r.status == STATUS_BAD_REQUEST,
        r.body@ == malformed_body_text(),
        r.content_type is None,
        r.content_length is None,
        r.payload is None,
{
    Response {
        status: STATUS_BAD_REQUEST,
        content_type: None,
        content_length: None,
        body: slice_to_vec("Malformed request body".as_bytes()),
        payload: None,
    }
}

/// The server-error response of a phase-3 encode failure.
pub fn server_error_response() -> (r: Response)
    ensures
        r.status == STATUS_INTERNAL_ERROR,
        r.body@ == encode_failed_text(),
        r.content_type is None,
        r.content_length is None,
        r.payload is None,
{
    Response {
        status: STATUS_INTERNAL_ERROR,
        content_type: None,
        content_length: None,
        body: slice_to_vec("Failed to serialize response".as_bytes()),
        payload: None,
    }
}

/// Phase 2: wraps a handler's negotiated value in the placeholder response.
/// If this response ever escapes without passing phase 3, it reads as a
/// clear misconfiguration instead of empty output.
pub fn placeholder_response(payload: serde_json::Value) -> (r: Response)
    ensures
        r.status == STATUS_UNSUPPORTED_MEDIA_TYPE,
        r.body@ == misconfigured_text(),
        r.content_type is None,
        r.content_length is None,
        r.payload == Some(payload),
{
    Response {
        status: STATUS_UNSUPPORTED_MEDIA_TYPE,
        content_type: None,
        content_length: None,
        body: slice_to_vec("Misconfigured service layer".as_bytes()),
        payload: Some(payload),
    }
}

/// The response owed to an inbound decode failure: an unsupported declared
/// type refuses as not-acceptable; a body that did not parse is a bad
/// request.
pub fn response_for_decode_error(err: &DecodeError) -> (r: Response)
    ensures
        match err {
            DecodeError::UnsupportedDeclaredType { .. } => r.status == STATUS_NOT_ACCEPTABLE
                && r.body@ == negotiation_failed_text(),
            DecodeError::MalformedBody { .. } => r.status == STATUS_BAD_REQUEST && r.body@
                == malformed_body_text(),
        },
        r.content_type is None,
        r.content_length is None,
        r.payload is None,
{
    match err {
        DecodeError::UnsupportedDeclaredType { .. } => negotiation_failed_response(),
        DecodeError::MalformedBody { .. } => malformed_body_response(),
    }
}

/// The status override policy: only the placeholder status is replaced by
/// success; any status the handler set deliberately is kept verbatim.
pub open spec fn resolve_status_spec(status: u16) -> u16 {
    if status == STATUS_UNSUPPORTED_MEDIA_TYPE {
        STATUS_OK
    } else {
        status
    }
}

/// Applies the status override policy.
pub fn resolve_placeholder_status(status: u16) -> (r: u16)
    ensures
        r == resolve_status_spec(status),
{
    if status == STATUS_UNSUPPORTED_MEDIA_TYPE {
        STATUS_OK
    } else {
        status
    }
}

/// What a successfully re-encoded response looks like: overridden status,
/// the negotiated content type, cleared body-length metadata, and the
/// payload consumed.
pub open spec fn reencoded_ok(format: NegotiatedFormat, resp: Response, r: Response) -> bool {
    &&& r.status == resolve_status_spec(resp.status)
    &&& match r.content_type {
        Some(t) => t@ == format.token@,
        None => false,
    }
    &&& r.content_length is None
    &&& r.payload is None
}

/// What the phase-3 failure response looks like.
pub open spec fn is_server_error(r: Response) -> bool {
    &&& r.status == STATUS_INTERNAL_ERROR
    &&& r.body@ == encode_failed_text()
    &&& r.content_type is None
    &&& r.content_length is None
    &&& r.payload is None
}

/// Applies a re-encoding outcome to a response carrying a pending payload:
/// produced bytes become the body under the negotiated content type and the
/// override policy; a codec failure discards everything for the generic
/// server error.
pub fn finish_with_encoded(format: &NegotiatedFormat, resp: Response, encoded: Option<Vec<u8>>)
    -> (r: Response)
    requires
        resp.payload is Some,
    ensures
        match encoded {
            Some(bytes) => reencoded_ok(*format, resp, r) && r.body@ == bytes@,
            None => is_server_error(r),
        },
{
    match encoded {
        Some(bytes) => {
            let status = resolve_placeholder_status(resp.status);
            Response {
                status,
                content_type: Some(slice_to_vec(format.token.as_slice())),
                content_length: None,
                body: bytes,
                payload: None,
            }
        },
        None => server_error_response(),
    }
}

/// Phase 3: inspects a handler response for a pending payload. Absent, the
/// response passes through unchanged. Present, the payload is re-encoded
/// with the negotiated codec: when the codec produces bytes for the
/// payload, they become the body of the re-encoded success; when it fails,
/// the result is the generic server error.
pub fn reencode_response(format: &NegotiatedFormat, resp: Response) -> (r: Response)
    ensures
        match resp.payload {
            None => r == resp,
            Some(v) => {
                &&& encoding_of(format.codec, v) is Some ==> reencoded_ok(*format, resp, r)
                    && Some(r.body@) == encoding_of(format.codec, v)
                &&& encoding_of(format.codec, v) is None ==> is_server_error(r)
            },
        },
{
    let encoded_step: Option<Option<Vec<u8>>> = match &resp.payload {
        None => None,
        Some(value) => Some(encode_with(format.codec, value)),
    };
    match encoded_step {
        None => resp,
        Some(encoded) => finish_with_encoded(format, resp, encoded),
    }
}

/// Terminal outcomes of one exchange.
#[derive(Clone, Copy, Debug, PartialEq, Eq, Structural)]
pub enum Outcome {
    Success,
    NegotiationFailed,
    DecodeFailed,
    EncodeFailed,
}

/// The per-exchange state machine. Selection happens once, before the
/// handler; the format then stands immutable for the exchange.
pub enum Phase {
    AwaitingNegotiation,
    FormatSelected { format: NegotiatedFormat },
    HandlerRunning { format: NegotiatedFormat },
    Terminal { outcome: Outcome },
}

/// One request/response exchange moving through the three phases.
pub struct Exchange {
    pub phase: Phase,
}

/// What phase-1 selection leaves behind for a given header: the matching
/// format on success, the terminal refusal otherwise.
pub open spec fn selected_phase_ok(e: Exchange, reg: Registry, h: Option<Seq<u8>>) -> bool {
    match negotiate_spec(reg, h) {
        Some(i) => match e.phase {
            Phase::FormatSelected { format } => format.token@ == reg.token_at(i)
                && codec_for_spec(format.token@) == Some(format.codec),
            _ => false,
        },
        None => e.phase == (Phase::Terminal { outcome: Outcome::NegotiationFailed }),
    }
}

impl Exchange {
    /// A fresh exchange, before negotiation.
    pub fn new() -> (r: Exchange)
        ensures
            r.phase is AwaitingNegotiation,
    {
        Exchange { phase: Phase::AwaitingNegotiation }
    }

    /// Whether the handler may be invoked: only with a format selected.
    pub open spec fn handler_may_run(self) -> bool {
        self.phase is FormatSelected
    }

    /// Phase 1: parses the accept header and selects the format. On failure
    /// the exchange is terminal and the refusal response is returned; the
    /// handler is never reached.
    pub fn select(&mut self, reg: &Registry, header: Option<&[u8]>) -> (r: Option<Response>)
        requires
            old(self).phase is AwaitingNegotiation,
            reg.wf(),
        ensures
            selected_phase_ok(*final(self), *reg, opt_view(header)),
            match negotiate_spec(*reg, opt_view(header)) {
                Some(_) => r is None,
                None => match r {
                    Some(resp) => resp.status == STATUS_NOT_ACCEPTABLE && resp.body@
                        == negotiation_failed_text() && resp.content_type is None
                        && resp.content_length is None && resp.payload is None,
                    None => false,
                },
            },
    {
        match negotiate(reg, header) {
            Some(format) => {
                self.phase = Phase::FormatSelected { format };
                None
            },
            None => {
                self.phase = Phase::Terminal { outcome: Outcome::NegotiationFailed };
                Some(negotiation_failed_response())
            },
        }
    }

    /// Marks the hand-off to the handler. Requires a selected format:
    /// an exchange whose selection failed cannot reach this point.
    pub fn begin_handler(&mut self)
        requires
            old(self).handler_may_run(),
        ensures
            match (old(self).phase, final(self).phase) {
                (
                    Phase::FormatSelected { format: before },
                    Phase::HandlerRunning { format: after },
                ) => after.token@ == before.token@ && after.codec == before.codec,
                _ => false,
            },
    {
        let format: NegotiatedFormat = match &self.phase {
            Phase::FormatSelected { format } => NegotiatedFormat {
                token: slice_to_vec(format.token.as_slice()),
                codec: format.codec,
            },
            _ => {
                proof {
                    assert(false);
                }
                unreached()
            },
        };
        self.phase = Phase::HandlerRunning { format };
    }

    /// Records an inbound decode failure raised while the handler's
    /// arguments were extracted: the exchange is terminal and the caller
    /// gets the error's owed response.
    pub fn fail_decode(&mut self, err: &DecodeError) -> (r: Response)
        requires
            old(self).phase is HandlerRunning,
        ensures
            final(self).phase == (Phase::Terminal { outcome: Outcome::DecodeFailed }),
            match err {
                DecodeError::UnsupportedDeclaredType { .. } => r.status == STATUS_NOT_ACCEPTABLE
                    && r.body@ == negotiation_failed_text(),
                DecodeError::MalformedBody { .. } => r.status == STATUS_BAD_REQUEST && r.body@
                    == malformed_body_text(),
            },
            r.content_type is None,
            r.content_length is None,
            r.payload is None,
    {
        self.phase = Phase::Terminal { outcome: Outcome::DecodeFailed };
        response_for_decode_error(err)
    }

    /// Phase 3, driven to a terminal outcome: a response without a pending
    /// payload passes through (success); one with a payload is re-encoded
    /// with the format selected in phase 1 — the bytes the codec produces
    /// for the payload become the body of the re-encoded success, and a
    /// codec failure ends in the generic encode-failure error.
    pub fn finish(&mut self, resp: Response) -> (r: Response)
        requires
            old(self).phase is HandlerRunning,
        ensures
            ({
                let format = match old(self).phase {
                    Phase::HandlerRunning { format } => format,
                    _ => arbitrary(),
                };
                match resp.payload {
                    None => r == resp && final(self).phase == (Phase::Terminal {
                        outcome: Outcome::Success,
                    }),
                    Some(v) => {
                        &&& encoding_of(format.codec, v) is Some ==> reencoded_ok(format, resp, r)
                            && Some(r.body@) == encoding_of(format.codec, v) && final(self).phase
                            == (Phase::Terminal { outcome: Outcome::Success })
                        &&& encoding_of(format.codec, v) is None ==> is_server_error(r)
                            && final(self).phase == (Phase::Terminal {
                            outcome: Outcome::EncodeFailed,
                        })
                    },
                }
            }),
    {
        let format: NegotiatedFormat = match &self.phase {
            Phase::HandlerRunning { format } => NegotiatedFormat {
                token: slice_to_vec(format.token.as_slice()),
                codec: format.codec,
            },
            _ => {
                proof {
                    assert(false);
                }
                unreached()
            },
        };
        if resp.payload.is_none() {
            self.phase = Phase::Terminal { outcome: Outcome::Success };
            resp
        } else {
            let encoded: Option<Vec<u8>> = match &resp.payload {
                Some(value) => encode_with(format.codec, value),
                None => unreached(),
            };
            let ok = encoded.is_some();
            let r = finish_with_encoded(&format, resp, encoded);
            self.phase = Phase::Terminal {
                outcome: if ok {
                    Outcome::Success
                } else {
                    Outcome::EncodeFailed
                },
            };
            r
        }
    }
}

/// P7 as a law: when phase-1 selection yields no acceptable format, the
/// exchange that selection leaves behind is terminal with a negotiation
/// failure, and the handler may not run — `begin_handler` demands
/// `handler_may_run`, which such an exchange can never satisfy.
pub proof fn lemma_no_format_no_handler(e: Exchange, reg: Registry, h: Option<Seq<u8>>)
    requires
        negotiate_spec(reg, h) is None,
        selected_phase_ok(e, reg, h),
    ensures
        !e.handler_may_run(),
        e.phase == (Phase::Terminal { outcome: Outcome::NegotiationFailed }),
{
}

} // verus!
