//! A content-negotiation engine for request/response pipelines.
//!
//! Given a request carrying a declared content type and an accept
//! preference list, the engine selects a wire format, decodes the request
//! body into a typed value, and — independently, on the way out — encodes
//! the response value into the format the caller asked for. Selection
//! happens before the handler runs; the value to encode exists only after
//! it returns, so serialization is deferred through an opaque payload
//! carried on the response.
//!
//! The pieces, leaf first: byte-level text primitives ([`scan`]), the
//! codec boundary ([`codec`]), the media-type registry ([`registry`]), the
//! accept parser ([`accept`]), the format selector ([`select`]), the
//! inbound decoder ([`inbound`]), the outbound re-encoder and per-exchange
//! state machine ([`exchange`]), and the public carrier types
//! ([`negotiate`]).

pub mod scan;
pub mod codec;
pub mod registry;
pub mod accept;
pub mod select;
pub mod inbound;
pub mod exchange;
pub mod negotiate;

pub use negotiate::Negotiate;
pub use negotiate::NegotiateLayer;
pub use negotiate::NegotiateService;
