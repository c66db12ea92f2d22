//! The public negotiation carriers: the typed value wrapper and the
//! wrapping stage applied around a service.
//!
//! `Negotiate` carries a typed value across the pipeline boundary: on the
//! way in, the decoded request value; on the way out, the typed response
//! value whose serialization is deferred to phase 3. `NegotiateLayer`
//! wraps a service into a `NegotiateService`, the stage that runs phase 1
//! before and phase 3 after the wrapped service.

use vstd::prelude::*;

verus! {

/// A typed payload moving through content negotiation.
pub struct Negotiate<T>(pub T);

impl<T> Negotiate<T> {
    /// Wraps a value.
    pub fn new(value: T) -> (r: Negotiate<T>)
        ensures
            r.0 == value,
    {
        Negotiate(value)
    }

    /// Hands the wrapped value back.
    pub fn into_inner(self) -> (r: T)
        ensures
            r == self.0,
    {
        self.0
    }
}

/// The wrapping stage as a layer: applying it to a service yields that
/// service wrapped in a `NegotiateService`.
pub struct NegotiateLayer;

/// A service wrapped with the negotiation stage.
pub struct NegotiateService<S>(pub S);

impl NegotiateLayer {
    /// Wraps `inner` with the negotiation stage.
    pub fn layer<S>(&self, inner: S) -> (r: NegotiateService<S>)
        ensures
            r.0 == inner,
    {
        NegotiateService(inner)
    }
}

} // verus!
