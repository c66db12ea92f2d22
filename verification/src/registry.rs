//! The media-type registry: the configured set of supported media-type
//! tokens and the designated default.
//!
//! A registry is built once at startup and never changed. Building fails —
//! rather than any later request — when the set is empty, the default is out
//! of range, a token repeats, or a token has no codec behind it.

use vstd::prelude::*;

verus! {

use vstd::string::StringSliceAdditionalSpecFns;
use vstd::slice::slice_to_vec;
use crate::scan::bytes_eq;
use crate::scan::views_of;
use crate::codec::Codec;
use crate::codec::codec_for;
use crate::codec::codec_for_spec;

/// The universal wildcard token. It is a valid accept-side candidate that
/// resolves to the registry default; it cannot itself be registered.
pub open spec fn wildcard_token() -> Seq<u8> {
    "*/*".spec_bytes()
}

/// The wildcard token as owned bytes.
pub fn wildcard_token_bytes() -> (r: Vec<u8>)
    ensures
        r@ == wildcard_token(),
{
    slice_to_vec("*/*".as_bytes())
}

/// Why a registry could not be built.
#[derive(Clone, Copy, Debug, PartialEq, Eq, Structural)]
pub enum RegistryError {
    /// No token was given; at least one format is required.
    EmptyRegistry,
    /// The default position does not name a given token.
    DefaultOutOfRange,
    /// The same token was given twice.
    DuplicateToken,
    /// A token has no codec serving it.
    TokenWithoutCodec,
}

/// Position of the first occurrence of `t` in `ts`, or `ts.len()` when `t`
/// does not occur.
pub open spec fn index_of_first(ts: Seq<Seq<u8>>, t: Seq<u8>) -> nat
    decreases ts.len(),
{
    if ts.len() == 0 {
        0
    } else if ts[0] == t {
        0
    } else {
        1 + index_of_first(ts.skip(1), t)
    }
}

/// `index_of_first` returns the position of the first occurrence, if any.
pub proof fn lemma_index_of_first(ts: Seq<Seq<u8>>, t: Seq<u8>)
    ensures
        index_of_first(ts, t) <= ts.len(),
        index_of_first(ts, t) < ts.len() ==> ts[index_of_first(ts, t) as int] == t,
        forall|j: int| 0 <= j < index_of_first(ts, t) ==> ts[j] != t,
    decreases ts.len(),
{
    if ts.len() > 0 && ts[0] != t {
        lemma_index_of_first(ts.skip(1), t);
        assert forall|j: int| 0 <= j < index_of_first(ts, t) implies ts[j] != t by {
            if j > 0 {
                assert(ts.skip(1)[j - 1] == ts[j]);
                assert(ts.skip(1)[j - 1] != t);
            }
        }
    }
}

/// The configured set of supported media-type tokens, with the position of
/// the fallback default.
pub struct Registry {
    pub tokens: Vec<Vec<u8>>,
    pub default_index: usize,
}

impl Registry {
    /// The registered tokens as byte sequences, in registration order.
    pub open spec fn tokens_view(self) -> Seq<Seq<u8>> {
        views_of(self.tokens)
    }

    /// The token at registry position `i`.
    pub open spec fn token_at(self, i: int) -> Seq<u8> {
        self.tokens_view()[i]
    }

    /// Well-formedness: at least one token, an in-range default, no repeated
    /// token, and a codec behind every token. `Registry::new` establishes it.
    pub open spec fn wf(self) -> bool {
        &&& self.tokens_view().len() > 0
        &&& (self.default_index as int) < self.tokens_view().len()
        &&& forall|i: int, j: int|
            0 <= i < j < self.tokens_view().len() ==> self.token_at(i) != self.token_at(j)
        &&& forall|i: int|
            0 <= i < self.tokens_view().len() ==> codec_for_spec(#[trigger] self.token_at(i)) is Some
    }

    /// The outcome of validating a candidate configuration.
    pub open spec fn new_check(ts: Seq<Seq<u8>>, d: int) -> Result<(), RegistryError> {
        if ts.len() == 0 {
            Err(RegistryError::EmptyRegistry)
        } else if d >= ts.len() {
            Err(RegistryError::DefaultOutOfRange)
        } else if exists|i: int, j: int| 0 <= i < j < ts.len() && ts[i] == ts[j] {
            Err(RegistryError::DuplicateToken)
        } else if exists|i: int| 0 <= i < ts.len() && codec_for_spec(#[trigger] ts[i]) is None {
            Err(RegistryError::TokenWithoutCodec)
        } else {
            Ok(())
        }
    }

    /// Builds a registry from tokens and the position of the default.
    /// Succeeds exactly when the configuration passes `new_check`, and the
    /// result then holds the given tokens unchanged and is well-formed.
    pub fn new(tokens: Vec<Vec<u8>>, default_index: usize) -> (r: Result<Registry, RegistryError>)
        ensures
            ({
                let chk = Self::new_check(views_of(tokens), default_index as int);
                match r {
                    Ok(reg) => {
                        &&& chk is Ok
                        &&& reg.tokens_view() == views_of(tokens)
                        &&& reg.default_index == default_index
                        &&& reg.wf()
                    },
                    Err(e) => chk == Err::<(), RegistryError>(e),
                }
            }),
    {
        let n = tokens.len();
        if n == 0 {
            return Err(RegistryError::EmptyRegistry);
        }
        if default_index >= n {
            return Err(RegistryError::DefaultOutOfRange);
        }
        let ghost ts = views_of(tokens);
        let mut i: usize = 1;
        while i < n
            invariant
                n == tokens.len(),
                ts == views_of(tokens),
                1 <= i <= n,
                (default_index as int) < n,
                forall|a: int, b: int| 0 <= a < b < i ==> ts[a] != ts[b],
            decreases n - i,
        {
            let mut j: usize = 0;
            while j < i
                invariant
                    n == tokens.len(),
                    ts == views_of(tokens),
                    0 <= j <= i < n,
                    (default_index as int) < n,
                    forall|b: int| 0 <= b < j ==> ts[b] != ts[i as int],
                decreases i - j,
            {
                if bytes_eq(tokens[j].as_slice(), tokens[i].as_slice()) {
                    proof {
                        assert(ts[j as int] == ts[i as int]);
                    }
                    return Err(RegistryError::DuplicateToken);
                }
                j = j + 1;
            }
            i = i + 1;
        }
        let mut k: usize = 0;
        while k < n
            invariant
                n == tokens.len(),
                ts == views_of(tokens),
                0 <= k <= n,
                (default_index as int) < n,
                forall|a: int, b: int| 0 <= a < b < n ==> ts[a] != ts[b],
                forall|a: int| 0 <= a < k ==> codec_for_spec(#[trigger] ts[a]) is Some,
            decreases n - k,
        {
            if codec_for(tokens[k].as_slice()).is_none() {
                proof {
                    assert(codec_for_spec(ts[k as int]) is None);
                }
                return Err(RegistryError::TokenWithoutCodec);
            }
            k = k + 1;
        }
        let reg = Registry { tokens, default_index };
        Ok(reg)
    }

    /// Accept-side resolution: the wildcard resolves to the default,
    /// any other token to its exact match, if registered.
    pub open spec fn resolve_spec(self, t: Seq<u8>) -> Option<int> {
        if t == wildcard_token() {
            Some(self.default_index as int)
        } else {
            let i = index_of_first(self.tokens_view(), t);
            if i < self.tokens_view().len() {
                Some(i as int)
            } else {
                None
            }
        }
    }

    /// Inbound resolution: exact match only — a declared content type is a
    /// single declaration, not a preference, so no wildcard applies.
    pub open spec fn resolve_exact_spec(self, t: Seq<u8>) -> Option<int> {
        let i = index_of_first(self.tokens_view(), t);
        if i < self.tokens_view().len() {
            Some(i as int)
        } else {
            None
        }
    }

    /// First registry position of `token`, or the registry size when absent.
    pub fn find_token(&self, token: &[u8]) -> (r: usize)
        ensures
            r == index_of_first(self.tokens_view(), token@),
    {
        proof {
            lemma_index_of_first(self.tokens_view(), token@);
        }
        let n = self.tokens.len();
        let mut i: usize = 0;
        while i < n
            invariant
                n == self.tokens_view().len(),
                0 <= i <= n,
                forall|j: int| 0 <= j < i ==> self.tokens_view()[j] != token@,
                index_of_first(self.tokens_view(), token@) <= n,
                index_of_first(self.tokens_view(), token@) < n
                    ==> self.tokens_view()[index_of_first(self.tokens_view(), token@) as int]
                    == token@,
                forall|j: int|
                    0 <= j < index_of_first(self.tokens_view(), token@)
                    ==> self.tokens_view()[j] != token@,
            decreases n - i,
        {
            if bytes_eq(self.tokens[i].as_slice(), token) {
                proof {
                    let f = index_of_first(self.tokens_view(), token@);
                    assert(self.tokens_view()[i as int] == token@);
                    if f < i {
                        assert(self.tokens_view()[f as int] == token@);
                    }
                    if f > i {
                        assert(self.tokens_view()[i as int] != token@);
                    }
                }
                return i;
            }
            i = i + 1;
        }
        i
    }

    /// Resolves an accept-side token against the registry.
    pub fn resolve(&self, token: &[u8]) -> (r: Option<usize>)
        requires
            self.wf(),
        ensures
            match r {
                Some(i) => self.resolve_spec(token@) == Some(i as int),
                None => self.resolve_spec(token@) is None,
            },
    {
        if bytes_eq(token, "*/*".as_bytes()) {
            return Some(self.default_index);
        }
        let i = self.find_token(token);
        if i < self.tokens.len() {
            Some(i)
        } else {
            None
        }
    }

    /// Resolves a declared content type: exact match only.
    pub fn resolve_exact(&self, token: &[u8]) -> (r: Option<usize>)
        requires
            self.wf(),
        ensures
            match r {
                Some(i) => self.resolve_exact_spec(token@) == Some(i as int),
                None => self.resolve_exact_spec(token@) is None,
            },
    {
        let i = self.find_token(token);
        if i < self.tokens.len() {
            Some(i)
        } else {
            None
        }
    }

    /// The token at position `i`, as owned bytes.
    pub fn token_bytes(&self, i: usize) -> (r: Vec<u8>)
        requires
            i < self.tokens_view().len(),
        ensures
            r@ == self.token_at(i as int),
    {
        slice_to_vec(self.tokens[i].as_slice())
    }

    /// The codec behind the token at position `i`.
    pub fn codec_at(&self, i: usize) -> (r: Codec)
        requires
            self.wf(),
            i < self.tokens_view().len(),
        ensures
            codec_for_spec(self.token_at(i as int)) == Some(r),
    {
        let c = codec_for(self.tokens[i].as_slice());
        match c {
            Some(codec) => codec,
            None => {
                proof {
                    assert(codec_for_spec(self.token_at(i as int)) is Some);
                }
                unreached()
            },
        }
    }
}

} // verus!
