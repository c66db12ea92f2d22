//! The format selector: applies the parsed candidate list against the
//! registry and chooses exactly one media type, or none.
//!
//! Every candidate is resolved (exact token match, or wildcard to the
//! registry default); unresolvable candidates are discarded; among the
//! resolved ones the maximum quality weight wins, and on equal weight the
//! candidate appearing first in the accept string wins.

use vstd::prelude::*;

verus! {

use crate::accept::AcceptCandidate;
use crate::accept::CandidateView;
use crate::accept::cands_view;
use crate::accept::opt_view;
use crate::accept::parse_accept;
use crate::accept::parse_accept_spec;
use crate::codec::Codec;
use crate::codec::codec_for_spec;
use crate::registry::Registry;
use crate::registry::wildcard_token;

/// The chosen media type for one exchange: the resolved registry token and
/// the codec behind it. Immutable once selected.
pub struct NegotiatedFormat {
    pub token: Vec<u8>,
    pub codec: Codec,
}

/// Whether a candidate resolves against the registry.
pub open spec fn resolves(reg: Registry, c: CandidateView) -> bool {
    reg.resolve_spec(c.token) is Some
}

/// The position of the winning candidate among the first `n` candidates:
/// the earliest resolvable candidate of maximum weight. A later candidate
/// replaces the running winner only with a strictly greater weight.
pub open spec fn best_upto(reg: Registry, cands: Seq<CandidateView>, n: int) -> Option<int>
    decreases n,
{
    if n <= 0 {
        None
    } else {
        let prev = best_upto(reg, cands, n - 1);
        let cur = n - 1;
        if resolves(reg, cands[cur]) {
            match prev {
                None => Some(cur),
                Some(b) => if cands[cur].weight > cands[b].weight {
                    Some(cur)
                } else {
                    Some(b)
                },
            }
        } else {
            prev
        }
    }
}

/// The position of the winning candidate of the whole list.
pub open spec fn best_candidate(reg: Registry, cands: Seq<CandidateView>) -> Option<int> {
    best_upto(reg, cands, cands.len() as int)
}

/// The selected registry position for a candidate list.
pub open spec fn select_spec(reg: Registry, cands: Seq<CandidateView>) -> Option<int> {
    match best_candidate(reg, cands) {
        None => None,
        Some(b) => reg.resolve_spec(cands[b].token),
    }
}

/// The selected registry position for an accept header: parse, then select.
pub open spec fn negotiate_spec(reg: Registry, h: Option<Seq<u8>>) -> Option<int> {
    select_spec(reg, parse_accept_spec(h))
}

/// The winner among the first `n` candidates resolves, carries the maximum
/// weight of all resolvable candidates there, and stands earliest among
/// those of equal weight; with no winner, nothing resolves.
pub proof fn lemma_best_candidate(reg: Registry, cands: Seq<CandidateView>, n: int)
    requires
        0 <= n <= cands.len(),
    ensures
        match best_upto(reg, cands, n) {
            None => forall|i: int| 0 <= i < n ==> !resolves(reg, #[trigger] cands[i]),
            Some(b) => {
                &&& 0 <= b < n
                &&& resolves(reg, cands[b])
                &&& forall|i: int|
                    0 <= i < n && resolves(reg, #[trigger] cands[i])
                    ==> cands[i].weight <= cands[b].weight
                &&& forall|i: int|
                    0 <= i < n && resolves(reg, #[trigger] cands[i]) && cands[i].weight
                    == cands[b].weight ==> b <= i
            },
        },
    decreases n,
{
    if n > 0 {
        lemma_best_candidate(reg, cands, n - 1);
    }
}

/// P1 as a law: whatever the selector chooses is a member of the registry,
/// and the wildcard token always resolves to the configured default.
pub proof fn lemma_selection_in_registry(reg: Registry, h: Option<Seq<u8>>)
    requires
        reg.wf(),
    ensures
        negotiate_spec(reg, h) matches Some(i) ==> 0 <= i < reg.tokens_view().len(),
        reg.resolve_spec(wildcard_token()) == Some(reg.default_index as int),
{
    let cands = parse_accept_spec(h);
    lemma_best_candidate(reg, cands, cands.len() as int);
    if negotiate_spec(reg, h) is Some {
        let b = best_candidate(reg, cands).unwrap();
        let t = cands[b].token;
        if t != wildcard_token() {
            crate::registry::lemma_index_of_first(reg.tokens_view(), t);
        }
    }
}

/// P2 as a law: selection is deterministic. Any two selections made from
/// the same accept header and the same registry agree.
pub proof fn lemma_selection_deterministic(
    reg: Registry,
    h: Option<Seq<u8>>,
    r1: Option<int>,
    r2: Option<int>,
)
    requires
        r1 == negotiate_spec(reg, h),
        r2 == negotiate_spec(reg, h),
    ensures
        r1 == r2,
{
}

/// P3 as a law: of two resolvable candidates with equal quality weight, the
/// one appearing earlier in the accept string is preferred — the later one
/// is never the winner.
pub proof fn lemma_equal_weight_prefers_earlier(
    reg: Registry,
    cands: Seq<CandidateView>,
    i: int,
    j: int,
)
    requires
        0 <= i < j < cands.len(),
        resolves(reg, cands[i]),
        resolves(reg, cands[j]),
        cands[i].weight == cands[j].weight,
    ensures
        best_candidate(reg, cands) is Some,
        best_candidate(reg, cands) != Some(j),
{
    lemma_best_candidate(reg, cands, cands.len() as int);
}

/// Applies the selector to a parsed candidate list.
pub fn select_format(reg: &Registry, cands: &Vec<AcceptCandidate>) -> (r: Option<usize>)
    requires
        reg.wf(),
    ensures
        match r {
            Some(i) => select_spec(*reg, cands_view(*cands)) == Some(i as int) && (i as int)
                < reg.tokens_view().len(),
            None => select_spec(*reg, cands_view(*cands)) is None,
        },
{
    let ghost cv = cands_view(*cands);
    let n = cands.len();
    let mut have: bool = false;
    let mut best_i: usize = 0;
    let mut best_w: u32 = 0;
    let mut best_r: usize = 0;
    let mut i: usize = 0;
    while i < n
        invariant
            reg.wf(),
            n == cv.len(),
            cv == cands_view(*cands),
            0 <= i <= n,
            !have ==> best_upto(*reg, cv, i as int) is None,
            have ==> {
                &&& best_upto(*reg, cv, i as int) == Some(best_i as int)
                &&& best_i < n
                &&& cv[best_i as int].weight == best_w
                &&& reg.resolve_spec(cv[best_i as int].token) == Some(best_r as int)
                &&& (best_r as int) < reg.tokens_view().len()
            },
        decreases n - i,
    {
        proof {
            assert(cv[i as int] == cands@[i as int]@);
        }
        let resolved = reg.resolve(cands[i].token.as_slice());
        match resolved {
            Some(ri) => {
                proof {
                    assert(resolves(*reg, cv[i as int]));
                    if ri == reg.default_index {
                    } else {
                        crate::registry::lemma_index_of_first(
                            reg.tokens_view(),
                            cv[i as int].token,
                        );
                    }
                    assert((ri as int) < reg.tokens_view().len());
                }
                if !have || cands[i].weight > best_w {
                    have = true;
                    best_i = i;
                    best_w = cands[i].weight;
                    best_r = ri;
                }
            },
            None => {
                proof {
                    assert(!resolves(*reg, cv[i as int]));
                }
            },
        }
        i = i + 1;
    }
    if have {
        Some(best_r)
    } else {
        None
    }
}

/// Runs the parser and the selector for one exchange: the chosen format, or
/// `None` when no acceptable format is registered. The result is a function
/// of the accept header and the registry alone.
pub fn negotiate(reg: &Registry, header: Option<&[u8]>) -> (r: Option<NegotiatedFormat>)
    requires
        reg.wf(),
    ensures
        ({
            let sel = negotiate_spec(*reg, opt_view(header));
            match r {
                Some(f) => {
                    &&& sel is Some
                    &&& f.token@ == reg.token_at(sel.unwrap())
                    &&& codec_for_spec(f.token@) == Some(f.codec)
                },
                None => sel is None,
            }
        }),
{
    let cands = parse_accept(header);
    let sel = select_format(reg, &cands);
    match sel {
        Some(i) => {
            let token = reg.token_bytes(i);
            let codec = reg.codec_at(i);
            Some(NegotiatedFormat { token, codec })
        },
        None => None,
    }
}

} // verus!
