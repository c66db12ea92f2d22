//! The accept parser: turns a raw accept preference string into an ordered
//! list of candidates with quality weights.
//!
//! A preference string is a comma-separated list of entries; an entry is a
//! media-type token, optionally followed by semicolon-separated parameters,
//! the first `q=` parameter carrying the entry's quality weight.
//!
//! Weights are kept in thousandths (0 ..= 1000) so the whole parse is exact
//! integer arithmetic. A quality value is digits with an optional dot and
//! fraction digits, of which the first three count; a malformed value
//! degrades that one candidate to weight 0 instead of failing the parse, and
//! a value above 1 clamps to 1. A missing `q=` parameter means weight 1.
//! An absent header parses as the single wildcard candidate at weight 1.

use vstd::prelude::*;

verus! {

use vstd::slice::slice_subrange;
use vstd::slice::slice_to_vec;
use crate::scan::find_or_len;
use crate::scan::lemma_find_or_len;
use crate::scan::find_byte;
use crate::scan::trim_spec;
use crate::scan::trim;
use crate::scan::split_spec;
use crate::scan::split_bytes;
use crate::scan::views_of;
use crate::registry::wildcard_token;
use crate::registry::wildcard_token_bytes;

/// One parsed entry of an accept preference list: a media-type token, not
/// yet resolved against the registry, and a quality weight in thousandths.
pub struct AcceptCandidate {
    pub token: Vec<u8>,
    pub weight: u32,
}

/// The mathematical value of an `AcceptCandidate`.
pub ghost struct CandidateView {
    pub token: Seq<u8>,
    pub weight: int,
}

impl View for AcceptCandidate {
    type V = CandidateView;

    open spec fn view(&self) -> CandidateView {
        CandidateView { token: self.token@, weight: self.weight as int }
    }
}

/// An ASCII decimal digit.
pub open spec fn is_digit(b: u8) -> bool {
    48 <= b <= 57
}

/// Every byte of `s` is a digit.
pub open spec fn all_digits(s: Seq<u8>) -> bool {
    forall|i: int| 0 <= i < s.len() ==> is_digit(#[trigger] s[i])
}

/// The value of a digit string read in base ten.
pub open spec fn digits_val(s: Seq<u8>) -> int
    decreases s.len(),
{
    if s.len() == 0 {
        0
    } else {
        digits_val(s.drop_last()) * 10 + (s.last() - 48)
    }
}

/// The integer and fraction parts of a quality value: the text before the
/// first dot, and the text after it (empty when there is no dot).
pub open spec fn q_parts(s: Seq<u8>) -> (Seq<u8>, Seq<u8>) {
    let dot = find_or_len(s, '.' as u8) as int;
    if dot == s.len() {
        (s, Seq::<u8>::empty())
    } else {
        (s.take(dot), s.skip(dot + 1))
    }
}

/// The quality grammar: digits with an optional dot and fraction digits,
/// at least one digit in all, and no second dot.
pub open spec fn q_well_formed(s: Seq<u8>) -> bool {
    let (ip, fp) = q_parts(s);
    all_digits(ip) && all_digits(fp) && ip.len() + fp.len() > 0
}

/// The first three fraction digits read as thousandths.
pub open spec fn frac_thousandths(s: Seq<u8>) -> int {
    (if s.len() >= 1 {
        (s[0] - 48) * 100
    } else {
        0
    }) + (if s.len() >= 2 {
        (s[1] - 48) * 10
    } else {
        0
    }) + (if s.len() >= 3 {
        s[2] - 48
    } else {
        0
    })
}

/// The weight in thousandths denoted by quality-value text: 0 when the text
/// is malformed, clamped to 1000 otherwise.
pub open spec fn qvalue_spec(s: Seq<u8>) -> int {
    if !q_well_formed(s) {
        0
    } else {
        let (ip, fp) = q_parts(s);
        let v = digits_val(ip) * 1000 + frac_thousandths(fp);
        if v > 1000 {
            1000
        } else {
            v
        }
    }
}

/// Appending a digit multiplies the value by ten and adds the digit.
proof fn lemma_digits_val_step(s: Seq<u8>, i: int)
    requires
        0 <= i < s.len(),
    ensures
        digits_val(s.take(i + 1)) == digits_val(s.take(i)) * 10 + (s[i] - 48),
{
    assert(s.take(i + 1).drop_last() =~= s.take(i));
    assert(s.take(i + 1).last() == s[i]);
}

/// Parses quality-value text into thousandths; malformed text gives 0.
pub fn parse_qvalue(s: &[u8]) -> (r: u32)
    ensures
        r == qvalue_spec(s@),
        r <= 1000,
{
    proof {
        lemma_find_or_len(s@, '.' as u8);
    }
    let n = s.len();
    let dot = find_byte(s, '.' as u8);
    let ghost ip = q_parts(s@).0;
    let ghost fp = q_parts(s@).1;
    proof {
        assert(ip =~= s@.take(dot as int));
        if dot < n {
            assert(fp =~= s@.skip(dot as int + 1));
        }
    }
    let fp_len = if dot == n {
        0
    } else {
        n - dot - 1
    };
    if dot == 0 && fp_len == 0 {
        proof {
            assert(ip.len() == 0);
            assert(fp.len() == 0);
            assert(!q_well_formed(s@));
        }
        return 0;
    }
    let mut i: usize = 0;
    while i < dot
        invariant
            n == s@.len(),
            dot <= n,
            ip == s@.take(dot as int),
            ip == q_parts(s@).0,
            fp == q_parts(s@).1,
            0 <= i <= dot,
            forall|j: int| 0 <= j < i ==> is_digit(#[trigger] ip[j]),
        decreases dot - i,
    {
        let b = s[i];
        if b < 48 || b > 57 {
            proof {
                assert(ip[i as int] == s@[i as int]);
                assert(!is_digit(ip[i as int]));
            }
            return 0;
        }
        i = i + 1;
    }
    let fp_start = if dot == n {
        n
    } else {
        dot + 1
    };
    let mut k: usize = 0;
    while k < fp_len
        invariant
            n == s@.len(),
            dot <= n,
            fp_start == (if dot == n { n as int } else { dot + 1 }),
            fp_len == n - fp_start,
            dot < n ==> fp == s@.skip(dot as int + 1),
            dot == n ==> fp == Seq::<u8>::empty(),
            ip == q_parts(s@).0,
            fp == q_parts(s@).1,
            0 <= k <= fp_len,
            forall|j: int| 0 <= j < k ==> is_digit(#[trigger] fp[j]),
        decreases fp_len - k,
    {
        let b = s[fp_start + k];
        proof {
            assert(fp[k as int] == s@[fp_start + k]);
        }
        if b < 48 || b > 57 {
            proof {
                assert(!is_digit(fp[k as int]));
            }
            return 0;
        }
        k = k + 1;
    }
    proof {
        assert(all_digits(ip));
        assert(all_digits(fp));
        assert(ip.len() + fp.len() > 0);
        assert(q_well_formed(s@));
    }
    let mut acc: u32 = 0;
    let mut i2: usize = 0;
    proof {
        assert(ip.take(0) =~= Seq::<u8>::empty());
    }
    while i2 < dot
        invariant
            n == s@.len(),
            dot <= n,
            ip == s@.take(dot as int),
            all_digits(ip),
            0 <= i2 <= dot,
            (digits_val(ip.take(i2 as int)) <= 1000 && acc == digits_val(ip.take(i2 as int)))
                || (digits_val(ip.take(i2 as int)) > 1000 && acc == 1001),
        decreases dot - i2,
    {
        let b = s[i2];
        proof {
            assert(ip[i2 as int] == s@[i2 as int]);
            assert(is_digit(ip[i2 as int]));
            lemma_digits_val_step(ip, i2 as int);
        }
        let d = (b - 48) as u32;
        if acc >= 1001 {
            acc = 1001;
        } else {
            let t = acc * 10 + d;
            if t > 1000 {
                acc = 1001;
            } else {
                acc = t;
            }
        }
        i2 = i2 + 1;
    }
    proof {
        assert(ip.take(dot as int) =~= ip);
    }
    proof {
        if fp_len >= 1 {
            assert(fp[0] == s@[fp_start as int]);
            assert(is_digit(fp[0]));
        }
        if fp_len >= 2 {
            assert(fp[1] == s@[fp_start + 1]);
            assert(is_digit(fp[1]));
        }
        if fp_len >= 3 {
            assert(fp[2] == s@[fp_start + 2]);
            assert(is_digit(fp[2]));
        }
    }
    let f0 = if fp_len >= 1 {
        (s[fp_start] - 48) as u32 * 100
    } else {
        0
    };
    let f1 = if fp_len >= 2 {
        (s[fp_start + 1] - 48) as u32 * 10
    } else {
        0
    };
    let f2 = if fp_len >= 3 {
        (s[fp_start + 2] - 48) as u32
    } else {
        0
    };
    let frac = f0 + f1 + f2;
    proof {
        assert(frac == frac_thousandths(fp));
    }
    if acc >= 1001 {
        1000
    } else {
        let v = acc * 1000 + frac;
        if v > 1000 {
            1000
        } else {
            v
        }
    }
}

/// The weight carried by a parameter list: the first `q=` parameter decides;
/// with none, the weight defaults to 1000.
pub open spec fn weight_from_params(params: Seq<Seq<u8>>) -> int
    decreases params.len(),
{
    if params.len() == 0 {
        1000
    } else {
        let p = trim_spec(params[0]);
        if p.len() >= 2 && p[0] == 'q' as u8 && p[1] == '=' as u8 {
            qvalue_spec(p.skip(2))
        } else {
            weight_from_params(params.skip(1))
        }
    }
}

/// The weight carried by a candidate's parameter tail.
pub open spec fn weight_of_tail(tail: Seq<u8>) -> int {
    weight_from_params(split_spec(tail, ';' as u8))
}

/// Scans a parameter tail for its first `q=` parameter.
fn parse_tail_weight(tail: &[u8]) -> (r: u32)
    ensures
        r == weight_of_tail(tail@),
        r <= 1000,
{
    let params = split_bytes(tail, ';' as u8);
    let ghost ps = views_of(params);
    let n = params.len();
    let mut i: usize = 0;
    proof {
        assert(ps.skip(0) =~= ps);
    }
    while i < n
        invariant
            n == ps.len(),
            ps == views_of(params),
            ps == split_spec(tail@, ';' as u8),
            0 <= i <= n,
            weight_from_params(ps) == weight_from_params(ps.skip(i as int)),
        decreases n - i,
    {
        let p = trim(params[i].as_slice());
        proof {
            assert(ps.skip(i as int)[0] == ps[i as int]);
            assert(ps[i as int] == params@[i as int]@);
        }
        if p.len() >= 2 {
            let c0 = p[0];
            let c1 = p[1];
            if c0 == 'q' as u8 && c1 == '=' as u8 {
                let rest = slice_subrange(p, 2, p.len());
                proof {
                    assert(rest@ =~= trim_spec(ps[i as int]).skip(2));
                    assert(trim_spec(ps.skip(i as int)[0]) == p@);
                    assert(p@.len() >= 2 && p@[0] == 'q' as u8 && p@[1] == '=' as u8);
                    assert(weight_from_params(ps.skip(i as int)) == qvalue_spec(p@.skip(2)));
                    assert(p@.skip(2) == rest@);
                }
                return parse_qvalue(rest);
            }
        }
        proof {
            let p0 = trim_spec(ps.skip(i as int)[0]);
            assert(!(p0.len() >= 2 && p0[0] == 'q' as u8 && p0[1] == '=' as u8));
            assert(ps.skip(i as int).skip(1) =~= ps.skip(i as int + 1));
            assert(weight_from_params(ps.skip(i as int))
                == weight_from_params(ps.skip(i as int + 1)));
        }
        i = i + 1;
    }
    1000
}

/// The candidate denoted by one comma-separated segment: `None` for a
/// segment that is empty after trimming, otherwise the token before the
/// first semicolon with the weight carried by the rest.
pub open spec fn candidate_of(seg: Seq<u8>) -> Option<CandidateView> {
    let t = trim_spec(seg);
    if t.len() == 0 {
        None
    } else {
        let i = find_or_len(t, ';' as u8) as int;
        let token = t.take(i);
        let tail = if i == t.len() {
            Seq::<u8>::empty()
        } else {
            t.skip(i + 1)
        };
        Some(CandidateView { token, weight: weight_of_tail(tail) })
    }
}

/// Parses one comma-separated segment.
fn candidate_of_segment(seg: &[u8]) -> (r: Option<AcceptCandidate>)
    ensures
        match r {
            Some(c) => candidate_of(seg@) == Some(c@) && c.weight <= 1000,
            None => candidate_of(seg@) is None,
        },
{
    let t = trim(seg);
    let n = t.len();
    if n == 0 {
        return None;
    }
    proof {
        lemma_find_or_len(t@, ';' as u8);
    }
    let i = find_byte(t, ';' as u8);
    let token = slice_to_vec(slice_subrange(t, 0, i));
    let tail = if i == n {
        slice_subrange(t, n, n)
    } else {
        slice_subrange(t, i + 1, n)
    };
    proof {
        let spec_tail = if i == n {
            Seq::<u8>::empty()
        } else {
            t@.skip(i as int + 1)
        };
        assert(tail@ =~= spec_tail);
        assert(token@ =~= t@.take(i as int));
    }
    let weight = parse_tail_weight(tail);
    Some(AcceptCandidate { token, weight })
}

/// The candidates of a segment list, in order, skipping empty segments.
pub open spec fn candidates_spec(segs: Seq<Seq<u8>>) -> Seq<CandidateView>
    decreases segs.len(),
{
    if segs.len() == 0 {
        Seq::<CandidateView>::empty()
    } else {
        let rest = candidates_spec(segs.drop_last());
        match candidate_of(segs.last()) {
            None => rest,
            Some(c) => rest.push(c),
        }
    }
}

/// The views of a candidate vector, element by element.
pub open spec fn cands_view(v: Vec<AcceptCandidate>) -> Seq<CandidateView> {
    Seq::new(v@.len(), |i: int| v@[i]@)
}

/// The candidate list denoted by an accept header: the parse of its text,
/// or the single wildcard candidate at weight 1000 when the header is
/// absent.
pub open spec fn parse_accept_spec(h: Option<Seq<u8>>) -> Seq<CandidateView> {
    match h {
        None => seq![CandidateView { token: wildcard_token(), weight: 1000 }],
        Some(s) => candidates_spec(split_spec(s, ',' as u8)),
    }
}

/// The view of an optional header value.
pub open spec fn opt_view(h: Option<&[u8]>) -> Option<Seq<u8>> {
    match h {
        None => None,
        Some(s) => Some(s@),
    }
}

/// P4 as a law: a malformed quality value degrades that one candidate to
/// weight 0. The candidate itself is kept — every segment with any text
/// after trimming yields a candidate — so one bad preference never blocks
/// the parse or discards its entry.
pub proof fn lemma_malformed_quality_degrades(s: Seq<u8>, seg: Seq<u8>)
    requires
        !q_well_formed(s),
    ensures
        qvalue_spec(s) == 0,
        trim_spec(seg).len() > 0 ==> candidate_of(seg) is Some,
{
}

/// Parses an accept preference string into its ordered candidate list.
pub fn parse_accept(header: Option<&[u8]>) -> (r: Vec<AcceptCandidate>)
    ensures
        cands_view(r) == parse_accept_spec(opt_view(header)),
        forall|i: int| 0 <= i < r@.len() ==> (#[trigger] r@[i]).weight <= 1000,
{
    match header {
        None => {
            let token = wildcard_token_bytes();
            let mut r: Vec<AcceptCandidate> = Vec::new();
            r.push(AcceptCandidate { token, weight: 1000 });
            proof {
                assert(cands_view(r) =~= parse_accept_spec(opt_view(header)));
            }
            r
        },
        Some(h) => {
            let segs = split_bytes(h, ',' as u8);
            let ghost ss = views_of(segs);
            let n = segs.len();
            let mut r: Vec<AcceptCandidate> = Vec::new();
            let mut i: usize = 0;
            proof {
                assert(ss.take(0) =~= Seq::<Seq<u8>>::empty());
                assert(cands_view(r) =~= candidates_spec(ss.take(0)));
            }
            while i < n
                invariant
                    n == ss.len(),
                    ss == views_of(segs),
                    0 <= i <= n,
                    cands_view(r) == candidates_spec(ss.take(i as int)),
                    forall|k: int| 0 <= k < r@.len() ==> (#[trigger] r@[k]).weight <= 1000,
                decreases n - i,
            {
                proof {
                    assert(ss.take(i as int + 1).drop_last() =~= ss.take(i as int));
                    assert(ss.take(i as int + 1).last() == ss[i as int]);
                    assert(ss[i as int] == segs@[i as int]@);
                }
                let ghost old_cands = cands_view(r);
                match candidate_of_segment(segs[i].as_slice()) {
                    Some(c) => {
                        r.push(c);
                        proof {
                            assert(cands_view(r) =~= old_cands.push(c@));
                        }
                    },
                    None => {},
                }
                i = i + 1;
            }
            proof {
                assert(ss.take(n as int) =~= ss);
            }
            r
        },
    }
}

} // verus!
