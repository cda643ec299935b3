//! Format negotiation: out of every (encoding, resolution, frame-interval)
//! triple a capture device reports, select the single best capture format
//! under the ranking `width * height * frameRate^2`, where the frame rate of
//! a discrete interval `numerator/denominator` seconds is
//! `denominator / numerator` frames per second. Ties keep the first-seen
//! candidate. Only discrete descriptors of the one supported packed
//! luma/chroma encoding take part.

use vstd::prelude::*;
use vstd::arithmetic::mul::lemma_mul_upper_bound;
use crate::error::CamError;

verus! {

/// A pixel encoding as a capture device reports it. Only the packed
/// 4:2:2 luma/chroma encoding (two luma samples and one shared chroma
/// pair per four bytes) is supported by this pipeline.
#[derive(Clone, Copy, Debug, PartialEq, Eq, Structural)]
pub enum PixelEncoding {
    PackedLumaChroma422,
    Other,
}

/// A resolution descriptor: either an exact size or a range.
/// Ranges are never evaluated by the negotiator.
#[derive(Clone, Copy, Debug, PartialEq, Eq, Structural)]
pub enum ResolutionDesc {
    Discrete { width: u32, height: u32 },
    Range { min_width: u32, min_height: u32, max_width: u32, max_height: u32 },
}

/// A frame-interval descriptor in seconds, as a rational
/// `numerator / denominator`. Ranges are never evaluated.
#[derive(Clone, Copy, Debug, PartialEq, Eq, Structural)]
pub enum IntervalDesc {
    Discrete { numerator: u16, denominator: u16 },
    Range { min_numerator: u16, min_denominator: u16, max_numerator: u16, max_denominator: u16 },
}

/// One capability triple as enumerated from a device.
#[derive(Clone, Copy, Debug, PartialEq, Eq, Structural)]
pub struct Candidate {
    pub encoding: PixelEncoding,
    pub resolution: ResolutionDesc,
    pub interval: IntervalDesc,
}

/// The negotiated capture format. Immutable once selected; the frame
/// rate is the rational `rate_num / rate_den` frames per second.
#[derive(Clone, Copy, Debug, PartialEq, Eq, Structural)]
pub struct CaptureFormat {
    pub width: u32,
    pub height: u32,
    pub encoding: PixelEncoding,
    pub rate_num: u16,
    pub rate_den: u16,
}

/// A well-formed capture format has positive dimensions and a positive
/// rational frame rate.
pub open spec fn format_wf(f: CaptureFormat) -> bool {
    f.width > 0 && f.height > 0 && f.rate_num > 0 && f.rate_den > 0
}

/// A candidate takes part in scoring exactly when it is of the supported
/// encoding, its resolution and interval are both discrete, and its
/// interval numerator is nonzero (the division-by-zero guard for the
/// frame rate `denominator / numerator`).
pub open spec fn candidate_ok(c: Candidate) -> bool {
    &&& c.encoding is PackedLumaChroma422
    &&& c.resolution is Discrete
    &&& c.interval is Discrete
    &&& c.interval->numerator != 0
}

/// The capture format a candidate denotes: its discrete size, and the
/// frame rate `denominator / numerator` of its discrete interval.
pub open spec fn format_of(c: Candidate) -> CaptureFormat
    recommends
        candidate_ok(c),
{
    CaptureFormat {
        width: c.resolution->width,
        height: c.resolution->height,
        encoding: c.encoding,
        rate_num: c.interval->denominator,
        rate_den: c.interval->numerator,
    }
}

/// Numerator of a candidate's quality score `w * h * (den/num)^2`,
/// written over the fraction `(w*h*den^2) / num^2`.
pub open spec fn score_num(c: Candidate) -> int
    recommends
        candidate_ok(c),
{
    (c.resolution->width * c.resolution->height) * (c.interval->denominator * c.interval->denominator)
}

/// Denominator of a candidate's quality score.
pub open spec fn score_den(c: Candidate) -> int {
    c.interval->numerator * c.interval->numerator
}

/// `a`'s score is strictly below `b`'s, compared as fractions by
/// cross-multiplication (both denominators are positive squares).
pub open spec fn score_lt(a: Candidate, b: Candidate) -> bool {
    score_num(a) * score_den(b) < score_num(b) * score_den(a)
}

/// The selection condition: `s[i]` is valid, no valid candidate scores
/// above it, and every valid candidate before it scores strictly below
/// it (so a tie keeps the first-seen candidate).
pub open spec fn chosen_at(s: Seq<Candidate>, i: int) -> bool {
    &&& 0 <= i < s.len()
    &&& candidate_ok(s[i])
    &&& forall|j: int| 0 <= j < s.len() && candidate_ok(#[trigger] s[j]) ==> !score_lt(s[i], s[j])
    &&& forall|j: int| 0 <= j < i && candidate_ok(#[trigger] s[j]) ==> score_lt(s[j], s[i])
}

/// Whether a candidate takes part in scoring.
pub fn candidate_is_ok(c: &Candidate) -> (r: bool)
    ensures
        r == candidate_ok(*c),
{
    let enc_ok = match c.encoding {
        PixelEncoding::PackedLumaChroma422 => true,
        PixelEncoding::Other => false,
    };
    let res_ok = match c.resolution {
        ResolutionDesc::Discrete { .. } => true,
        ResolutionDesc::Range { .. } => false,
    };
    let int_ok = match c.interval {
        IntervalDesc::Discrete { numerator, .. } => numerator != 0,
        IntervalDesc::Range { .. } => false,
    };
    enc_ok && res_ok && int_ok
}

/// The cross product `score_num(x) * score_den(y)`, exact in 128 bits:
/// the factors are bounded by `(2^32-1)^2 * (2^16-1)^2 * (2^16-1)^2`,
/// which is below `2^128`.
fn cross_product(x: &Candidate, y: &Candidate) -> (r: u128)
    requires
        candidate_ok(*x),
        candidate_ok(*y),
    ensures
        r == score_num(*x) * score_den(*y),
{
    match (x.resolution, x.interval, y.interval) {
        (
            ResolutionDesc::Discrete { width, height },
            IntervalDesc::Discrete { denominator, .. },
            IntervalDesc::Discrete { numerator, .. },
        ) => {
            proof {
                lemma_mul_upper_bound(width as int, 0xffff_ffff as int, height as int, 0xffff_ffff as int);
                lemma_mul_upper_bound(denominator as int, 0xffff as int, denominator as int, 0xffff as int);
                lemma_mul_upper_bound(numerator as int, 0xffff as int, numerator as int, 0xffff as int);
            }
            let wh: u64 = (width as u64) * (height as u64);
            let dd: u64 = (denominator as u64) * (denominator as u64);
            let nn: u64 = (numerator as u64) * (numerator as u64);
            proof {
                lemma_mul_upper_bound(wh as int, 0xffff_fffe_0000_0001 as int, dd as int, 0xfffe_0001 as int);
            }
            let p: u128 = (wh as u128) * (dd as u128);
            proof {
                lemma_mul_upper_bound(
                    p as int,
                    0xffff_fffe_0000_0001 as int * 0xfffe_0001 as int,
                    nn as int,
                    0xfffe_0001 as int,
                );
            }
            p * (nn as u128)
        }
        _ => {
            proof {
                assert(false);
            }
            0
        }
    }
}

/// Whether `a` scores strictly above `b`.
fn score_exceeds(a: &Candidate, b: &Candidate) -> (r: bool)
    requires
        candidate_ok(*a),
        candidate_ok(*b),
    ensures
        r == score_lt(*b, *a),
{
    let lhs = cross_product(b, a);
    let rhs = cross_product(a, b);
    lhs < rhs
}

/// Fractions with positive denominators: below-or-equal composed with
/// strictly-below is strictly-below.
proof fn lemma_frac_le_lt_trans(na: int, da: int, nb: int, db: int, nc: int, dc: int)
    by (nonlinear_arith)
    requires
        da > 0,
        db > 0,
        dc > 0,
        na * db <= nb * da,
        nb * dc < nc * db,
    ensures
        na * dc < nc * da,
{
}

/// Scores order transitively: if `a` scores no higher than `b` and `b`
/// scores strictly below `c`, then `a` scores strictly below `c`.
proof fn lemma_score_le_lt_trans(a: Candidate, b: Candidate, c: Candidate)
    requires
        candidate_ok(a),
        candidate_ok(b),
        candidate_ok(c),
        !score_lt(b, a),
        score_lt(b, c),
    ensures
        score_lt(a, c),
{
    let pa = a.interval->numerator as int;
    let pb = b.interval->numerator as int;
    let pc = c.interval->numerator as int;
    assert(pa * pa > 0 && pb * pb > 0 && pc * pc > 0) by (nonlinear_arith)
        requires
            pa >= 1,
            pb >= 1,
            pc >= 1,
    ;
    lemma_frac_le_lt_trans(
        score_num(a),
        score_den(a),
        score_num(b),
        score_den(b),
        score_num(c),
        score_den(c),
    );
}

/// Law: format scoring is deterministic — the selection condition pins
/// a single index, so a fixed candidate list always yields the same
/// chosen format, with no nondeterministic tie resolution.
pub proof fn lemma_negotiation_deterministic(s: Seq<Candidate>, i: int, j: int)
    requires
        chosen_at(s, i),
        chosen_at(s, j),
    ensures
        i == j,
{
    if i < j {
        assert(score_lt(s[i], s[j]));
        assert(!score_lt(s[i], s[j]));
    }
    if j < i {
        assert(score_lt(s[j], s[i]));
        assert(!score_lt(s[j], s[i]));
    }
}

/// Enumerate the candidate list and return the format of the best-scoring
/// valid candidate, or `NoCompatibleFormat` when no candidate is valid.
pub fn negotiate(candidates: &Vec<Candidate>) -> (r: Result<CaptureFormat, CamError>)
    ensures
        match r {
            Ok(f) => exists|i: int|
                chosen_at(candidates@, i) && f == format_of(candidates@[i]),
            Err(e) => {
                &&& e == CamError::NoCompatibleFormat
                &&& forall|i: int|
                    0 <= i < candidates@.len() ==> !candidate_ok(#[trigger] candidates@[i])
            },
        },
{
    let mut best: Option<usize> = None;
    let mut k: usize = 0;
    while k < candidates.len()
        invariant
            k <= candidates@.len(),
            match best {
                Some(b) => {
                    &&& b < k
                    &&& candidate_ok(candidates@[b as int])
                    &&& forall|j: int|
                        0 <= j < k && candidate_ok(#[trigger] candidates@[j])
                            ==> !score_lt(candidates@[b as int], candidates@[j])
                    &&& forall|j: int|
                        0 <= j < b && candidate_ok(#[trigger] candidates@[j])
                            ==> score_lt(candidates@[j], candidates@[b as int])
                },
                None => forall|j: int|
                    0 <= j < k ==> !candidate_ok(#[trigger] candidates@[j]),
            },
        decreases candidates@.len() - k,
    {
        let c = candidates[k];
        if candidate_is_ok(&c) {
            match best {
                None => {
                    best = Some(k);
                }
                Some(b) => {
                    if score_exceeds(&c, &candidates[b]) {
                        proof {
                            assert forall|j: int|
                                0 <= j < k && candidate_ok(#[trigger] candidates@[j])
                                    implies score_lt(candidates@[j], candidates@[k as int]) by {
                                lemma_score_le_lt_trans(
                                    candidates@[j],
                                    candidates@[b as int],
                                    candidates@[k as int],
                                );
                            }
                        }
                        best = Some(k);
                    }
                }
            }
        }
        k = k + 1;
    }
    match best {
        None => Err(CamError::NoCompatibleFormat),
        Some(b) => {
            let c = &candidates[b];
            proof {
                assert(chosen_at(candidates@, b as int));
            }
            match (c.resolution, c.interval) {
                (
                    ResolutionDesc::Discrete { width, height },
                    IntervalDesc::Discrete { numerator, denominator },
                ) => Ok(
                    CaptureFormat {
                        width,
                        height,
                        encoding: c.encoding,
                        rate_num: denominator,
                        rate_den: numerator,
                    },
                ),
                _ => {
                    proof {
                        assert(false);
                    }
                    Err(CamError::NoCompatibleFormat)
                }
            }
        }
    }
}

/// After the caller applies a negotiated format to the device, confirm
/// that the encoding the device reports back is the one requested;
/// a different encoding is the fatal `FormatMismatch`.
pub fn confirm_applied(requested: &CaptureFormat, reported: PixelEncoding) -> (r: Result<(), CamError>)
    ensures
        r is Ok <==> reported == requested.encoding,
        r matches Err(e) ==> e == CamError::FormatMismatch,
{
    if reported == requested.encoding {
        Ok(())
    } else {
        Err(CamError::FormatMismatch)
    }
}

} // verus!
