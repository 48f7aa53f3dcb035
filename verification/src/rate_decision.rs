//! Choosing the rate of a decoded RC1 reverse traffic frame among the trial
//! decodes at the four rates.
use vstd::prelude::*;
use crate::rc1_rate::{Rc1TrafficRate, rate_index, rate_at, rate_slot};
use crate::fqi::FrameValidation;

verus! {

/// A frame decoded at one rate.
pub struct DecodedTrafficFrame {
    pub rate: Rc1TrafficRate,
    pub bits: Vec<u8>,
    pub validation: FrameValidation,
    /// The unconstrained Viterbi best terminal state was the all-zero state.
    pub ml_terminal_matches_zero: bool,
}

/// Trial decodes of one frame, one per rate, in the default order.
pub open spec fn candidates_wf(c: Seq<DecodedTrafficFrame>) -> bool {
    &&& c.len() == 4
    &&& forall|k: int| 0 <= k < 4 ==> (#[trigger] c[k]).rate == rate_at(k)
}

pub open spec fn has_nonzero(bits: Seq<u8>) -> bool {
    exists|k: int| 0 <= k < bits.len() && #[trigger] bits[k] != 0
}

pub open spec fn all_zero(bits: Seq<u8>) -> bool {
    forall|k: int| 0 <= k < bits.len() ==> #[trigger] bits[k] == 0
}

fn any_nonzero(bits: &Vec<u8>) -> (r: bool)
    ensures
        r == has_nonzero(bits@),
{
    let mut i: usize = 0;
    while i < bits.len()
        invariant
            i <= bits@.len(),
            forall|k: int| 0 <= k < i ==> #[trigger] bits@[k] == 0,
        decreases bits@.len() - i,
    {
        if bits[i] != 0 {
            return true;
        }
        i += 1;
    }
    false
}

/// A frame of a rate without quality indicator counts only when it passes its
/// checks and the Viterbi decoder ended on its own in the all-zero state.
pub open spec fn spec_no_fqi_acceptable(d: DecodedTrafficFrame) -> bool {
    d.validation.phy_valid && d.ml_terminal_matches_zero
}

/// Whether a quarter- or eighth-rate candidate may be chosen.
pub fn no_fqi_candidate_acceptable(decoded: &DecodedTrafficFrame) -> (r: bool)
    ensures
        r == spec_no_fqi_acceptable(*decoded),
{
    decoded.validation.phy_valid && decoded.ml_terminal_matches_zero
}

/// Score of a rate-without-quality-indicator candidate in the decoder.
pub open spec fn spec_no_fqi_score(locked: Option<Rc1TrafficRate>, d: DecodedTrafficFrame) -> nat {
    (if locked == Some(d.rate) { 1000nat } else { 0nat })
        + (if d.ml_terminal_matches_zero { 500nat } else { 0nat })
        + (if has_nonzero(d.bits@) { 50nat } else { 0nat })
        + match d.rate {
            Rc1TrafficRate::Quarter => 20nat,
            Rc1TrafficRate::Eighth => 10nat,
            _ => 0nat,
        }
}

/// Score a quarter- or eighth-rate candidate: the locked rate weighs most,
/// then a clean Viterbi termination, then content, then the rate.
pub fn score_no_fqi_candidate(locked_rate: Option<Rc1TrafficRate>, decoded: &DecodedTrafficFrame) -> (score: usize)
    ensures
        score == spec_no_fqi_score(locked_rate, *decoded),
{
    let has_nonzero = any_nonzero(&decoded.bits);
    let mut score: usize = 0;
    if same_rate(locked_rate, decoded.rate) {
        score += 1000;
    }
    if decoded.ml_terminal_matches_zero {
        score += 500;
    }
    if has_nonzero {
        score += 50;
    }
    score += match decoded.rate {
        Rc1TrafficRate::Quarter => 20,
        Rc1TrafficRate::Eighth => 10,
        Rc1TrafficRate::Full | Rc1TrafficRate::Half => 0,
    };
    score
}

fn same_rate(a: Option<Rc1TrafficRate>, b: Rc1TrafficRate) -> (r: bool)
    ensures
        r == (a == Some(b)),
{
    match a {
        Some(x) => x == b,
        None => false,
    }
}

/// First rate of `order` from position `k` on that carries a quality
/// indicator and decoded valid.
pub open spec fn first_crc_valid(order: Seq<Rc1TrafficRate>, c: Seq<DecodedTrafficFrame>, k: int) -> Option<Rc1TrafficRate>
    decreases 4 - k,
{
    if k >= 4 || k < 0 {
        None
    } else if order[k].spec_fqi_bits() > 0 && c[rate_index(order[k])].validation.phy_valid {
        Some(order[k])
    } else {
        first_crc_valid(order, c, k + 1)
    }
}

/// The rate the decoder settles on: the first rate with a passing quality
/// indicator in the adaptive order; otherwise the better scored of the
/// acceptable quarter- and eighth-rate decodes (quarter on a tie); otherwise
/// none.
pub open spec fn spec_decoder_choice(
    order: Seq<Rc1TrafficRate>,
    locked: Option<Rc1TrafficRate>,
    c: Seq<DecodedTrafficFrame>,
) -> Option<Rc1TrafficRate> {
    let q = c[2];
    let e = c[3];
    if first_crc_valid(order, c, 0).is_some() {
        first_crc_valid(order, c, 0)
    } else if spec_no_fqi_acceptable(q) && spec_no_fqi_acceptable(e) {
        if spec_no_fqi_score(locked, e) > spec_no_fqi_score(locked, q) {
            Some(Rc1TrafficRate::Eighth)
        } else {
            Some(Rc1TrafficRate::Quarter)
        }
    } else if spec_no_fqi_acceptable(q) {
        Some(Rc1TrafficRate::Quarter)
    } else if spec_no_fqi_acceptable(e) {
        Some(Rc1TrafficRate::Eighth)
    } else {
        None
    }
}

/// Pick the rate of a frame from its four trial decodes (indexed by default
/// search position), searching the rates with a quality indicator in `order`.
pub fn choose_best_rate(
    order: &[Rc1TrafficRate; 4],
    locked_rate: Option<Rc1TrafficRate>,
    candidates: &[DecodedTrafficFrame],
) -> (r: Option<Rc1TrafficRate>)
    requires
        candidates_wf(candidates@),
    ensures
        r == spec_decoder_choice(order@, locked_rate, candidates@),
{
    let mut k: usize = 0;
    while k < 4
        invariant
            k <= 4,
            candidates_wf(candidates@),
            first_crc_valid(order@, candidates@, 0) == first_crc_valid(order@, candidates@, k as int),
        decreases 4 - k,
    {
        let rate = order[k];
        if rate.fqi_bits() > 0 && candidates[rate_slot(rate)].validation.phy_valid {
            return Some(rate);
        }
        k += 1;
    }
    let mut best: Option<(usize, Rc1TrafficRate)> = None;
    let q = &candidates[2];
    if no_fqi_candidate_acceptable(q) {
        best = Some((score_no_fqi_candidate(locked_rate, q), Rc1TrafficRate::Quarter));
    }
    let e = &candidates[3];
    if no_fqi_candidate_acceptable(e) {
        let score = score_no_fqi_candidate(locked_rate, e);
        let replace = match best {
            Some((best_score, _)) => score > best_score,
            None => true,
        };
        if replace {
            best = Some((score, Rc1TrafficRate::Eighth));
        }
    }
    match best {
        Some((_, rate)) => Some(rate),
        None => None,
    }
}

/// Whether a frame looks like a null (preamble) frame: some sub-rate decode
/// has a clean tail, or the full-rate decode has a clean tail and is all zero.
pub open spec fn spec_is_null_frame(c: Seq<DecodedTrafficFrame>) -> bool {
    c[3].validation.tail_valid || c[2].validation.tail_valid || c[1].validation.tail_valid
        || (c[0].validation.tail_valid && all_zero(c[0].bits@))
}

pub fn is_null_frame(candidates: &[DecodedTrafficFrame]) -> (r: bool)
    requires
        candidates_wf(candidates@),
    ensures
        r == spec_is_null_frame(candidates@),
{
    if candidates[3].validation.tail_valid || candidates[2].validation.tail_valid
        || candidates[1].validation.tail_valid
    {
        return true;
    }
    candidates[0].validation.tail_valid && !any_nonzero(&candidates[0].bits)
}

/// Whether a decoded frame is a full-rate all-zero (preamble) frame.
pub open spec fn spec_is_preamble(d: DecodedTrafficFrame) -> bool {
    d.rate == Rc1TrafficRate::Full && all_zero(d.bits@)
}

pub fn is_preamble_frame(decoded: &DecodedTrafficFrame) -> (r: bool)
    ensures
        r == spec_is_preamble(*decoded),
{
    decoded.rate == Rc1TrafficRate::Full && !any_nonzero(&decoded.bits)
}

/// Score of a candidate in the frame aligner's fallback scan.
pub open spec fn spec_aligner_score(locked: Option<Rc1TrafficRate>, d: DecodedTrafficFrame) -> nat {
    (if locked == Some(d.rate) { 1000nat } else { 0nat })
        + (if d.ml_terminal_matches_zero { 500nat } else { 0nat })
        + (if has_nonzero(d.bits@) { 50nat } else { 0nat })
        + (if spec_is_preamble(d) { 60nat } else { 0nat })
        + match d.rate {
            Rc1TrafficRate::Full => 40nat,
            Rc1TrafficRate::Half => 30nat,
            Rc1TrafficRate::Quarter => 20nat,
            Rc1TrafficRate::Eighth => 10nat,
        }
}

/// Score a candidate in the aligner's fallback scan: locked-rate inertia,
/// clean Viterbi termination, content, a full-rate all-zero frame, and a rate
/// tiebreak (full highest).
pub fn aligner_score(locked_rate: Option<Rc1TrafficRate>, decoded: &DecodedTrafficFrame) -> (score: usize)
    ensures
        score == spec_aligner_score(locked_rate, *decoded),
{
    let is_full_preamble = is_preamble_frame(decoded);
    let has_nonzero = any_nonzero(&decoded.bits);
    let mut score: usize = 0;
    if same_rate(locked_rate, decoded.rate) {
        score += 1000;
    }
    if decoded.ml_terminal_matches_zero {
        score += 500;
    }
    if has_nonzero {
        score += 50;
    }
    if is_full_preamble {
        score += 60;
    }
    score += match decoded.rate {
        Rc1TrafficRate::Full => 40,
        Rc1TrafficRate::Half => 30,
        Rc1TrafficRate::Quarter => 20,
        Rc1TrafficRate::Eighth => 10,
    };
    score
}

/// The aligner's fallback scan over `order` from position `k`, skipping the
/// rates already tried; `best` is the best scored candidate so far.
pub open spec fn aligner_scan(
    order: Seq<Rc1TrafficRate>,
    locked: Option<Rc1TrafficRate>,
    c: Seq<DecodedTrafficFrame>,
    tried_a: Option<Rc1TrafficRate>,
    tried_b: Option<Rc1TrafficRate>,
    k: int,
    best: Option<(nat, Rc1TrafficRate)>,
) -> Option<Rc1TrafficRate>
    decreases 4 - k,
{
    if k >= 4 || k < 0 {
        match best {
            Some(b) => Some(b.1),
            None => None,
        }
    } else {
        let rate = order[k];
        let d = c[rate_index(rate)];
        if tried_a == Some(rate) || tried_b == Some(rate) || !d.validation.phy_valid {
            aligner_scan(order, locked, c, tried_a, tried_b, k + 1, best)
        } else if rate.spec_fqi_bits() > 0 && d.validation.fqi_valid {
            Some(rate)
        } else {
            let score = spec_aligner_score(locked, d);
            let replace = match best {
                Some(b) => score > b.0,
                None => true,
            };
            aligner_scan(order, locked, c, tried_a, tried_b, k + 1, if replace { Some((score, rate)) } else { best })
        }
    }
}

/// The rate the frame aligner emits a frame at: first the most frequent rate
/// if it carries a quality indicator and decodes valid, then the locked rate
/// likewise, then a scan of the other rates in adaptive order.
pub open spec fn spec_aligner_choice(
    order: Seq<Rc1TrafficRate>,
    locked: Option<Rc1TrafficRate>,
    c: Seq<DecodedTrafficFrame>,
) -> Option<Rc1TrafficRate> {
    let fast = order[0];
    let fast_tried: Option<Rc1TrafficRate> = if fast.spec_fqi_bits() > 0 { Some(fast) } else { None };
    if fast.spec_fqi_bits() > 0 && c[rate_index(fast)].validation.phy_valid {
        Some(fast)
    } else {
        match locked {
            Some(lr) => {
                if fast_tried != Some(lr) && lr.spec_fqi_bits() > 0 {
                    if c[rate_index(lr)].validation.phy_valid {
                        Some(lr)
                    } else {
                        aligner_scan(order, locked, c, fast_tried, Some(lr), 0, None)
                    }
                } else {
                    let locked_tried = if fast_tried.is_some() && Some(fast) == locked { fast_tried } else { None };
                    aligner_scan(order, locked, c, fast_tried, locked_tried, 0, None)
                }
            },
            None => aligner_scan(order, locked, c, fast_tried, None, 0, None),
        }
    }
}

fn opt_rate_eq(a: Option<Rc1TrafficRate>, b: Option<Rc1TrafficRate>) -> (r: bool)
    ensures
        r == (a == b),
{
    match (a, b) {
        (Some(x), Some(y)) => x == y,
        (None, None) => true,
        _ => false,
    }
}

/// Pick the rate at which the aligner emits a frame, from its four trial
/// decodes (indexed by default search position).
pub fn choose_best_frame(
    order: &[Rc1TrafficRate; 4],
    locked_rate: Option<Rc1TrafficRate>,
    candidates: &[DecodedTrafficFrame],
) -> (r: Option<Rc1TrafficRate>)
    requires
        candidates_wf(candidates@),
    ensures
        r == spec_aligner_choice(order@, locked_rate, candidates@),
{
    let fast_rate = order[0];
    let fast_tried = if fast_rate.fqi_bits() > 0 {
        if candidates[rate_slot(fast_rate)].validation.phy_valid {
            return Some(fast_rate);
        }
        Some(fast_rate)
    } else {
        None
    };
    let locked_tried = match locked_rate {
        Some(lr) => {
            if !opt_rate_eq(Some(lr), fast_tried) && lr.fqi_bits() > 0 {
                if candidates[rate_slot(lr)].validation.phy_valid {
                    return Some(lr);
                }
                Some(lr)
            } else if fast_tried.is_some() && same_rate(locked_rate, fast_rate) {
                fast_tried
            } else {
                None
            }
        },
        None => None,
    };
    let mut best: Option<(usize, Rc1TrafficRate)> = None;
    let mut k: usize = 0;
    while k < 4
        invariant
            k <= 4,
            candidates_wf(candidates@),
            spec_aligner_choice(order@, locked_rate, candidates@)
                == aligner_scan(order@, locked_rate, candidates@, fast_tried, locked_tried, k as int,
                    match best { Some(b) => Some((b.0 as nat, b.1)), None => None }),
            match best { Some(b) => b.0 <= 1700, None => true },
        decreases 4 - k,
    {
        let rate = order[k];
        let d = &candidates[rate_slot(rate)];
        if opt_rate_eq(Some(rate), fast_tried) || opt_rate_eq(Some(rate), locked_tried) || !d.validation.phy_valid {
            k += 1;
            continue;
        }
        if rate.fqi_bits() > 0 && d.validation.fqi_valid {
            return Some(rate);
        }
        let score = aligner_score(locked_rate, d);
        let replace = match best {
            Some((best_score, _)) => score > best_score,
            None => true,
        };
        if replace {
            best = Some((score, rate));
        }
        k += 1;
    }
    match best {
        Some((_, rate)) => Some(rate),
        None => None,
    }
}

/// With neither sub-rate locked, between two acceptable quarter- or
/// eighth-rate decodes with the same Viterbi termination, one with content
/// outscores an all-zero one: content outweighs the rate tiebreak.
pub proof fn lemma_no_fqi_content_outweighs_rate(locked: Option<Rc1TrafficRate>, d1: DecodedTrafficFrame, d2: DecodedTrafficFrame)
    requires
        d1.rate == Rc1TrafficRate::Quarter || d1.rate == Rc1TrafficRate::Eighth,
        d2.rate == Rc1TrafficRate::Quarter || d2.rate == Rc1TrafficRate::Eighth,
        locked != Some(d1.rate),
        locked != Some(d2.rate),
        d1.ml_terminal_matches_zero == d2.ml_terminal_matches_zero,
        has_nonzero(d1.bits@),
        all_zero(d2.bits@),
    ensures
        spec_no_fqi_score(locked, d1) > spec_no_fqi_score(locked, d2),
{
    assert(!has_nonzero(d2.bits@));
}

/// No rate with a quality indicator is chosen by the decoder when the full-
/// and half-rate decodes both fail their checks.
proof fn lemma_no_crc_valid(order: Seq<Rc1TrafficRate>, c: Seq<DecodedTrafficFrame>, k: int)
    requires
        candidates_wf(c),
        !c[0].validation.phy_valid,
        !c[1].validation.phy_valid,
    ensures
        first_crc_valid(order, c, k) is None,
    decreases 4 - k,
{
    if 0 <= k < 4 {
        lemma_no_crc_valid(order, c, k + 1);
    }
}

/// When the full- and half-rate decodes both fail their quality checks, the
/// quarter- and eighth-rate decodes are both acceptable and neither is the
/// locked rate, the decoder picks the one with content over an all-zero one,
/// whatever the search order.
pub proof fn lemma_decoder_prefers_content(
    order: Seq<Rc1TrafficRate>,
    locked: Option<Rc1TrafficRate>,
    c: Seq<DecodedTrafficFrame>,
)
    requires
        candidates_wf(c),
        !c[0].validation.phy_valid,
        !c[1].validation.phy_valid,
        spec_no_fqi_acceptable(c[2]),
        spec_no_fqi_acceptable(c[3]),
        locked != Some(Rc1TrafficRate::Quarter),
        locked != Some(Rc1TrafficRate::Eighth),
    ensures
        has_nonzero(c[2].bits@) && all_zero(c[3].bits@) ==> spec_decoder_choice(order, locked, c) == Some(Rc1TrafficRate::Quarter),
        has_nonzero(c[3].bits@) && all_zero(c[2].bits@) ==> spec_decoder_choice(order, locked, c) == Some(Rc1TrafficRate::Eighth),
{
    lemma_no_crc_valid(order, c, 0);
    assert(c[2].rate == Rc1TrafficRate::Quarter && c[3].rate == Rc1TrafficRate::Eighth);
    if has_nonzero(c[2].bits@) && all_zero(c[3].bits@) {
        lemma_no_fqi_content_outweighs_rate(locked, c[2], c[3]);
    }
    if has_nonzero(c[3].bits@) && all_zero(c[2].bits@) {
        lemma_no_fqi_content_outweighs_rate(locked, c[3], c[2]);
    }
}

/// In the aligner's fallback scan, a candidate whose Viterbi decoder ended
/// in the all-zero state outscores one that did not, when neither is at the
/// locked rate: a clean termination outweighs content, the full-rate all-zero
/// bonus and the rate tiebreak together.
pub proof fn lemma_aligner_clean_termination_outweighs(locked: Option<Rc1TrafficRate>, d1: DecodedTrafficFrame, d2: DecodedTrafficFrame)
    requires
        locked != Some(d1.rate),
        locked != Some(d2.rate),
        d1.ml_terminal_matches_zero,
        !d2.ml_terminal_matches_zero,
    ensures
        spec_aligner_score(locked, d1) >= 510,
        spec_aligner_score(locked, d2) <= 150,
        spec_aligner_score(locked, d1) > spec_aligner_score(locked, d2),
{
}

proof fn lemma_aligner_scan_picks_clean(
    order: Seq<Rc1TrafficRate>,
    locked: Option<Rc1TrafficRate>,
    c: Seq<DecodedTrafficFrame>,
    tried_a: Option<Rc1TrafficRate>,
    tried_b: Option<Rc1TrafficRate>,
    k: int,
    best: Option<(nat, Rc1TrafficRate)>,
    j: int,
)
    requires
        candidates_wf(c),
        j == 2 || j == 3,
        0 <= k <= 4,
        !c[0].validation.phy_valid,
        !c[1].validation.phy_valid,
        c[j].validation.phy_valid,
        c[j].ml_terminal_matches_zero,
        !c[5 - j].ml_terminal_matches_zero,
        locked != Some(Rc1TrafficRate::Quarter),
        locked != Some(Rc1TrafficRate::Eighth),
        tried_a != Some(rate_at(j)),
        tried_b != Some(rate_at(j)),
        match best {
            Some(b) => (b.1 == rate_at(j) && b.0 >= 510)
                || (b.0 <= 150 && exists|m: int| k <= m < 4 && order[m] == rate_at(j)),
            None => exists|m: int| k <= m < 4 && order[m] == rate_at(j),
        },
    ensures
        aligner_scan(order, locked, c, tried_a, tried_b, k, best) == Some(rate_at(j)),
    decreases 4 - k,
{
    if k < 4 {
        let rate = order[k];
        let d = c[rate_index(rate)];
        assert(c[0].rate == Rc1TrafficRate::Full && c[1].rate == Rc1TrafficRate::Half);
        assert(c[2].rate == Rc1TrafficRate::Quarter && c[3].rate == Rc1TrafficRate::Eighth);
        if tried_a == Some(rate) || tried_b == Some(rate) || !d.validation.phy_valid {
            assert(rate != rate_at(j));
            lemma_aligner_scan_picks_clean(order, locked, c, tried_a, tried_b, k + 1, best, j);
        } else {
            assert(rate.spec_fqi_bits() == 0);
            let score = spec_aligner_score(locked, d);
            let replace = match best {
                Some(b) => score > b.0,
                None => true,
            };
            let next = if replace { Some((score, rate)) } else { best };
            if rate == rate_at(j) {
                assert(d == c[j]);
                assert(score >= 510);
            } else {
                assert(d == c[5 - j]);
                assert(score <= 70);
            }
            lemma_aligner_scan_picks_clean(order, locked, c, tried_a, tried_b, k + 1, next, j);
        }
    }
}

/// When the full- and half-rate decodes both fail their checks and neither
/// sub-rate is locked, the frame aligner emits the quarter- or eighth-rate
/// decode whose Viterbi decoder ended in the all-zero state over the other,
/// which did not, whenever the search order holds that rate.
pub proof fn lemma_aligner_prefers_clean_termination(
    order: Seq<Rc1TrafficRate>,
    locked: Option<Rc1TrafficRate>,
    c: Seq<DecodedTrafficFrame>,
    j: int,
)
    requires
        candidates_wf(c),
        order.len() == 4,
        j == 2 || j == 3,
        exists|m: int| 0 <= m < 4 && order[m] == rate_at(j),
        !c[0].validation.phy_valid,
        !c[1].validation.phy_valid,
        c[j].validation.phy_valid,
        c[j].ml_terminal_matches_zero,
        !c[5 - j].ml_terminal_matches_zero,
        locked != Some(Rc1TrafficRate::Quarter),
        locked != Some(Rc1TrafficRate::Eighth),
    ensures
        spec_aligner_choice(order, locked, c) == Some(rate_at(j)),
{
    assert(c[0].rate == Rc1TrafficRate::Full && c[1].rate == Rc1TrafficRate::Half);
    let fast = order[0];
    let fast_tried: Option<Rc1TrafficRate> = if fast.spec_fqi_bits() > 0 { Some(fast) } else { None };
    assert(fast_tried != Some(rate_at(j)));
    match locked {
        Some(lr) => {
            if fast_tried != Some(lr) && lr.spec_fqi_bits() > 0 {
                lemma_aligner_scan_picks_clean(order, locked, c, fast_tried, Some(lr), 0, None, j);
            } else {
                let locked_tried = if fast_tried.is_some() && Some(fast) == locked { fast_tried } else { None };
                lemma_aligner_scan_picks_clean(order, locked, c, fast_tried, locked_tried, 0, None, j);
            }
        },
        None => {
            lemma_aligner_scan_picks_clean(order, locked, c, fast_tried, None, 0, None, j);
        },
    }
}

} // verus!
