//! Bookkeeping of the joint PN×LC correlator: its integer configuration,
//! the stream timeline and origin re-anchoring, search scheduling, and the
//! registry of active fingers that suppresses duplicate spawns.
//!
//! The FFT search, the candidate verification and the finger signal paths
//! are the caller's; they read the timeline from here.
use vstd::prelude::*;

verus! {

/// Signal-lost time after which a hard-validated finger stops suppressing
/// the search, in chips.
pub const DEFAULT_REACQUIRE_SIGNAL_LOST_CHIPS: u64 = 6144;
/// CRC misses after which a hard-validated finger may be reacquired over.
pub const DEFAULT_REACQUIRE_CRC_MISS_COUNT: u64 = 8;
/// Idle time after which any finger may be reacquired over, in chips.
pub const DEFAULT_REACQUIRE_IDLE_CHIPS: u64 = 196608;
/// Origin moves of at most this many samples are treated as jitter.
pub const REANCHOR_JITTER_SAMPLES: i64 = 4;
/// Raw history kept for replay, in coherent windows of 64 chips... per chip.
pub const RECENT_HISTORY_FACTOR: usize = 64;

/// Integer and switch parameters of the correlator.
#[derive(Debug, Clone, Copy, PartialEq, Eq, Structural)]
pub struct PnLcConfig {
    pub oversample: usize,
    /// Coherent integration window in chips.
    pub coherent_chips: usize,
    /// One-sided LC phase search range in chips.
    pub lc_half_span: i32,
    /// Consecutive stage-2 hits required before a finger is spawned.
    pub preamble_hits_required: u32,
    /// Preamble Walsh symbols replayed ahead of the first verified hit.
    pub replay_preamble_symbols: usize,
    /// Sub-windows for noncoherent accumulation.
    pub noncoherent_segments: usize,
    /// Minimum sample separation between two distinct detections.
    pub peak_suppress_samples: i32,
    /// Combined TX + RX matched-filter group delay in samples.
    pub composite_filter_delay: usize,
    /// Chip-center sample phase override.
    pub center_offset_override: Option<usize>,
    /// Chips per output block pushed to a finger's chain.
    pub chip_block_size: usize,
    /// Run the joint search once per this many input windows.
    pub search_interval_windows: u64,
    pub split_pn_reference: bool,
    /// Re-anchor the absolute sample origin on every block.
    pub reanchor_origin: bool,
    /// Long-code decimation for HPSK modes.
    pub lc_decimation: usize,
    pub suppress_search_when_locked: bool,
    pub suppress_active_finger_delay_overlap: bool,
    pub active_finger_delay_suppress_samples: i32,
    pub enable_epl_tracking: bool,
    pub enable_epl_slew: bool,
    pub epl_pilot: bool,
    pub access_cfo: bool,
    pub fractional_timing_recovery: bool,
    pub finger_timing_symmetric: bool,
    pub output_oversampled_chips: bool,
    pub integrate_and_dump: bool,
}

impl PnLcConfig {
    /// Defaults for 4x oversampling.
    pub fn default_4x() -> (c: Self)
        ensures
            c.oversample == 4,
            c.coherent_chips == 2048,
            c.lc_half_span == 4,
            c.preamble_hits_required == 1,
            c.replay_preamble_symbols == 16,
            c.noncoherent_segments == 1,
            c.peak_suppress_samples == 16,
            c.composite_filter_delay == 47,
            c.center_offset_override.is_none(),
            c.chip_block_size == 256,
            c.search_interval_windows == 16,
            c.split_pn_reference,
            !c.reanchor_origin,
            c.lc_decimation == 1,
            !c.suppress_search_when_locked,
            !c.suppress_active_finger_delay_overlap,
            c.active_finger_delay_suppress_samples == 0,
            !c.enable_epl_tracking && !c.enable_epl_slew && !c.epl_pilot && !c.access_cfo,
            !c.fractional_timing_recovery,
            c.finger_timing_symmetric,
            !c.output_oversampled_chips && !c.integrate_and_dump,
    {
        PnLcConfig {
            oversample: 4,
            coherent_chips: 2048,
            lc_half_span: 4,
            preamble_hits_required: 1,
            replay_preamble_symbols: 16,
            noncoherent_segments: 1,
            peak_suppress_samples: 16,
            composite_filter_delay: 47,
            center_offset_override: None,
            chip_block_size: 256,
            search_interval_windows: 16,
            split_pn_reference: true,
            reanchor_origin: false,
            lc_decimation: 1,
            suppress_search_when_locked: false,
            suppress_active_finger_delay_overlap: false,
            active_finger_delay_suppress_samples: 0,
            enable_epl_tracking: false,
            enable_epl_slew: false,
            epl_pilot: false,
            access_cfo: false,
            fractional_timing_recovery: false,
            finger_timing_symmetric: true,
            output_oversampled_chips: false,
            integrate_and_dump: false,
        }
    }

    pub fn with_fractional_timing_recovery(self, enable: bool) -> (c: Self)
        ensures
            c == (PnLcConfig { fractional_timing_recovery: enable, ..self }),
    {
        PnLcConfig { fractional_timing_recovery: enable, ..self }
    }

    pub fn with_integrate_and_dump(self, enable: bool) -> (c: Self)
        ensures
            c == (PnLcConfig { integrate_and_dump: enable, ..self }),
    {
        PnLcConfig { integrate_and_dump: enable, ..self }
    }

    pub fn with_output_oversampled_chips(self, enable: bool) -> (c: Self)
        ensures
            c == (PnLcConfig { output_oversampled_chips: enable, ..self }),
    {
        PnLcConfig { output_oversampled_chips: enable, ..self }
    }

    /// Measure early/prompt/late timing on validated fingers.
    pub fn with_epl_tracking(self, enable: bool) -> (c: Self)
        ensures
            c == (PnLcConfig { enable_epl_tracking: enable, ..self }),
    {
        PnLcConfig { enable_epl_tracking: enable, ..self }
    }

    /// Slew finger timing from the early/late discriminator; enabling it
    /// also enables tracking.
    pub fn with_epl_slew(self, enable: bool) -> (c: Self)
        ensures
            c == (PnLcConfig {
                enable_epl_slew: enable,
                enable_epl_tracking: if enable { true } else { self.enable_epl_tracking },
                ..self
            }),
    {
        PnLcConfig {
            enable_epl_slew: enable,
            enable_epl_tracking: if enable { true } else { self.enable_epl_tracking },
            ..self
        }
    }

    /// Use the pilot-coherent discriminator; enabling it also enables
    /// tracking.
    pub fn with_epl_pilot(self, enable: bool) -> (c: Self)
        ensures
            c == (PnLcConfig {
                epl_pilot: enable,
                enable_epl_tracking: if enable { true } else { self.enable_epl_tracking },
                ..self
            }),
    {
        PnLcConfig {
            epl_pilot: enable,
            enable_epl_tracking: if enable { true } else { self.enable_epl_tracking },
            ..self
        }
    }

    pub fn with_access_cfo(self, enable: bool) -> (c: Self)
        ensures
            c == (PnLcConfig { access_cfo: enable, ..self }),
    {
        PnLcConfig { access_cfo: enable, ..self }
    }

    pub fn with_reanchor_origin(self, reanchor: bool) -> (c: Self)
        ensures
            c == (PnLcConfig { reanchor_origin: reanchor, ..self }),
    {
        PnLcConfig { reanchor_origin: reanchor, ..self }
    }

    /// Long-code decimation (zero taken as one).
    pub fn with_lc_decimation(self, decimation: usize) -> (c: Self)
        ensures
            c == (PnLcConfig { lc_decimation: if decimation == 0 { 1 } else { decimation }, ..self }),
    {
        PnLcConfig { lc_decimation: if decimation == 0 { 1 } else { decimation }, ..self }
    }

    pub fn with_suppress_search_when_locked(self, suppress: bool) -> (c: Self)
        ensures
            c == (PnLcConfig { suppress_search_when_locked: suppress, ..self }),
    {
        PnLcConfig { suppress_search_when_locked: suppress, ..self }
    }

    /// Suppress spawns near active fingers (a negative radius taken as zero).
    pub fn with_active_finger_delay_suppression(self, enable: bool, suppress_samples: i32) -> (c: Self)
        ensures
            c == (PnLcConfig {
                suppress_active_finger_delay_overlap: enable,
                active_finger_delay_suppress_samples: if suppress_samples < 0 { 0 } else { suppress_samples },
                ..self
            }),
    {
        PnLcConfig {
            suppress_active_finger_delay_overlap: enable,
            active_finger_delay_suppress_samples: if suppress_samples < 0 { 0 } else { suppress_samples },
            ..self
        }
    }

    pub fn with_lc_half_span(self, lc_half_span: i32) -> (c: Self)
        ensures
            c == (PnLcConfig { lc_half_span, ..self }),
    {
        PnLcConfig { lc_half_span, ..self }
    }

    pub fn with_preamble_hits_required(self, hits: u32) -> (c: Self)
        ensures
            c == (PnLcConfig { preamble_hits_required: hits, ..self }),
    {
        PnLcConfig { preamble_hits_required: hits, ..self }
    }

    /// Noncoherent segments (zero taken as one).
    pub fn with_noncoherent_segments(self, noncoherent_segments: usize) -> (c: Self)
        ensures
            c == (PnLcConfig {
                noncoherent_segments: if noncoherent_segments == 0 { 1 } else { noncoherent_segments },
                ..self
            }),
    {
        PnLcConfig { noncoherent_segments: if noncoherent_segments == 0 { 1 } else { noncoherent_segments }, ..self }
    }

    /// Search interval in windows (zero taken as one).
    pub fn with_search_interval_windows(self, search_interval_windows: u64) -> (c: Self)
        ensures
            c == (PnLcConfig {
                search_interval_windows: if search_interval_windows == 0 { 1 } else { search_interval_windows },
                ..self
            }),
    {
        PnLcConfig {
            search_interval_windows: if search_interval_windows == 0 { 1 } else { search_interval_windows },
            ..self
        }
    }

    /// Chip-center sample phase, reduced modulo the oversampling (zero
    /// taken as one).
    pub fn with_center_offset_override(self, center_offset_override: usize) -> (c: Self)
        ensures
            c == (PnLcConfig {
                center_offset_override: Some(((center_offset_override as int)
                    % (if self.oversample == 0 { 1 } else { self.oversample as int })) as usize),
                ..self
            }),
    {
        let os = if self.oversample == 0 { 1 } else { self.oversample };
        PnLcConfig { center_offset_override: Some(center_offset_override % os), ..self }
    }

    pub fn with_split_pn_reference(self, split_pn_reference: bool) -> (c: Self)
        ensures
            c == (PnLcConfig { split_pn_reference, ..self }),
    {
        PnLcConfig { split_pn_reference, ..self }
    }
}

/// What the correlator knows of a finger it spawned.
#[derive(Debug, Clone, Copy, PartialEq, Eq, Structural)]
pub struct ActiveFingerState {
    pub id: u64,
    pub delay_samples: i32,
    pub hard_validated: bool,
    pub idle_chips: u64,
    pub signal_lost_chips: u64,
    pub crc_miss_count: u64,
    pub post_walsh_no_event_ms: u64,
}

pub open spec fn abs_diff(a: i32, b: i32) -> int {
    if a >= b { a - b } else { b - a }
}

/// Delays whose difference with every active finger's fits in `i32`.
pub open spec fn delay_comparable(fingers: Seq<ActiveFingerState>, delay: i32) -> bool {
    forall|i: int| 0 <= i < fingers.len() ==>
        i32::MIN < (#[trigger] fingers[i]).delay_samples - delay <= i32::MAX
}

/// Whether, with overlap suppression `on`, a finger of `fingers` blocks a
/// spawn at `delay`: one at the same delay, or an unvalidated one within
/// `radius` samples.
pub open spec fn overlaps_any(on: bool, radius: i32, fingers: Seq<ActiveFingerState>, delay: i32) -> bool {
    on && exists|i: int| 0 <= i < fingers.len() && {
        let f = #[trigger] fingers[i];
        abs_diff(f.delay_samples, delay) == 0 || (!f.hard_validated && abs_diff(f.delay_samples, delay) <= radius)
    }
}

/// A delay small enough to compare with any other such delay.
pub open spec fn delay_in_range(d: i32) -> bool {
    -0x2000_0000 <= d <= 0x2000_0000
}

/// A freshly registered finger at `delay`.
pub open spec fn fresh_finger(id: u64, delay: i32) -> ActiveFingerState {
    ActiveFingerState {
        id,
        delay_samples: delay,
        hard_validated: false,
        idle_chips: 0,
        signal_lost_chips: 0,
        crc_miss_count: 0,
        post_walsh_no_event_ms: 0,
    }
}

/// The fingers, next finger id and spawned ids after the first `k` timing
/// hypotheses of promoted candidate `c`: each hypothesis that no registered
/// finger blocks gets a finger, the first with the candidate's id and the
/// others with fresh ids.
pub open spec fn spawn_hypotheses(
    on: bool,
    radius: i32,
    fingers: Seq<ActiveFingerState>,
    next_id: int,
    c: CandidateProgress,
    k: int,
) -> (Seq<ActiveFingerState>, int, Seq<u64>)
    decreases k,
{
    if k <= 0 {
        (fingers, next_id, Seq::empty())
    } else {
        let prev = spawn_hypotheses(on, radius, fingers, next_id, c, k - 1);
        if overlaps_any(on, radius, prev.0, c.delay_samples) {
            prev
        } else {
            let id: u64 = if k - 1 == 0 { c.id } else { prev.1 as u64 };
            let next = if k - 1 == 0 { prev.1 } else { prev.1 + 1 };
            (prev.0.push(fresh_finger(id, c.delay_samples)), next, prev.2.push(id))
        }
    }
}

/// How a pending candidate left a verification round: its updated progress,
/// its fate, and how many timing hypotheses a promotion spawns.
#[derive(Debug, Clone, Copy, PartialEq, Eq, Structural)]
pub struct RoundOutcome {
    pub progress: CandidateProgress,
    pub fate: CandidateFate,
    pub timing_hypotheses: usize,
}

/// The pending candidates, fingers, next finger id and spawned ids after the
/// first `n` outcomes of a round: kept candidates stay pending in order,
/// dropped ones leave, promoted ones spawn their fingers.
pub open spec fn round_after(
    on: bool,
    radius: i32,
    fingers: Seq<ActiveFingerState>,
    next_id: int,
    outcomes: Seq<RoundOutcome>,
    n: int,
) -> (Seq<CandidateProgress>, Seq<ActiveFingerState>, int, Seq<u64>)
    decreases n,
{
    if n <= 0 {
        (Seq::empty(), fingers, next_id, Seq::empty())
    } else {
        let prev = round_after(on, radius, fingers, next_id, outcomes, n - 1);
        let o = outcomes[n - 1];
        match o.fate {
            CandidateFate::Keep => (prev.0.push(o.progress), prev.1, prev.2, prev.3),
            CandidateFate::Drop => prev,
            CandidateFate::Promote => {
                let s = spawn_hypotheses(on, radius, prev.1, prev.2, o.progress, o.timing_hypotheses as int);
                (prev.0, s.0, s.1, prev.3 + s.2)
            },
        }
    }
}

/// Total timing hypotheses of the promoted candidates among the first `n`.
pub open spec fn promoted_hypotheses(outcomes: Seq<RoundOutcome>, n: int) -> int
    decreases n,
{
    if n <= 0 {
        0
    } else {
        promoted_hypotheses(outcomes, n - 1)
            + if outcomes[n - 1].fate == CandidateFate::Promote { outcomes[n - 1].timing_hypotheses as int } else { 0 }
    }
}

proof fn lemma_spawn_bounds(on: bool, radius: i32, fingers: Seq<ActiveFingerState>, next_id: int, c: CandidateProgress, k: int)
    requires
        k >= 0,
    ensures
        next_id <= spawn_hypotheses(on, radius, fingers, next_id, c, k).1 <= next_id + k,
        forall|i: int| 0 <= i < fingers.len() ==> spawn_hypotheses(on, radius, fingers, next_id, c, k).0[i] == fingers[i],
        forall|i: int| fingers.len() <= i < spawn_hypotheses(on, radius, fingers, next_id, c, k).0.len() ==>
            spawn_hypotheses(on, radius, fingers, next_id, c, k).0[i].delay_samples == c.delay_samples,
        fingers.len() <= spawn_hypotheses(on, radius, fingers, next_id, c, k).0.len(),
    decreases k,
{
    if k > 0 {
        lemma_spawn_bounds(on, radius, fingers, next_id, c, k - 1);
    }
}

proof fn lemma_round_bounds(on: bool, radius: i32, fingers: Seq<ActiveFingerState>, next_id: int, outcomes: Seq<RoundOutcome>, n: int)
    requires
        0 <= n <= outcomes.len(),
        forall|j: int| 0 <= j < outcomes.len() ==> delay_in_range(#[trigger] outcomes[j].progress.delay_samples),
        forall|i: int| 0 <= i < fingers.len() ==> delay_in_range(#[trigger] fingers[i].delay_samples),
    ensures
        next_id <= round_after(on, radius, fingers, next_id, outcomes, n).2 <= next_id + promoted_hypotheses(outcomes, n),
        forall|i: int| 0 <= i < round_after(on, radius, fingers, next_id, outcomes, n).1.len() ==>
            delay_in_range(#[trigger] round_after(on, radius, fingers, next_id, outcomes, n).1[i].delay_samples),
    decreases n,
{
    if n > 0 {
        lemma_round_bounds(on, radius, fingers, next_id, outcomes, n - 1);
        let prev = round_after(on, radius, fingers, next_id, outcomes, n - 1);
        let o = outcomes[n - 1];
        assert(delay_in_range(o.progress.delay_samples));
        if o.fate == CandidateFate::Promote {
            lemma_spawn_bounds(on, radius, prev.1, prev.2, o.progress, o.timing_hypotheses as int);
            let s = spawn_hypotheses(on, radius, prev.1, prev.2, o.progress, o.timing_hypotheses as int);
            assert forall|i: int| 0 <= i < s.0.len() implies delay_in_range(#[trigger] s.0[i].delay_samples) by {
                if i < prev.1.len() {
                    assert(s.0[i] == prev.1[i]);
                }
            }
        }
    }
}

proof fn lemma_promoted_grows(outcomes: Seq<RoundOutcome>, a: int, b: int)
    requires
        0 <= a <= b,
    ensures
        promoted_hypotheses(outcomes, a) <= promoted_hypotheses(outcomes, b),
        0 <= promoted_hypotheses(outcomes, a),
    decreases b,
{
    if a < b {
        lemma_promoted_grows(outcomes, a, b - 1);
    } else if a > 0 {
        lemma_promoted_grows(outcomes, a - 1, a - 1);
    }
}

pub fn abs_delay_diff(a: i32, b: i32) -> (d: i32)
    requires
        i32::MIN < a - b <= i32::MAX,
    ensures
        d == abs_diff(a, b),
{
    let diff = a - b;
    if diff < 0 { -diff } else { diff }
}

/// Map an IFFT output bin to a signed delay: bins past the midpoint wrap to
/// negative delays.
pub fn signed_delay_bin(bin: usize, len: usize) -> (d: i32)
    requires
        bin <= i32::MAX,
        len <= i32::MAX,
    ensures
        d == if bin > len / 2 { bin - len } else { bin as int },
{
    if bin > len / 2 {
        bin as i32 - len as i32
    } else {
        bin as i32
    }
}

/// The least `y >= x` with `y % modulus == residue % modulus` (`x` itself
/// for a modulus of at most one).
pub open spec fn spec_align_up(x: int, residue: int, modulus: int) -> int {
    if modulus <= 1 {
        x
    } else if x % modulus == residue % modulus {
        x
    } else {
        x + (residue % modulus + modulus - x % modulus) % modulus
    }
}

pub fn align_up_to_residue(x: usize, residue: usize, modulus: usize) -> (y: usize)
    requires
        x + modulus <= usize::MAX,
        modulus > 1 ==> (residue as int) % (modulus as int) + modulus <= usize::MAX,
    ensures
        y == spec_align_up(x as int, residue as int, modulus as int),
        y >= x,
        modulus > 1 ==> (y as int) % (modulus as int) == (residue as int) % (modulus as int) && y < x + modulus,
{
    if modulus <= 1 {
        return x;
    }
    let current = x % modulus;
    let residue = residue % modulus;
    if current == residue {
        x
    } else {
        proof {
            let m = modulus as int;
            let step = (residue + m - current) % m;
            assert(0 < residue + m - current < 2 * m);
            assert(step == residue + m - current || step == residue - current) by {
                if residue + m - current >= m {
                    vstd::arithmetic::div_mod::lemma_mod_sub_multiples_vanish(residue + m - current, m);
                    vstd::arithmetic::div_mod::lemma_small_mod((residue - current) as nat, m as nat);
                } else {
                    vstd::arithmetic::div_mod::lemma_small_mod((residue + m - current) as nat, m as nat);
                }
            }
            vstd::arithmetic::div_mod::lemma_fundamental_div_mod(x as int, m);
            let q = x as int / m;
            assert(x + step == m * q + current + step);
            if step == residue + m - current {
                assert(x + step == m * (q + 1) + residue) by (nonlinear_arith)
                    requires x + step == m * q + current + step, step == residue + m - current {}
                vstd::arithmetic::div_mod::lemma_mod_multiples_vanish(q + 1, residue as int, m);
            } else {
                assert(x + step == m * q + residue);
                vstd::arithmetic::div_mod::lemma_mod_multiples_vanish(q, residue as int, m);
            }
            vstd::arithmetic::div_mod::lemma_small_mod(residue as nat, m as nat);
        }
        x + (residue + modulus - current) % modulus
    }
}


/// Verification attempts a candidate gets while it has no hit.
pub const MAX_PENDING_ATTEMPTS_WITHOUT_HIT: u32 = 10;
/// Verification attempts a candidate gets once it has a hit.
pub const MAX_PENDING_ATTEMPTS_WITH_HIT: u32 = 10;
/// Stream positions and chip counts stay below this bound (2^60), so that
/// the signed arithmetic of the timing computations cannot overflow.
pub const STREAM_POSITION_BOUND: u64 = 0x1000_0000_0000_0000;

/// The integer progress of a detection awaiting verification.
#[derive(Debug, Clone, Copy, PartialEq, Eq, Structural)]
pub struct CandidateProgress {
    pub id: u64,
    pub delay_samples: i32,
    pub lc_phase_hint: i32,
    pub preamble_hits: u32,
    pub attempts: u32,
    pub first_verified_tx_chip: Option<usize>,
    pub first_verified_sample_offset: Option<usize>,
}

/// Where a candidate at some delay is verified within a window.
#[derive(Debug, Clone, Copy, PartialEq, Eq, Structural)]
pub struct VerifyGeometry {
    /// The delay reduced into the first chip (`0..oversample`).
    pub verify_delay: i32,
    /// Stream offset of the verification point.
    pub verify_sample_offset: usize,
    /// TX chip expected at the verification point.
    pub expected_chip: usize,
    /// PN phase at the verification point.
    pub verify_base_phase: usize,
    /// Sample phase of the chip center.
    pub center_offset: usize,
}

/// How a candidate leaves a verification round.
#[derive(Debug, Clone, Copy, PartialEq, Eq, Structural)]
pub enum CandidateFate {
    /// Enough hits: spawn its finger.
    Promote,
    /// Keep it pending.
    Keep,
    /// Out of attempts: drop it.
    Drop,
}

/// Where a promoted candidate's finger starts.
#[derive(Debug, Clone, Copy, PartialEq, Eq, Structural)]
pub struct FingerSeed {
    pub center_offset: usize,
    /// Stream offset of the finger's first sample (replaying history).
    pub finger_start_sample: usize,
    /// TX chip of that sample.
    pub tx_chip: usize,
    /// Samples of the current block the finger skips.
    pub samples_to_skip: usize,
    /// PN phase of that sample.
    pub despread_phase: usize,
}

/// Rust's division rounding toward zero, for `b > 0`.
pub open spec fn trunc_div(a: int, b: int) -> int {
    if a >= 0 { a / b } else { -((-a) / b) }
}

/// A stream position or chip count small enough for the timing arithmetic.
pub open spec fn pos_ok(x: int) -> bool {
    0 <= x < STREAM_POSITION_BOUND && x <= usize::MAX / 4
}

pub open spec fn max0(a: int) -> int {
    if a >= 0 { a } else { 0 }
}

pub open spec fn sat_sub(a: int, b: int) -> int {
    if a >= b { a - b } else { 0 }
}

pub open spec fn sat_mul(a: int, b: int) -> int {
    if a * b > usize::MAX { usize::MAX as int } else { a * b }
}

/// Account one verification attempt of `c`: `outcome` is the LC search
/// result (whether it verified, and the LC phase found), if the search ran.
/// A verified hit fixes the first verified TX chip and keeps the earliest
/// verified sample.
pub fn record_verification(
    c: CandidateProgress,
    outcome: Option<(bool, i32)>,
    expected_chip: usize,
    verified_sample_offset: usize,
) -> (r: CandidateProgress)
    requires
        c.attempts < u32::MAX,
        c.preamble_hits < u32::MAX,
        expected_chip < STREAM_POSITION_BOUND,
    ensures
        r.id == c.id && r.delay_samples == c.delay_samples && r.lc_phase_hint == c.lc_phase_hint,
        r.attempts == c.attempts + 1,
        match outcome {
            Some((true, best_phase)) => {
                &&& r.preamble_hits == c.preamble_hits + 1
                &&& r.first_verified_tx_chip == match c.first_verified_tx_chip {
                    Some(t) => Some(t),
                    None => Some(max0(expected_chip + best_phase) as usize),
                }
                &&& r.first_verified_sample_offset == match c.first_verified_sample_offset {
                    Some(s) => Some(if s <= verified_sample_offset { s } else { verified_sample_offset }),
                    None => Some(verified_sample_offset),
                }
            },
            _ => {
                &&& r.preamble_hits == c.preamble_hits
                &&& r.first_verified_tx_chip == c.first_verified_tx_chip
                &&& r.first_verified_sample_offset == c.first_verified_sample_offset
            },
        },
{
    let mut r = c;
    r.attempts = c.attempts + 1;
    if let Some((valid, best_phase)) = outcome {
        if valid {
            r.preamble_hits = c.preamble_hits + 1;
            let tx = (expected_chip as i64) + (best_phase as i64);
            let tx_chip: usize = if tx < 0 { 0 } else { tx as usize };
            if r.first_verified_tx_chip.is_none() {
                r.first_verified_tx_chip = Some(tx_chip);
            }
            r.first_verified_sample_offset = match c.first_verified_sample_offset {
                Some(s) => Some(if s <= verified_sample_offset { s } else { verified_sample_offset }),
                None => Some(verified_sample_offset),
            };
        }
    }
    r
}

/// What becomes of a candidate after an attempt (`searched`: the LC search
/// produced a result): promoted once it has the required hits, otherwise
/// kept while attempts remain.
pub fn candidate_fate(c: CandidateProgress, searched: bool, hits_required: u32) -> (f: CandidateFate)
    ensures
        f == if !searched {
            CandidateFate::Keep
        } else if c.preamble_hits >= hits_required {
            CandidateFate::Promote
        } else if c.attempts < (if c.preamble_hits == 0 { MAX_PENDING_ATTEMPTS_WITHOUT_HIT } else { MAX_PENDING_ATTEMPTS_WITH_HIT }) {
            CandidateFate::Keep
        } else {
            CandidateFate::Drop
        },
{
    if !searched {
        return CandidateFate::Keep;
    }
    if c.preamble_hits >= hits_required {
        return CandidateFate::Promote;
    }
    let limit = if c.preamble_hits == 0 { MAX_PENDING_ATTEMPTS_WITHOUT_HIT } else { MAX_PENDING_ATTEMPTS_WITH_HIT };
    if c.attempts < limit { CandidateFate::Keep } else { CandidateFate::Drop }
}


/// Samples per output chip of a finger: all its sub-samples when it emits
/// oversampled chips (oversampling zero taken as one), else one.
pub fn output_oversample(output_oversampled_chips: bool, oversample: usize) -> (n: usize)
    ensures
        n == if output_oversampled_chips { if oversample == 0 { 1 } else { oversample as int } } else { 1 },
{
    if output_oversampled_chips {
        if oversample == 0 { 1 } else { oversample }
    } else {
        1
    }
}

/// The whole chip blocks a finger hands its chain from `buffered` despread
/// samples: their count, their samples, and the absolute chip of the first
/// (the chip counter runs ahead of the buffer by what it holds).
pub fn drain_plan(buffered: usize, chip_block_size: usize, output_oversample: usize, lc_chip_counter: usize)
    -> (p: Option<(usize, usize, usize)>)
    requires
        chip_block_size >= 1,
        output_oversample >= 1,
        chip_block_size * output_oversample <= usize::MAX,
    ensures
        ({
            let block_len = chip_block_size * output_oversample;
            let n = buffered as int / block_len;
            if n == 0 {
                p.is_none()
            } else {
                p == Some((n as usize, (n * block_len) as usize,
                    sat_sub(lc_chip_counter as int, buffered as int / output_oversample as int) as usize))
            }
        }),
{
    let block_len = chip_block_size * output_oversample;
    assert(block_len >= 1) by (nonlinear_arith)
        requires block_len == chip_block_size * output_oversample, chip_block_size >= 1, output_oversample >= 1 {}
    let n = buffered / block_len;
    if n == 0 {
        return None;
    }
    assert(n * block_len <= buffered) by (nonlinear_arith)
        requires n == buffered as int / block_len as int, block_len >= 1 {}
    let buffered_chips = buffered / output_oversample;
    Some((n, n * block_len, lc_chip_counter.saturating_sub(buffered_chips)))
}

/// Chips of a finger's output spent in and out of signal.
pub struct SignalLossCounter {
    pub low_energy_chip_count: u64,
    pub high_energy_chip_count: u64,
}

impl SignalLossCounter {
    pub fn new() -> (c: Self)
        ensures
            c.low_energy_chip_count == 0 && c.high_energy_chip_count == 0,
    {
        SignalLossCounter { low_energy_chip_count: 0, high_energy_chip_count: 0 }
    }

    /// Count a block of `block_len` output samples whose energy was below
    /// the loss threshold (`lost`) or not: a run of lost blocks accumulates,
    /// any other block ends the run.
    pub fn record_block(&mut self, lost: bool, block_len: u64)
        requires
            old(self).low_energy_chip_count + block_len <= u64::MAX,
            old(self).high_energy_chip_count + block_len <= u64::MAX,
        ensures
            lost ==> final(self).low_energy_chip_count == old(self).low_energy_chip_count + block_len
                && final(self).high_energy_chip_count == old(self).high_energy_chip_count,
            !lost ==> final(self).low_energy_chip_count == 0
                && final(self).high_energy_chip_count == old(self).high_energy_chip_count + block_len,
    {
        if lost {
            self.low_energy_chip_count = self.low_energy_chip_count + block_len;
        } else {
            self.low_energy_chip_count = 0;
            self.high_energy_chip_count = self.high_energy_chip_count + block_len;
        }
    }
}

/// Bookkeeping state of the correlator.
pub struct PnLcCorrelator {
    pub cfg: PnLcConfig,
    pub phase_period: usize,
    /// Samples waiting in the input buffer.
    pub buffered_samples: usize,
    /// Samples held in the replay history, and the stream offset of its first.
    pub recent_len: usize,
    pub recent_start_offset: usize,
    /// Samples consumed by whole windows.
    pub samples_consumed: usize,
    pub window_counter: u64,
    pub absolute_origin_sample: Option<usize>,
    pub active_fingers: Vec<ActiveFingerState>,
    /// Candidates awaiting verification.
    pub pending_candidates: Vec<CandidateProgress>,
    pub next_finger_id: u64,
    pub search_paused: bool,
    pub reacquire_signal_lost_chips: u64,
    pub reacquire_crc_miss_count: u64,
    pub reacquire_idle_chips: u64,
}

/// How a block entered the timeline.
#[derive(Debug, Clone, Copy, PartialEq, Eq, Structural)]
pub struct BlockEntry {
    /// Stream offset of the block's first sample.
    pub block_sample_offset: usize,
    /// A forward gap was detected: buffered samples, replay history,
    /// candidates and active fingers were dropped.
    pub flushed: bool,
}

impl PnLcCorrelator {
    pub open spec fn window_len(&self) -> int {
        self.cfg.coherent_chips * self.cfg.oversample
    }

    pub open spec fn max_recent(&self) -> int {
        self.cfg.coherent_chips * self.cfg.oversample * RECENT_HISTORY_FACTOR
    }

    /// The configuration is one the correlator can run with.
    pub open spec fn cfg_ok(cfg: PnLcConfig) -> bool {
        &&& 1 <= cfg.oversample <= 32768
        &&& 1 <= cfg.coherent_chips
        &&& cfg.coherent_chips * cfg.oversample * RECENT_HISTORY_FACTOR <= usize::MAX
        &&& (cfg.coherent_chips as int) % (if cfg.noncoherent_segments == 0 { 1 } else { cfg.noncoherent_segments as int }) == 0
    }

    /// Every field but the active-finger registry is as in `o`.
    pub open spec fn same_but_fingers(&self, o: &Self) -> bool {
        &&& self.cfg == o.cfg
        &&& self.phase_period == o.phase_period
        &&& self.buffered_samples == o.buffered_samples
        &&& self.recent_len == o.recent_len
        &&& self.recent_start_offset == o.recent_start_offset
        &&& self.samples_consumed == o.samples_consumed
        &&& self.window_counter == o.window_counter
        &&& self.absolute_origin_sample == o.absolute_origin_sample
        &&& self.pending_candidates@ == o.pending_candidates@
        &&& self.next_finger_id == o.next_finger_id
        &&& self.search_paused == o.search_paused
        &&& self.reacquire_signal_lost_chips == o.reacquire_signal_lost_chips
        &&& self.reacquire_crc_miss_count == o.reacquire_crc_miss_count
        &&& self.reacquire_idle_chips == o.reacquire_idle_chips
    }

    pub open spec fn wf(&self) -> bool {
        &&& Self::cfg_ok(self.cfg)
        &&& self.phase_period == 32768 * self.cfg.oversample
        &&& self.recent_len <= self.max_recent()
    }

    /// A correlator with an empty timeline.
    pub fn new(cfg: PnLcConfig) -> (c: Self)
        requires
            Self::cfg_ok(cfg),
        ensures
            c.wf(),
            c.cfg == cfg,
            c.buffered_samples == 0 && c.recent_len == 0 && c.recent_start_offset == 0,
            c.samples_consumed == 0 && c.window_counter == 0,
            c.absolute_origin_sample.is_none(),
            c.active_fingers@.len() == 0 && c.pending_candidates@.len() == 0,
            c.next_finger_id == 1,
            !c.search_paused,
            c.reacquire_signal_lost_chips == DEFAULT_REACQUIRE_SIGNAL_LOST_CHIPS,
            c.reacquire_crc_miss_count == DEFAULT_REACQUIRE_CRC_MISS_COUNT,
            c.reacquire_idle_chips == DEFAULT_REACQUIRE_IDLE_CHIPS,
    {
        assert(32768 * cfg.oversample <= 32768 * 32768) by (nonlinear_arith)
            requires cfg.oversample <= 32768 {}
        PnLcCorrelator {
            cfg,
            phase_period: 32768 * cfg.oversample,
            buffered_samples: 0,
            recent_len: 0,
            recent_start_offset: 0,
            samples_consumed: 0,
            window_counter: 0,
            absolute_origin_sample: None,
            active_fingers: Vec::new(),
            pending_candidates: Vec::new(),
            next_finger_id: 1,
            search_paused: false,
            reacquire_signal_lost_chips: DEFAULT_REACQUIRE_SIGNAL_LOST_CHIPS,
            reacquire_crc_miss_count: DEFAULT_REACQUIRE_CRC_MISS_COUNT,
            reacquire_idle_chips: DEFAULT_REACQUIRE_IDLE_CHIPS,
        }
    }

    pub open spec fn origin(&self) -> int {
        match self.absolute_origin_sample { Some(a) => a as int, None => 0 }
    }

    /// PN phase at the start of the window at `window_offset`, compensated
    /// for the filter delay.
    pub fn base_phase(&self, window_offset: usize) -> (p: usize)
        requires
            self.wf(),
            self.origin() + window_offset + self.phase_period <= usize::MAX,
        ensures
            p == (self.origin() + window_offset + self.phase_period
                - (self.cfg.composite_filter_delay as int) % (self.phase_period as int)) % (self.phase_period as int),
    {
        let abs = match self.absolute_origin_sample { Some(a) => a, None => 0 };
        let pp = self.phase_period;
        let delay = self.cfg.composite_filter_delay % pp;
        (abs + window_offset + pp - delay) % pp
    }

    /// Absolute TX chip at a sample position, accounting for the filter delay.
    pub fn abs_chip_at(&self, sample_offset: usize) -> (c: usize)
        requires
            self.wf(),
            self.origin() + sample_offset <= usize::MAX,
        ensures
            c == (if self.origin() + sample_offset >= self.cfg.composite_filter_delay {
                self.origin() + sample_offset - self.cfg.composite_filter_delay
            } else {
                0
            }) / (self.cfg.oversample as int),
    {
        let abs = match self.absolute_origin_sample { Some(a) => a, None => 0 };
        (abs + sample_offset).saturating_sub(self.cfg.composite_filter_delay) / self.cfg.oversample
    }

    /// Sample phase of the chip center within each chip period.
    pub fn center_offset(&self) -> (o: usize)
        requires
            self.wf(),
        ensures
            o == match self.cfg.center_offset_override {
                Some(v) => v as int,
                None => (self.cfg.composite_filter_delay as int) % (self.cfg.oversample as int),
            },
    {
        match self.cfg.center_offset_override {
            Some(v) => v,
            None => self.cfg.composite_filter_delay % self.cfg.oversample,
        }
    }

    /// Whether finger `f` lies within the peak-suppression radius of `delay`.
    pub open spec fn overlaps(&self, f: ActiveFingerState, delay: i32) -> bool {
        abs_diff(f.delay_samples, delay) <= self.cfg.peak_suppress_samples
    }

    /// Whether an active finger blocks a spawn at `delay`: with the overlap
    /// suppression on, one at the same delay, or an unvalidated one within
    /// the suppression radius.
    pub open spec fn spec_has_overlapping(&self, delay: i32) -> bool {
        overlaps_any(self.cfg.suppress_active_finger_delay_overlap, self.cfg.active_finger_delay_suppress_samples,
            self.active_fingers@, delay)
    }

    pub fn has_overlapping_active_finger(&self, delay_samples: i32) -> (b: bool)
        requires
            delay_comparable(self.active_fingers@, delay_samples),
        ensures
            b == self.spec_has_overlapping(delay_samples),
    {
        if !self.cfg.suppress_active_finger_delay_overlap {
            return false;
        }
        let suppress = self.cfg.active_finger_delay_suppress_samples;
        let mut i: usize = 0;
        while i < self.active_fingers.len()
            invariant
                self.cfg.suppress_active_finger_delay_overlap,
                suppress == self.cfg.active_finger_delay_suppress_samples,
                delay_comparable(self.active_fingers@, delay_samples),
                i <= self.active_fingers@.len(),
                forall|k: int| 0 <= k < i ==> {
                    let f = #[trigger] self.active_fingers@[k];
                    !(abs_diff(f.delay_samples, delay_samples) == 0
                        || (!f.hard_validated && abs_diff(f.delay_samples, delay_samples) <= suppress))
                },
            decreases self.active_fingers@.len() - i,
        {
            let f = self.active_fingers[i];
            let delta = abs_delay_diff(f.delay_samples, delay_samples);
            if delta == 0 || (!f.hard_validated && delta <= suppress) {
                return true;
            }
            i += 1;
        }
        false
    }

    /// Whether a finger no longer holds its delay: idle long enough, signal
    /// lost long enough, or hard-validated with enough CRC misses.
    pub open spec fn releasable(&self, f: ActiveFingerState) -> bool {
        f.idle_chips >= self.reacquire_idle_chips
            || f.signal_lost_chips >= self.reacquire_signal_lost_chips
            || (f.hard_validated && f.crc_miss_count >= self.reacquire_crc_miss_count)
    }

    /// Whether a detection at `delay` may be acquired although it lies near
    /// active fingers: every such finger must be releasable.
    pub fn can_reacquire_over_active(&self, delay_samples: i32) -> (b: bool)
        requires
            delay_comparable(self.active_fingers@, delay_samples),
        ensures
            b == forall|i: int| 0 <= i < self.active_fingers@.len()
                && self.overlaps(#[trigger] self.active_fingers@[i], delay_samples)
                ==> self.releasable(self.active_fingers@[i]),
    {
        let suppress = self.cfg.peak_suppress_samples;
        let mut i: usize = 0;
        while i < self.active_fingers.len()
            invariant
                suppress == self.cfg.peak_suppress_samples,
                delay_comparable(self.active_fingers@, delay_samples),
                i <= self.active_fingers@.len(),
                forall|k: int| 0 <= k < i && self.overlaps(#[trigger] self.active_fingers@[k], delay_samples)
                    ==> self.releasable(self.active_fingers@[k]),
            decreases self.active_fingers@.len() - i,
        {
            let f = self.active_fingers[i];
            if abs_delay_diff(f.delay_samples, delay_samples) <= suppress {
                let ok = f.idle_chips >= self.reacquire_idle_chips
                    || f.signal_lost_chips >= self.reacquire_signal_lost_chips
                    || (f.hard_validated && f.crc_miss_count >= self.reacquire_crc_miss_count);
                if !ok {
                    return false;
                }
            }
            i += 1;
        }
        true
    }

    /// Whether the search is paused: suppression is on and some
    /// hard-validated finger still has signal.
    pub open spec fn spec_search_suppressed(&self) -> bool {
        self.cfg.suppress_search_when_locked && exists|i: int| 0 <= i < self.active_fingers@.len() && {
            let f = #[trigger] self.active_fingers@[i];
            f.hard_validated && f.signal_lost_chips < self.reacquire_signal_lost_chips
        }
    }

    pub fn search_suppressed(&self) -> (b: bool)
        ensures
            b == self.spec_search_suppressed(),
    {
        if !self.cfg.suppress_search_when_locked {
            return false;
        }
        let mut i: usize = 0;
        while i < self.active_fingers.len()
            invariant
                self.cfg.suppress_search_when_locked,
                i <= self.active_fingers@.len(),
                forall|k: int| 0 <= k < i ==> {
                    let f = #[trigger] self.active_fingers@[k];
                    !(f.hard_validated && f.signal_lost_chips < self.reacquire_signal_lost_chips)
                },
            decreases self.active_fingers@.len() - i,
        {
            let f = self.active_fingers[i];
            if f.hard_validated && f.signal_lost_chips < self.reacquire_signal_lost_chips {
                return true;
            }
            i += 1;
        }
        false
    }

    /// Register a newly spawned finger.
    pub fn add_active_finger(&mut self, f: ActiveFingerState)
        requires
            old(self).wf(),
        ensures
            final(self).wf(),
            final(self).active_fingers@ == old(self).active_fingers@.push(f),
            final(self).same_but_fingers(&*old(self)),
    {
        self.active_fingers.push(f);
    }

    /// Mark the fingers with id `finger_id` hard-validated.
    pub fn notify_hard_validated(&mut self, finger_id: u64)
        requires
            old(self).wf(),
        ensures
            final(self).wf(),
            final(self).same_but_fingers(&*old(self)),
            final(self).active_fingers@.len() == old(self).active_fingers@.len(),
            forall|i: int| 0 <= i < final(self).active_fingers@.len() ==> #[trigger] final(self).active_fingers@[i]
                == if old(self).active_fingers@[i].id == finger_id
                    && forall|k: int| 0 <= k < i ==> old(self).active_fingers@[k].id != finger_id {
                    ActiveFingerState { hard_validated: true, ..old(self).active_fingers@[i] }
                } else {
                    old(self).active_fingers@[i]
                },
    {
        let n = self.active_fingers.len();
        let mut i: usize = 0;
        while i < n
            invariant
                n == self.active_fingers@.len(),
                n == old(self).active_fingers@.len(),
                self.same_but_fingers(&*old(self)),
                old(self).wf(),
                i <= n,
                forall|k: int| 0 <= k < i ==> old(self).active_fingers@[k].id != finger_id,
                self.active_fingers@ == old(self).active_fingers@,
            decreases n - i,
        {
            if self.active_fingers[i].id == finger_id {
                let mut f = self.active_fingers[i];
                f.hard_validated = true;
                self.active_fingers.set(i, f);
                return;
            }
            i += 1;
        }
    }

    /// Update the first finger with id `finger_id` with its reported state.
    pub fn notify_finger_state(
        &mut self,
        finger_id: u64,
        hard_validated: bool,
        idle_chips: u64,
        signal_lost_chips: u64,
        crc_miss_count: u64,
        post_walsh_no_event_ms: u64,
    )
        requires
            old(self).wf(),
        ensures
            final(self).wf(),
            final(self).same_but_fingers(&*old(self)),
            final(self).active_fingers@.len() == old(self).active_fingers@.len(),
            forall|i: int| 0 <= i < final(self).active_fingers@.len() ==> #[trigger] final(self).active_fingers@[i]
                == if old(self).active_fingers@[i].id == finger_id
                    && forall|k: int| 0 <= k < i ==> old(self).active_fingers@[k].id != finger_id {
                    ActiveFingerState {
                        id: finger_id,
                        delay_samples: old(self).active_fingers@[i].delay_samples,
                        hard_validated,
                        idle_chips,
                        signal_lost_chips,
                        crc_miss_count,
                        post_walsh_no_event_ms,
                    }
                } else {
                    old(self).active_fingers@[i]
                },
    {
        let n = self.active_fingers.len();
        let mut i: usize = 0;
        while i < n
            invariant
                n == self.active_fingers@.len(),
                n == old(self).active_fingers@.len(),
                self.same_but_fingers(&*old(self)),
                old(self).wf(),
                i <= n,
                forall|k: int| 0 <= k < i ==> old(self).active_fingers@[k].id != finger_id,
                self.active_fingers@ == old(self).active_fingers@,
            decreases n - i,
        {
            if self.active_fingers[i].id == finger_id {
                let f = self.active_fingers[i];
                self.active_fingers.set(i, ActiveFingerState {
                    id: f.id,
                    delay_samples: f.delay_samples,
                    hard_validated,
                    idle_chips,
                    signal_lost_chips,
                    crc_miss_count,
                    post_walsh_no_event_ms,
                });
                return;
            }
            i += 1;
        }
    }

    /// Forget the fingers with id `finger_id`, releasing their delays.
    pub fn notify_finger_removed(&mut self, finger_id: u64)
        requires
            old(self).wf(),
        ensures
            final(self).wf(),
            final(self).same_but_fingers(&*old(self)),
            final(self).active_fingers@ == old(self).active_fingers@.filter(|f: ActiveFingerState| f.id != finger_id),
    {
        let ghost s = self.active_fingers@;
        let ghost pred = |f: ActiveFingerState| f.id != finger_id;
        let mut kept: Vec<ActiveFingerState> = Vec::new();
        let mut i: usize = 0;
        while i < self.active_fingers.len()
            invariant
                s == self.active_fingers@,
                pred == (|f: ActiveFingerState| f.id != finger_id),
                i <= s.len(),
                kept@ == s.subrange(0, i as int).filter(pred),
            decreases s.len() - i,
        {
            let f = self.active_fingers[i];
            proof {
                assert(s.subrange(0, i as int + 1) =~= s.subrange(0, i as int).push(f));
                s.subrange(0, i as int).lemma_filter_push(f, pred);
            }
            if f.id != finger_id {
                kept.push(f);
            }
            i += 1;
        }
        assert(s.subrange(0, s.len() as int) =~= s);
        self.active_fingers = kept;
    }

    /// Every field but the pending candidates, the active fingers and the
    /// next finger id is as in `o`.
    pub open spec fn same_but_round(&self, o: &Self) -> bool {
        &&& self.cfg == o.cfg
        &&& self.phase_period == o.phase_period
        &&& self.buffered_samples == o.buffered_samples
        &&& self.recent_len == o.recent_len
        &&& self.recent_start_offset == o.recent_start_offset
        &&& self.samples_consumed == o.samples_consumed
        &&& self.window_counter == o.window_counter
        &&& self.absolute_origin_sample == o.absolute_origin_sample
        &&& self.search_paused == o.search_paused
        &&& self.reacquire_signal_lost_chips == o.reacquire_signal_lost_chips
        &&& self.reacquire_crc_miss_count == o.reacquire_crc_miss_count
        &&& self.reacquire_idle_chips == o.reacquire_idle_chips
    }

    /// Close a verification round whose pending candidates, in order, came
    /// out as `outcomes`: kept candidates stay pending with their updated
    /// progress, dropped ones leave, and each promoted one registers a
    /// finger per timing hypothesis that no registered finger blocks (the
    /// first with the candidate's id, the others with fresh ids). Returns
    /// the ids of the fingers registered, in order.
    pub fn finish_round(&mut self, outcomes: &[RoundOutcome]) -> (spawned: Vec<u64>)
        requires
            old(self).wf(),
            old(self).next_finger_id + promoted_hypotheses(outcomes@, outcomes@.len() as int) <= u64::MAX,
            forall|j: int| 0 <= j < outcomes@.len() ==> delay_in_range(#[trigger] outcomes@[j].progress.delay_samples),
            forall|i: int| 0 <= i < old(self).active_fingers@.len() ==>
                delay_in_range(#[trigger] old(self).active_fingers@[i].delay_samples),
        ensures
            final(self).wf(),
            final(self).same_but_round(&*old(self)),
            ({
                let r = round_after(old(self).cfg.suppress_active_finger_delay_overlap,
                    old(self).cfg.active_finger_delay_suppress_samples, old(self).active_fingers@,
                    old(self).next_finger_id as int, outcomes@, outcomes@.len() as int);
                &&& final(self).pending_candidates@ == r.0
                &&& final(self).active_fingers@ == r.1
                &&& final(self).next_finger_id == r.2
                &&& spawned@ == r.3
            }),
    {
        let ghost on = self.cfg.suppress_active_finger_delay_overlap;
        let ghost radius = self.cfg.active_finger_delay_suppress_samples;
        let ghost a0 = self.active_fingers@;
        let ghost n0 = self.next_finger_id as int;
        let ghost total = promoted_hypotheses(outcomes@, outcomes@.len() as int);
        let mut pending: Vec<CandidateProgress> = Vec::new();
        let mut spawned: Vec<u64> = Vec::new();
        let mut j: usize = 0;
        while j < outcomes.len()
            invariant
                j <= outcomes@.len(),
                self.wf(),
                self.same_but_round(&*old(self)),
                on == self.cfg.suppress_active_finger_delay_overlap,
                radius == self.cfg.active_finger_delay_suppress_samples,
                a0 == old(self).active_fingers@,
                n0 == old(self).next_finger_id,
                total == promoted_hypotheses(outcomes@, outcomes@.len() as int),
                n0 + total <= u64::MAX,
                forall|jj: int| 0 <= jj < outcomes@.len() ==> delay_in_range(#[trigger] outcomes@[jj].progress.delay_samples),
                forall|i: int| 0 <= i < a0.len() ==> delay_in_range(#[trigger] a0[i].delay_samples),
                (pending@, self.active_fingers@, self.next_finger_id as int, spawned@)
                    == round_after(on, radius, a0, n0, outcomes@, j as int),
            decreases outcomes@.len() - j,
        {
            let o = outcomes[j];
            proof {
                lemma_round_bounds(on, radius, a0, n0, outcomes@, j as int);
                lemma_promoted_grows(outcomes@, j as int + 1, outcomes@.len() as int);
                assert(outcomes@[j as int] == o);
            }
            match o.fate {
                CandidateFate::Keep => {
                    pending.push(o.progress);
                },
                CandidateFate::Drop => {},
                CandidateFate::Promote => {
                    let ghost f0 = self.active_fingers@;
                    let ghost m0 = self.next_finger_id as int;
                    let ghost s0 = spawned@;
                    let delay = o.progress.delay_samples;
                    proof {
                        let r = round_after(on, radius, a0, n0, outcomes@, j as int);
                        assert(f0 == r.1);
                        assert forall|i: int| 0 <= i < f0.len() implies delay_in_range(#[trigger] f0[i].delay_samples) by {
                            assert(delay_in_range(r.1[i].delay_samples));
                        }
                        assert(promoted_hypotheses(outcomes@, j as int + 1)
                            == promoted_hypotheses(outcomes@, j as int) + o.timing_hypotheses);
                    }
                    let mut k: usize = 0;
                    while k < o.timing_hypotheses
                        invariant
                            k <= o.timing_hypotheses,
                            self.wf(),
                            self.same_but_round(&*old(self)),
                            on == self.cfg.suppress_active_finger_delay_overlap,
                            radius == self.cfg.active_finger_delay_suppress_samples,
                            delay == o.progress.delay_samples,
                            delay_in_range(delay),
                            forall|i: int| 0 <= i < f0.len() ==> delay_in_range(#[trigger] f0[i].delay_samples),
                            m0 + o.timing_hypotheses <= u64::MAX,
                            m0 >= 0,
                            (self.active_fingers@, self.next_finger_id as int)
                                == (spawn_hypotheses(on, radius, f0, m0, o.progress, k as int).0,
                                    spawn_hypotheses(on, radius, f0, m0, o.progress, k as int).1),
                            spawned@ == s0 + spawn_hypotheses(on, radius, f0, m0, o.progress, k as int).2,
                        decreases o.timing_hypotheses - k,
                    {
                        proof {
                            lemma_spawn_bounds(on, radius, f0, m0, o.progress, k as int);
                            assert forall|i: int| 0 <= i < self.active_fingers@.len() implies
                                i32::MIN < (#[trigger] self.active_fingers@[i]).delay_samples - delay <= i32::MAX by {
                                if i < f0.len() {
                                    assert(self.active_fingers@[i] == f0[i]);
                                }
                            }
                        }
                        if !self.has_overlapping_active_finger(delay) {
                            let id = if k == 0 {
                                o.progress.id
                            } else {
                                let id = self.next_finger_id;
                                self.next_finger_id = id + 1;
                                id
                            };
                            self.active_fingers.push(ActiveFingerState {
                                id,
                                delay_samples: delay,
                                hard_validated: false,
                                idle_chips: 0,
                                signal_lost_chips: 0,
                                crc_miss_count: 0,
                                post_walsh_no_event_ms: 0,
                            });
                            spawned.push(id);
                            proof {
                                assert(spawned@ =~= s0 + spawn_hypotheses(on, radius, f0, m0, o.progress, k as int + 1).2);
                            }
                        }
                        k += 1;
                    }
                    proof {
                        let prev = round_after(on, radius, a0, n0, outcomes@, j as int);
                        let sp = spawn_hypotheses(on, radius, f0, m0, o.progress, o.timing_hypotheses as int);
                        assert(spawned@ =~= prev.3 + sp.2);
                    }
                },
            }
            j += 1;
        }
        self.pending_candidates = pending;
        spawned
    }

    /// Drop everything that straddles a gap in the stream: buffered input
    /// (counted as consumed), replay history, candidates and active fingers;
    /// resume searching on the next window.
    pub fn handle_stream_discontinuity(&mut self)
        requires
            old(self).wf(),
            old(self).samples_consumed + old(self).buffered_samples <= usize::MAX,
        ensures
            final(self).wf(),
            final(self).cfg == old(self).cfg,
            final(self).samples_consumed == old(self).samples_consumed + old(self).buffered_samples,
            final(self).buffered_samples == 0,
            final(self).recent_len == 0,
            final(self).recent_start_offset == old(self).recent_start_offset,
            final(self).pending_candidates@.len() == 0,
            final(self).active_fingers@.len() == 0,
            !final(self).search_paused,
            final(self).window_counter == 1,
            final(self).absolute_origin_sample == old(self).absolute_origin_sample,
            final(self).next_finger_id == old(self).next_finger_id,
            final(self).phase_period == old(self).phase_period,
            final(self).reacquire_signal_lost_chips == old(self).reacquire_signal_lost_chips,
            final(self).reacquire_crc_miss_count == old(self).reacquire_crc_miss_count,
            final(self).reacquire_idle_chips == old(self).reacquire_idle_chips,
    {
        self.samples_consumed = self.samples_consumed + self.buffered_samples;
        self.buffered_samples = 0;
        self.recent_len = 0;
        self.pending_candidates = Vec::new();
        self.active_fingers = Vec::new();
        self.search_paused = false;
        self.window_counter = 1;
    }

    /// The origin after a block tagged `tag`, from the current origin `old`
    /// and the stream position `internal` of the block's first sample,
    /// and whether the move is a forward gap.
    pub open spec fn reanchored(reanchor: bool, old_origin: Option<usize>, internal: int, tag: Option<i64>)
        -> (Option<usize>, bool)
    {
        match tag {
            Some(t) if reanchor => {
                let block_abs = if t < 0 { 0 } else { (t as usize) as int };
                if block_abs < internal {
                    (old_origin, false)
                } else {
                    let new_origin = block_abs - internal;
                    match old_origin {
                        Some(o) => {
                            let delta = new_origin - o;
                            if delta > REANCHOR_JITTER_SAMPLES {
                                (Some(new_origin as usize), true)
                            } else if delta < -REANCHOR_JITTER_SAMPLES {
                                (Some(new_origin as usize), false)
                            } else {
                                (old_origin, false)
                            }
                        },
                        None => (Some(new_origin as usize), false),
                    }
                }
            },
            _ => (old_origin, false),
        }
    }

    /// Take in a block of `len` samples whose `absolute_sample_start` tag is
    /// `tag`. The first tagged block fixes the origin; with re-anchoring on,
    /// later tags move it, and a forward jump of more than four samples
    /// flushes the state that straddles the gap.
    pub fn take_block(&mut self, len: usize, tag: Option<i64>) -> (e: BlockEntry)
        requires
            old(self).wf(),
            old(self).samples_consumed + old(self).buffered_samples + len <= usize::MAX,
            old(self).recent_start_offset + old(self).recent_len + len <= usize::MAX,
            old(self).samples_consumed + old(self).buffered_samples + old(self).recent_len + len <= usize::MAX,
        ensures
            final(self).wf(),
            final(self).cfg == old(self).cfg,
            final(self).phase_period == old(self).phase_period,
            final(self).next_finger_id == old(self).next_finger_id,
            final(self).reacquire_signal_lost_chips == old(self).reacquire_signal_lost_chips,
            final(self).reacquire_crc_miss_count == old(self).reacquire_crc_miss_count,
            final(self).reacquire_idle_chips == old(self).reacquire_idle_chips,
            ({
                let latched = if old(self).absolute_origin_sample.is_none() {
                    match tag {
                        Some(t) => Some(if t < 0 { 0 } else { t as usize }),
                        None => None,
                    }
                } else {
                    old(self).absolute_origin_sample
                };
                let internal = old(self).samples_consumed + old(self).buffered_samples;
                let re = Self::reanchored(old(self).cfg.reanchor_origin, latched, internal, tag);
                let consumed = if re.1 { internal } else { old(self).samples_consumed as int };
                let leftover = if re.1 { 0 } else { old(self).buffered_samples as int };
                let recent0 = if re.1 { 0 } else { old(self).recent_len as int };
                let start0 = if recent0 == 0 { consumed + leftover } else { old(self).recent_start_offset as int };
                let trimmed = if recent0 + len > old(self).max_recent() { recent0 + len - old(self).max_recent() } else { 0 };
                &&& e.flushed == re.1
                &&& e.block_sample_offset == consumed + leftover
                &&& final(self).absolute_origin_sample == re.0
                &&& final(self).samples_consumed == consumed
                &&& final(self).buffered_samples == leftover + len
                &&& final(self).recent_len == recent0 + len - trimmed
                &&& final(self).recent_start_offset == start0 + trimmed
                &&& if re.1 {
                    &&& final(self).active_fingers@.len() == 0
                    &&& final(self).pending_candidates@.len() == 0
                    &&& !final(self).search_paused
                    &&& final(self).window_counter == 1
                } else {
                    &&& final(self).active_fingers@ == old(self).active_fingers@
                    &&& final(self).pending_candidates@ == old(self).pending_candidates@
                    &&& final(self).search_paused == old(self).search_paused
                    &&& final(self).window_counter == old(self).window_counter
                }
            }),
    {
        if self.absolute_origin_sample.is_none() {
            self.absolute_origin_sample = match tag {
                Some(t) => Some(if t < 0 { 0 } else { t as usize }),
                None => None,
            };
        }
        let mut flushed = false;
        if self.cfg.reanchor_origin {
            if let Some(t) = tag {
                let block_abs: usize = if t < 0 { 0 } else { t as usize };
                let internal = self.samples_consumed + self.buffered_samples;
                if block_abs >= internal {
                    let new_origin = block_abs - internal;
                    match self.absolute_origin_sample {
                        Some(o) => {
                            if new_origin > o && new_origin - o > 4 {
                                self.handle_stream_discontinuity();
                                self.absolute_origin_sample = Some(new_origin);
                                flushed = true;
                            } else if new_origin < o && o - new_origin > 4 {
                                self.absolute_origin_sample = Some(new_origin);
                            }
                        },
                        None => {
                            self.absolute_origin_sample = Some(new_origin);
                        },
                    }
                }
            }
        }
        let block_sample_offset = self.samples_consumed + self.buffered_samples;
        self.buffered_samples = self.buffered_samples + len;
        if self.recent_len == 0 {
            self.recent_start_offset = block_sample_offset;
        }
        let total = self.recent_len + len;
        let max_recent = self.cfg.coherent_chips * self.cfg.oversample * RECENT_HISTORY_FACTOR;
        if total > max_recent {
            self.recent_start_offset = self.recent_start_offset + (total - max_recent);
            self.recent_len = max_recent;
        } else {
            self.recent_len = total;
        }
        BlockEntry { block_sample_offset, flushed }
    }

    /// Consume the next whole window, if buffered: its stream offset, and
    /// whether the joint search runs on it (every `search_interval_windows`
    /// windows after the first, unless suppressed).
    pub fn next_window(&mut self) -> (w: Option<(usize, bool)>)
        requires
            old(self).wf(),
            old(self).cfg.search_interval_windows > 0,
            old(self).samples_consumed + old(self).buffered_samples <= usize::MAX,
            old(self).window_counter < u64::MAX,
        ensures
            final(self).wf(),
            final(self).cfg == old(self).cfg,
            final(self).active_fingers@ == old(self).active_fingers@,
            final(self).phase_period == old(self).phase_period,
            final(self).absolute_origin_sample == old(self).absolute_origin_sample,
            final(self).recent_len == old(self).recent_len,
            final(self).recent_start_offset == old(self).recent_start_offset,
            final(self).pending_candidates@ == old(self).pending_candidates@,
            final(self).search_paused == old(self).search_paused,
            final(self).next_finger_id == old(self).next_finger_id,
            final(self).reacquire_signal_lost_chips == old(self).reacquire_signal_lost_chips,
            final(self).reacquire_crc_miss_count == old(self).reacquire_crc_miss_count,
            final(self).reacquire_idle_chips == old(self).reacquire_idle_chips,
            if old(self).buffered_samples >= old(self).window_len() {
                &&& w == Some((old(self).samples_consumed, old(self).window_counter % old(self).cfg.search_interval_windows == 0
                    && old(self).window_counter > 0 && !old(self).spec_search_suppressed()))
                &&& final(self).samples_consumed == old(self).samples_consumed + old(self).window_len()
                &&& final(self).buffered_samples == old(self).buffered_samples - old(self).window_len()
                &&& final(self).window_counter == old(self).window_counter + 1
            } else {
                &&& w.is_none()
                &&& final(self).samples_consumed == old(self).samples_consumed
                &&& final(self).buffered_samples == old(self).buffered_samples
                &&& final(self).window_counter == old(self).window_counter
            },
    {
        assert(self.cfg.coherent_chips * self.cfg.oversample <= self.cfg.coherent_chips * self.cfg.oversample * RECENT_HISTORY_FACTOR)
            by (nonlinear_arith);
        let window_len = self.cfg.coherent_chips * self.cfg.oversample;
        if self.buffered_samples < window_len {
            return None;
        }
        let offset = self.samples_consumed;
        self.samples_consumed = self.samples_consumed + window_len;
        self.buffered_samples = self.buffered_samples - window_len;
        let search = self.window_counter % self.cfg.search_interval_windows == 0
            && self.window_counter > 0
            && !self.search_suppressed();
        self.window_counter = self.window_counter + 1;
        Some((offset, search))
    }


    /// Where a candidate at `aligned_delay` is verified in the window at
    /// `window_offset`: the delay reduced into the first chip, the stream
    /// offset there, the TX chip expected there (net of filter and signal
    /// delay), the PN phase there, and the chip-center sample phase.
    pub fn verify_geometry(&self, aligned_delay: i32, window_offset: usize) -> (g: VerifyGeometry)
        requires
            self.wf(),
            -(STREAM_POSITION_BOUND as int) < aligned_delay,
            -0x4000_0000 <= aligned_delay <= 0x4000_0000,
            pos_ok(self.origin()),
            pos_ok(window_offset as int),
            pos_ok(self.cfg.composite_filter_delay as int),
        ensures
            ({
                let os = self.cfg.oversample as int;
                let vd = aligned_delay as int % os;
                let vso = window_offset + vd;
                let pp = self.phase_period as int;
                let base = (self.origin() + window_offset + pp - (self.cfg.composite_filter_delay as int) % pp) % pp;
                &&& g.verify_delay == vd
                &&& g.verify_sample_offset == vso
                &&& g.expected_chip == max0(trunc_div(self.origin() + vso - self.cfg.composite_filter_delay - aligned_delay, os))
                &&& g.verify_base_phase == (base + (vd - aligned_delay) % pp) % pp
                &&& g.center_offset == vd
            }),
    {
        let os = self.cfg.oversample;
        assert(os <= 32768);
        let os_i: i32 = os as i32;
        let verify_delay = crate::modulo(aligned_delay, os_i);
        let verify_sample_offset = window_offset + verify_delay as usize;
        let abs: i64 = match self.absolute_origin_sample { Some(a) => a as i64, None => 0 };
        let raw: i64 = abs + verify_sample_offset as i64 - self.cfg.composite_filter_delay as i64 - aligned_delay as i64;
        assert(raw == self.origin() + verify_sample_offset - self.cfg.composite_filter_delay - aligned_delay);
        let q: i64 = raw / (os as i64);
        assert(q == trunc_div(raw as int, os as int));
        assert(q <= raw || q <= 0) by (nonlinear_arith)
            requires q == trunc_div(raw as int, os as int), os >= 1 {}
        let expected_chip: usize = if q < 0 { 0 } else { q as usize };
        let base_phase = self.base_phase(window_offset);
        let pp = self.phase_period;
        assert(pp <= 32768 * 32768) by (nonlinear_arith)
            requires pp == 32768 * os, os <= 32768 {}
        let shift_samples: i32 = verify_delay - aligned_delay;
        let shift_mod = crate::modulo(shift_samples, pp as i32);
        let verify_base_phase = (base_phase + shift_mod as usize) % pp;
        let center_offset = crate::modulo(verify_delay, os_i) as usize;
        proof {
            vstd::arithmetic::div_mod::lemma_small_mod(verify_delay as nat, os as nat);
        }
        VerifyGeometry {
            verify_delay,
            verify_sample_offset,
            expected_chip,
            verify_base_phase,
            center_offset,
        }
    }

    /// Where the finger of a promoted candidate starts: back from its first
    /// verified sample by the configured preamble replay, but not before the
    /// held history (kept on the same sample phase), with the TX chip and PN
    /// phase of that sample.
    pub fn finger_seed(
        &self,
        c: CandidateProgress,
        geometry: VerifyGeometry,
        window_offset: usize,
        best_phase: i32,
        block_sample_offset: usize,
    ) -> (s: FingerSeed)
        requires
            self.wf(),
            0 <= geometry.verify_delay < self.cfg.oversample,
            pos_ok(geometry.expected_chip as int),
            -0x4000_0000 <= best_phase <= 0x4000_0000,
            -0x4000_0000 <= c.delay_samples <= 0x4000_0000,
            pos_ok(window_offset as int),
            pos_ok(self.origin()),
            pos_ok(self.recent_start_offset as int),
            pos_ok(self.cfg.composite_filter_delay as int),
            c.first_verified_sample_offset matches Some(v) ==> pos_ok(v as int),
            c.first_verified_tx_chip matches Some(t) ==> pos_ok(t as int),
        ensures
            ({
                let os = self.cfg.oversample as int;
                let center = geometry.verify_delay as int;
                let verified_sample = match c.first_verified_sample_offset {
                    Some(v) => v as int,
                    None => window_offset + geometry.verify_delay,
                };
                let verified_tx = match c.first_verified_tx_chip {
                    Some(t) => t as int,
                    None => max0(geometry.expected_chip + best_phase),
                };
                let chip_start = sat_sub(verified_sample, center);
                let replay = sat_mul(self.cfg.replay_preamble_symbols as int, self.cfg.chip_block_size as int);
                let desired = sat_sub(chip_start, sat_mul(replay, os));
                let history = spec_align_up(self.recent_start_offset as int, chip_start % os, os);
                let start = if desired >= history { desired } else { history };
                let pp = self.phase_period as int;
                &&& s.center_offset == center
                &&& s.finger_start_sample == start
                &&& s.tx_chip == max0(verified_tx - trunc_div(chip_start - start, os))
                &&& s.samples_to_skip == sat_sub(start, block_sample_offset as int)
                &&& s.despread_phase == (self.origin() + start - self.cfg.composite_filter_delay - c.delay_samples) % pp
            }),
    {
        let os = self.cfg.oversample;
        assert(1 <= os <= 32768);
        assert(STREAM_POSITION_BOUND == 0x1000_0000_0000_0000u64);
        let center_offset: usize = geometry.verify_delay as usize;
        let verified_sample: usize = match c.first_verified_sample_offset {
            Some(v) => v,
            None => window_offset + geometry.verify_delay as usize,
        };
        let verified_tx: usize = match c.first_verified_tx_chip {
            Some(t) => t,
            None => {
                let tx = geometry.expected_chip as i64 + best_phase as i64;
                if tx < 0 { 0 } else { tx as usize }
            },
        };
        let chip_start = verified_sample.saturating_sub(center_offset);
        let replay = match self.cfg.replay_preamble_symbols.checked_mul(self.cfg.chip_block_size) {
            Some(v) => v,
            None => usize::MAX,
        };
        let replay_samples = match replay.checked_mul(os) {
            Some(v) => v,
            None => usize::MAX,
        };
        let desired = chip_start.saturating_sub(replay_samples);
        assert(self.recent_start_offset + os <= usize::MAX);
        let history = align_up_to_residue(self.recent_start_offset, chip_start % os, os);
        let start = if desired >= history { desired } else { history };
        assert(start <= usize::MAX / 4 + 32768);
        let delta: i64 = (chip_start as i64 - start as i64) / (os as i64);
        let tx: i64 = verified_tx as i64 - delta;
        let tx_chip: usize = if tx < 0 { 0 } else { tx as usize };
        let samples_to_skip = start.saturating_sub(block_sample_offset);
        let abs: i64 = match self.absolute_origin_sample { Some(a) => a as i64, None => 0 };
        let pp = self.phase_period as i64;
        let raw: i64 = abs + start as i64 - self.cfg.composite_filter_delay as i64 - c.delay_samples as i64;
        let r: i64 = raw % pp;
        proof {
            crate::lemma_trunc_rem_congruent(raw as int, pp as int);
        }
        let despread_phase = ((r + pp) % pp) as usize;
        FingerSeed {
            center_offset,
            finger_start_sample: start,
            tx_chip,
            samples_to_skip,
            despread_phase,
        }
    }


    /// Radius within which a detection updates an existing candidate: the
    /// peak suppression, at least one chip.
    pub open spec fn match_radius(&self) -> int {
        if self.cfg.peak_suppress_samples >= self.cfg.oversample { self.cfg.peak_suppress_samples as int } else { self.cfg.oversample as int }
    }

    /// The first pending candidate within the match radius of `delay`.
    pub fn matching_candidate(&self, delay_samples: i32) -> (k: Option<usize>)
        requires
            self.wf(),
            forall|i: int| 0 <= i < self.pending_candidates@.len() ==>
                i32::MIN < (#[trigger] self.pending_candidates@[i]).delay_samples - delay_samples <= i32::MAX,
        ensures
            match k {
                Some(k) => k < self.pending_candidates@.len()
                    && abs_diff(self.pending_candidates@[k as int].delay_samples, delay_samples) <= self.match_radius()
                    && forall|i: int| 0 <= i < k ==>
                        abs_diff(#[trigger] self.pending_candidates@[i].delay_samples, delay_samples) > self.match_radius(),
                None => forall|i: int| 0 <= i < self.pending_candidates@.len() ==>
                    abs_diff(#[trigger] self.pending_candidates@[i].delay_samples, delay_samples) > self.match_radius(),
            },
    {
        let os_i: i32 = self.cfg.oversample as i32;
        let radius: i32 = if self.cfg.peak_suppress_samples >= os_i { self.cfg.peak_suppress_samples } else { os_i };
        let mut i: usize = 0;
        while i < self.pending_candidates.len()
            invariant
                self.wf(),
                radius == self.match_radius(),
                forall|j: int| 0 <= j < self.pending_candidates@.len() ==>
                    i32::MIN < (#[trigger] self.pending_candidates@[j]).delay_samples - delay_samples <= i32::MAX,
                i <= self.pending_candidates@.len(),
                forall|j: int| 0 <= j < i ==>
                    abs_diff(#[trigger] self.pending_candidates@[j].delay_samples, delay_samples) > radius,
            decreases self.pending_candidates@.len() - i,
        {
            if abs_delay_diff(self.pending_candidates[i].delay_samples, delay_samples) <= radius {
                return Some(i);
            }
            i += 1;
        }
        None
    }

    /// Take in a detection at `delay` with LC phase hint `hint`. Near an
    /// existing candidate it updates that one (only while it has no hit,
    /// and only when the detection is `stronger` or at another delay);
    /// otherwise it becomes a new candidate with the next id.
    pub fn upsert_candidate(&mut self, delay_samples: i32, lc_phase_hint: i32, stronger: bool) -> (k: usize)
        requires
            old(self).wf(),
            old(self).next_finger_id < u64::MAX,
            forall|i: int| 0 <= i < old(self).pending_candidates@.len() ==>
                i32::MIN < (#[trigger] old(self).pending_candidates@[i]).delay_samples - delay_samples <= i32::MAX,
        ensures
            final(self).wf(),
            final(self).cfg == old(self).cfg,
            final(self).active_fingers@ == old(self).active_fingers@,
            k < final(self).pending_candidates@.len(),
            ({
                let found = exists|i: int| 0 <= i < old(self).pending_candidates@.len()
                    && abs_diff(#[trigger] old(self).pending_candidates@[i].delay_samples, delay_samples) <= old(self).match_radius();
                if found {
                    let c = old(self).pending_candidates@[k as int];
                    &&& abs_diff(c.delay_samples, delay_samples) <= old(self).match_radius()
                    &&& forall|i: int| 0 <= i < k ==>
                        abs_diff(#[trigger] old(self).pending_candidates@[i].delay_samples, delay_samples) > old(self).match_radius()
                    &&& final(self).next_finger_id == old(self).next_finger_id
                    &&& final(self).pending_candidates@ == old(self).pending_candidates@.update(k as int,
                        if c.preamble_hits == 0 && (stronger || c.delay_samples != delay_samples) {
                            CandidateProgress { delay_samples, lc_phase_hint, ..c }
                        } else {
                            c
                        })
                } else {
                    &&& k == old(self).pending_candidates@.len()
                    &&& final(self).next_finger_id == old(self).next_finger_id + 1
                    &&& final(self).pending_candidates@ == old(self).pending_candidates@.push(CandidateProgress {
                        id: old(self).next_finger_id,
                        delay_samples,
                        lc_phase_hint,
                        preamble_hits: 0,
                        attempts: 0,
                        first_verified_tx_chip: None,
                        first_verified_sample_offset: None,
                    })
                }
            }),
    {
        match self.matching_candidate(delay_samples) {
            Some(k) => {
                let c = self.pending_candidates[k];
                if c.preamble_hits == 0 && (stronger || c.delay_samples != delay_samples) {
                    self.pending_candidates.set(k, CandidateProgress { delay_samples, lc_phase_hint, ..c });
                }
                k
            },
            None => {
                let id = self.next_finger_id;
                self.next_finger_id = id + 1;
                self.pending_candidates.push(CandidateProgress {
                    id,
                    delay_samples,
                    lc_phase_hint,
                    preamble_hits: 0,
                    attempts: 0,
                    first_verified_tx_chip: None,
                    first_verified_sample_offset: None,
                });
                self.pending_candidates.len() - 1
            },
        }
    }

    /// Where in the replay history the stream range `start..end` lies, as
    /// (first index, count), when all of it is still held.
    pub fn replay_range(&self, start: usize, end: usize) -> (r: Option<(usize, usize)>)
        requires
            self.recent_start_offset + self.recent_len <= usize::MAX,
        ensures
            r == if start >= end || start < self.recent_start_offset
                || end > self.recent_start_offset + self.recent_len {
                None::<(usize, usize)>
            } else {
                Some(((start - self.recent_start_offset) as usize, (end - start) as usize))
            },
    {
        if start >= end {
            return None;
        }
        let history_end = self.recent_start_offset + self.recent_len;
        if start < self.recent_start_offset || end > history_end {
            return None;
        }
        Some((start - self.recent_start_offset, end - start))
    }
}

} // verus!
