//! Staged acquisition of the reverse access searcher: PN peaks become
//! candidates, persistent candidates go on to long-code search, preamble
//! hits confirm them, and confirmed detections spawn fingers.
//!
//! Correlation maps, long-code searches and finger despreading are the
//! caller's; it reports peak delays (strongest first) and search outcomes.
use vstd::prelude::*;

verus! {

/// Matched-filter taps per pass.
pub const FILTER_TAPS: usize = 48;
/// Long-code search attempts a candidate gets without enough preamble hits.
pub const STAGE2_MAX_ATTEMPTS: u32 = 16;
/// Windows a finger may run without hard validation.
pub const MAX_UNVALIDATED_FINGER_BLOCKS: u64 = 128;
/// Windows of raw samples kept for replay.
pub const RECENT_WINDOWS: usize = 256;

/// Integer parameters of the staged acquisition.
#[derive(Debug, Clone, Copy, PartialEq, Eq, Structural)]
pub struct RakeAcquisitionConfig {
    pub oversample: usize,
    pub pn_coherent_chips: usize,
    pub pn_noncoherent_windows: usize,
    pub pn_keep_top_n: usize,
    pub pn_peak_suppress_samples: usize,
    pub pn_persistence_required: u32,
    pub lc_search_half_span_chips: i32,
    pub lc_integrate_chips: usize,
    pub lc_noncoherent_segments: usize,
    pub preamble_hits_required: u32,
    pub fine_offset_search_samples: i32,
    pub max_active_candidates: usize,
    pub joint_search_interval_blocks: u64,
    pub joint_lc_half_span: i32,
    pub stage2_interval_blocks: u64,
}

impl RakeAcquisitionConfig {
    pub fn default_4x() -> (c: Self)
        ensures
            c.oversample == 4 && c.pn_coherent_chips == 256 && c.pn_noncoherent_windows == 16,
            c.pn_keep_top_n == 32 && c.pn_peak_suppress_samples == 4 && c.pn_persistence_required == 1,
            c.lc_search_half_span_chips == 128 && c.lc_integrate_chips == 256 && c.lc_noncoherent_segments == 4,
            c.preamble_hits_required == 2 && c.fine_offset_search_samples == 2 && c.max_active_candidates == 8,
            c.joint_search_interval_blocks == 8 && c.joint_lc_half_span == 128 && c.stage2_interval_blocks == 1,
    {
        RakeAcquisitionConfig {
            oversample: 4,
            pn_coherent_chips: 256,
            pn_noncoherent_windows: 16,
            pn_keep_top_n: 32,
            pn_peak_suppress_samples: 4,
            pn_persistence_required: 1,
            lc_search_half_span_chips: 128,
            lc_integrate_chips: 256,
            lc_noncoherent_segments: 4,
            preamble_hits_required: 2,
            fine_offset_search_samples: 2,
            max_active_candidates: 8,
            joint_search_interval_blocks: 8,
            joint_lc_half_span: 128,
            stage2_interval_blocks: 1,
        }
    }
}

#[derive(Debug, Clone, Copy, PartialEq, Eq, Structural)]
pub enum CandidateState {
    Stage1,
    Stage2SearchingLc,
    VerifyingPreamble,
    PreambleDetected,
    Rejected,
}

#[derive(Debug, Clone, Copy, PartialEq, Eq, Structural)]
pub struct AccessCandidate {
    pub id: u64,
    pub state: CandidateState,
    pub coarse_delay_samples: i32,
    pub fine_delay_samples: i32,
    pub persistence: u32,
    pub last_seen_block: u64,
    pub best_lc_phase_chips: i32,
    pub preamble_hits: u32,
    pub stage2_attempts: u32,
    pub first_preamble_tx_chip: Option<usize>,
}

/// A confirmed preamble: what a finger is spawned from.
#[derive(Debug, Clone, Copy, PartialEq, Eq, Structural)]
pub struct DetectionEvent {
    pub candidate_id: u64,
    pub delay_samples: i32,
    pub finger_delay_samples: i32,
    pub lc_phase_chips: i32,
    pub tx_chip_at_despread_origin: usize,
    pub first_preamble_tx_chip: usize,
}

/// A running access finger.
#[derive(Debug, Clone, Copy, PartialEq, Eq, Structural)]
pub struct AccessFinger {
    pub id: u64,
    pub sample_delay: i32,
    pub lc_phase_chips: i32,
    pub despread_phase: usize,
    pub blocks_fed: u64,
    pub hard_validated: bool,
}

/// Where a finger starts: the PN phase it despreads at, the chip-center
/// sample phase, and its first TX, preamble and chain chips.
#[derive(Debug, Clone, Copy, PartialEq, Eq, Structural)]
pub struct AccessSpawn {
    pub despread_phase: usize,
    pub replay_despread_phase: usize,
    pub center_offset: usize,
    pub first_tx_chip: usize,
    pub first_preamble_chip: usize,
    pub chain_start_chip: usize,
}

/// Tags a finger chain's output block carries that the searcher reads.
#[derive(Debug, Clone, Copy, PartialEq, Eq, Structural)]
pub struct AccessChainTags {
    pub access_event: Option<i64>,
    pub access_crc_valid: Option<i64>,
}

/// An access event passes on only with a valid CRC; other blocks pass.
pub open spec fn passes_on(t: AccessChainTags) -> bool {
    t.access_event == Some(1i64) ==> t.access_crc_valid == Some(1i64)
}

pub open spec fn abs_i(a: int) -> int {
    if a >= 0 { a } else { -a }
}

pub open spec fn max0(a: int) -> int {
    if a >= 0 { a } else { 0 }
}

/// Euclidean (floor) division for `b > 0`.
pub open spec fn floor_div(a: int, b: int) -> int {
    a / b
}

/// Live candidates: neither rejected nor already detected.
pub open spec fn is_live(c: AccessCandidate) -> bool {
    c.state != CandidateState::Rejected && c.state != CandidateState::PreambleDetected
}

pub open spec fn live_count(s: Seq<AccessCandidate>) -> nat
    decreases s.len(),
{
    if s.len() == 0 { 0 } else { live_count(s.drop_last()) + if is_live(s.last()) { 1nat } else { 0nat } }
}

/// Peak delays kept from `delays` (strongest first): each more than the
/// suppression radius from every kept one, until `keep` are kept.
pub open spec fn suppressed_peaks(delays: Seq<i32>, n: int, suppress: int, keep: int) -> Seq<i32>
    decreases n,
{
    if n <= 0 {
        Seq::empty()
    } else {
        let kept = suppressed_peaks(delays, n - 1, suppress, keep);
        if kept.len() >= keep {
            kept
        } else if exists|k: int| 0 <= k < kept.len() && abs_i(delays[n - 1] - #[trigger] kept[k]) <= suppress {
            kept
        } else {
            kept.push(delays[n - 1])
        }
    }
}

proof fn lemma_suppressed_len(delays: Seq<i32>, n: int, suppress: int, keep: int)
    requires
        keep >= 1,
    ensures
        suppressed_peaks(delays, n, suppress, keep).len() <= keep,
    decreases n,
{
    if n > 0 {
        lemma_suppressed_len(delays, n - 1, suppress, keep);
    }
}

proof fn lemma_suppressed_apart(delays: Seq<i32>, n: int, suppress: int, keep: int)
    requires
        0 <= n <= delays.len(),
    ensures
        forall|a: int, b: int| 0 <= a < b < suppressed_peaks(delays, n, suppress, keep).len()
            ==> abs_i(#[trigger] suppressed_peaks(delays, n, suppress, keep)[a]
                - #[trigger] suppressed_peaks(delays, n, suppress, keep)[b]) > suppress,
    decreases n,
{
    if n > 0 {
        lemma_suppressed_apart(delays, n - 1, suppress, keep);
        let prev = suppressed_peaks(delays, n - 1, suppress, keep);
        let kept = suppressed_peaks(delays, n, suppress, keep);
        let d = delays[n - 1];
        if prev.len() < keep && !(exists|k: int| 0 <= k < prev.len() && abs_i(d - #[trigger] prev[k]) <= suppress) {
            assert(kept == prev.push(d));
            assert forall|a: int, b: int| 0 <= a < b < kept.len()
                implies abs_i(#[trigger] kept[a] - #[trigger] kept[b]) > suppress by {
                if b < prev.len() {
                    assert(kept[a] == prev[a] && kept[b] == prev[b]);
                } else {
                    assert(kept[a] == prev[a] && kept[b] == d);
                    assert(!(abs_i(d - prev[a]) <= suppress));
                }
            }
        }
    }
}

proof fn lemma_suppressed_from_input(delays: Seq<i32>, n: int, suppress: int, keep: int)
    requires
        0 <= n <= delays.len(),
    ensures
        forall|a: int| 0 <= a < suppressed_peaks(delays, n, suppress, keep).len()
            ==> exists|m: int| 0 <= m < n && delays[m] == #[trigger] suppressed_peaks(delays, n, suppress, keep)[a],
    decreases n,
{
    if n > 0 {
        lemma_suppressed_from_input(delays, n - 1, suppress, keep);
        let prev = suppressed_peaks(delays, n - 1, suppress, keep);
        let kept = suppressed_peaks(delays, n, suppress, keep);
        assert(kept == prev || kept == prev.push(delays[n - 1]));
        assert forall|a: int| 0 <= a < kept.len() implies exists|m: int| 0 <= m < n
            && delays[m] == #[trigger] kept[a] by {
            if a < prev.len() {
                let m = choose|m: int| 0 <= m < n - 1 && delays[m] == #[trigger] prev[a];
                assert(delays[m] == kept[a]);
            } else {
                assert(delays[n - 1] == kept[a]);
            }
        }
    }
}

proof fn lemma_suppressed_covers(delays: Seq<i32>, n: int, suppress: int, keep: int)
    requires
        0 <= n <= delays.len(),
        suppress >= 0,
    ensures
        suppressed_peaks(delays, n, suppress, keep).len() < keep ==> forall|m: int| 0 <= m < n
            ==> exists|k: int| 0 <= k < suppressed_peaks(delays, n, suppress, keep).len()
                && abs_i(#[trigger] delays[m] - suppressed_peaks(delays, n, suppress, keep)[k]) <= suppress,
    decreases n,
{
    if n > 0 {
        lemma_suppressed_covers(delays, n - 1, suppress, keep);
        let prev = suppressed_peaks(delays, n - 1, suppress, keep);
        let kept = suppressed_peaks(delays, n, suppress, keep);
        let d = delays[n - 1];
        if kept.len() < keep {
            assert(prev.len() < keep);
            assert forall|m: int| 0 <= m < n implies exists|k: int| 0 <= k < kept.len()
                && abs_i(#[trigger] delays[m] - kept[k]) <= suppress by {
                if exists|k: int| 0 <= k < prev.len() && abs_i(d - #[trigger] prev[k]) <= suppress {
                    assert(kept == prev);
                    if m == n - 1 {
                        let k = choose|k: int| 0 <= k < prev.len() && abs_i(d - #[trigger] prev[k]) <= suppress;
                        assert(abs_i(delays[m] - kept[k]) <= suppress);
                    }
                } else {
                    assert(kept == prev.push(d));
                    if m < n - 1 {
                        let k = choose|k: int| 0 <= k < prev.len() && abs_i(#[trigger] delays[m] - prev[k]) <= suppress;
                        assert(kept[k] == prev[k]);
                        assert(abs_i(delays[m] - kept[k]) <= suppress);
                    } else {
                        let k = prev.len() as int;
                        assert(kept[k] == d);
                        assert(abs_i(delays[m] - kept[k]) <= suppress);
                    }
                }
            }
        }
    }
}

/// Peak suppression keeps at most `keep` delays, each one of the input
/// delays; every two kept delays lie more than the suppression radius apart;
/// and while the kept list is not full, every input delay lies within the
/// radius of some kept delay (a suppressed peak is a side lobe of a kept one).
pub proof fn lemma_suppressed_peaks_separated(delays: Seq<i32>, n: int, suppress: int, keep: int)
    requires
        0 <= n <= delays.len(),
        suppress >= 0,
        keep >= 1,
    ensures
        ({
            let kept = suppressed_peaks(delays, n, suppress, keep);
            &&& kept.len() <= keep
            &&& forall|a: int, b: int| 0 <= a < b < kept.len() ==> abs_i(#[trigger] kept[a] - #[trigger] kept[b]) > suppress
            &&& forall|a: int| 0 <= a < kept.len() ==> exists|m: int| 0 <= m < n && delays[m] == #[trigger] kept[a]
            &&& kept.len() < keep ==> forall|m: int| 0 <= m < n
                ==> exists|k: int| 0 <= k < kept.len() && abs_i(#[trigger] delays[m] - kept[k]) <= suppress
        }),
{
    lemma_suppressed_len(delays, n, suppress, keep);
    lemma_suppressed_apart(delays, n, suppress, keep);
    lemma_suppressed_from_input(delays, n, suppress, keep);
    lemma_suppressed_covers(delays, n, suppress, keep);
}

/// Keep the local-peak delays (strongest first) that are not within
/// `suppress` samples of a stronger kept one, at most `keep_top_n`.
pub fn suppress_peaks(delays: &[i32], suppress: usize, keep_top_n: usize) -> (kept: Vec<i32>)
    requires
        suppress <= i32::MAX,
        keep_top_n >= 1,
        forall|i: int| 0 <= i < delays@.len() ==> -0x2000_0000 <= #[trigger] delays@[i] <= 0x2000_0000,
    ensures
        kept@ == suppressed_peaks(delays@, delays@.len() as int, suppress as int, keep_top_n as int),
        kept@.len() <= keep_top_n,
        forall|a: int, b: int| 0 <= a < b < kept@.len() ==> abs_i(#[trigger] kept@[a] - #[trigger] kept@[b]) > suppress,
        kept@.len() < keep_top_n ==> forall|m: int| 0 <= m < delays@.len()
            ==> exists|k: int| 0 <= k < kept@.len() && abs_i(#[trigger] delays@[m] - kept@[k]) <= suppress,
{
    let sup = suppress as i32;
    let mut kept: Vec<i32> = Vec::new();
    let mut i: usize = 0;
    while i < delays.len()
        invariant
            sup == suppress,
            keep_top_n >= 1,
            forall|j: int| 0 <= j < delays@.len() ==> -0x2000_0000 <= #[trigger] delays@[j] <= 0x2000_0000,
            i <= delays@.len(),
            kept@ == suppressed_peaks(delays@, i as int, suppress as int, keep_top_n as int),
            forall|j: int| 0 <= j < kept@.len() ==> -0x2000_0000 <= #[trigger] kept@[j] <= 0x2000_0000,
        decreases delays@.len() - i,
    {
        proof { lemma_suppressed_len(delays@, i as int, suppress as int, keep_top_n as int); }
        if kept.len() >= keep_top_n {
            i += 1;
            continue;
        }
        let d = delays[i];
        let mut close = false;
        let mut k: usize = 0;
        while k < kept.len()
            invariant
                -0x2000_0000 <= d <= 0x2000_0000,
                forall|j: int| 0 <= j < kept@.len() ==> -0x2000_0000 <= #[trigger] kept@[j] <= 0x2000_0000,
                k <= kept@.len(),
                close == exists|j: int| 0 <= j < k && abs_i(d - #[trigger] kept@[j]) <= sup,
            decreases kept@.len() - k,
        {
            let diff = d - kept[k];
            let a = if diff < 0 { -diff } else { diff };
            if a <= sup {
                close = true;
            }
            k += 1;
        }
        if !close {
            kept.push(d);
        }
        i += 1;
    }
    proof { lemma_suppressed_peaks_separated(delays@, delays@.len() as int, suppress as int, keep_top_n as int); }
    kept
}

/// Signed delay of correlation bin `i` in a map of `len` bins.
pub fn bin_delay(i: usize, len: usize) -> (d: i32)
    requires
        i <= 0x2000_0000,
        len <= 0x2000_0000,
    ensures
        d == if i > len / 2 { i - len } else { i as int },
{
    if i > len / 2 { i as i32 - len as i32 } else { i as i32 }
}

/// Bookkeeping of the access searcher.
pub struct RakeAccessSearcher {
    pub cfg: RakeAcquisitionConfig,
    pub phase_period: usize,
    pub composite_filter_delay: usize,
    pub candidates: Vec<AccessCandidate>,
    pub fingers: Vec<AccessFinger>,
    pub samples_consumed: usize,
    pub block_counter: u64,
    pub next_candidate_id: u64,
    pub absolute_origin_sample: Option<usize>,
}

impl RakeAccessSearcher {
    pub open spec fn wf(&self) -> bool {
        &&& 1 <= self.cfg.oversample <= 32768
        &&& self.phase_period == 32768 * self.cfg.oversample
    }

    pub open spec fn origin(&self) -> int {
        match self.absolute_origin_sample { Some(a) => a as int, None => 0 }
    }

    /// A searcher for streams oversampled by `oversample`, with the default
    /// configuration and two filter passes of group delay.
    pub fn new(oversample: usize) -> (s: Self)
        requires
            1 <= oversample <= 32768,
        ensures
            s.wf(),
            s.cfg == (RakeAcquisitionConfig { oversample, ..s.cfg }),
            s.cfg.oversample == oversample,
            s.composite_filter_delay == (FILTER_TAPS - 1) * 2,
            s.candidates@.len() == 0 && s.fingers@.len() == 0,
            s.samples_consumed == 0 && s.block_counter == 0 && s.next_candidate_id == 1,
            s.absolute_origin_sample.is_none(),
    {
        let d = RakeAcquisitionConfig::default_4x();
        assert(32768 * oversample <= 32768 * 32768) by (nonlinear_arith)
            requires oversample <= 32768 {}
        RakeAccessSearcher {
            cfg: RakeAcquisitionConfig { oversample, ..d },
            phase_period: 32768 * oversample,
            composite_filter_delay: (FILTER_TAPS - 1) * 2,
            candidates: Vec::new(),
            fingers: Vec::new(),
            samples_consumed: 0,
            block_counter: 0,
            next_candidate_id: 1,
            absolute_origin_sample: None,
        }
    }

    pub fn with_composite_filter_delay(self, delay: usize) -> (s: Self)
        ensures
            s.composite_filter_delay == delay,
            s.cfg == self.cfg && s.phase_period == self.phase_period,
            s.candidates@ == self.candidates@ && s.fingers@ == self.fingers@,
    {
        let mut s = self;
        s.composite_filter_delay = delay;
        s
    }

    /// Replace the configuration; its oversampling must be the searcher's.
    pub fn with_config(self, cfg: RakeAcquisitionConfig) -> (s: Self)
        requires
            cfg.oversample == self.cfg.oversample,
        ensures
            s.cfg == cfg,
            s.composite_filter_delay == self.composite_filter_delay && s.phase_period == self.phase_period,
            s.candidates@ == self.candidates@ && s.fingers@ == self.fingers@,
    {
        let mut s = self;
        s.cfg = cfg;
        s
    }

    /// PN phase at the start of the window at `window_offset`, compensated
    /// for the filter delay.
    pub fn base_phase(&self, window_offset: usize) -> (p: usize)
        requires
            self.wf(),
            self.origin() + window_offset <= usize::MAX,
        ensures
            p == ((self.origin() + window_offset) % (self.phase_period as int) + self.phase_period
                - (self.composite_filter_delay as int) % (self.phase_period as int)) % (self.phase_period as int),
    {
        let abs = match self.absolute_origin_sample { Some(a) => a, None => 0 };
        let pp = self.phase_period;
        assert(pp <= 32768 * 32768) by (nonlinear_arith)
            requires pp == 32768 * self.cfg.oversample, self.cfg.oversample <= 32768 {}
        let raw = (abs + window_offset) % pp;
        (raw + pp - (self.composite_filter_delay % pp)) % pp
    }

    /// TX chip at a sample position, net of the filter delay.
    pub fn abs_chip_at(&self, sample_offset: usize) -> (c: usize)
        requires
            self.wf(),
            self.origin() + sample_offset <= usize::MAX,
        ensures
            c == (if self.origin() + sample_offset >= self.composite_filter_delay {
                self.origin() + sample_offset - self.composite_filter_delay
            } else {
                0
            }) / (self.cfg.oversample as int),
    {
        let abs = match self.absolute_origin_sample { Some(a) => a, None => 0 };
        (abs + sample_offset).saturating_sub(self.composite_filter_delay) / self.cfg.oversample
    }

    /// Chip at a sample position, without filter delay.
    pub fn tx_chip_at_sample(&self, sample_offset: usize) -> (c: usize)
        requires
            self.wf(),
            self.origin() + sample_offset <= usize::MAX,
        ensures
            c == (self.origin() + sample_offset) / (self.cfg.oversample as int),
    {
        let abs = match self.absolute_origin_sample { Some(a) => a, None => 0 };
        (abs + sample_offset) / self.cfg.oversample
    }

    /// Number of live candidates.
    pub fn active_candidate_count(&self) -> (n: usize)
        ensures
            n == live_count(self.candidates@),
    {
        let mut n: usize = 0;
        let mut i: usize = 0;
        while i < self.candidates.len()
            invariant
                i <= self.candidates@.len(),
                n == live_count(self.candidates@.subrange(0, i as int)),
                n <= i,
            decreases self.candidates@.len() - i,
        {
            assert(self.candidates@.subrange(0, i as int + 1).drop_last() =~= self.candidates@.subrange(0, i as int));
            let c = self.candidates[i];
            if c.state != CandidateState::Rejected && c.state != CandidateState::PreambleDetected {
                n += 1;
            }
            i += 1;
        }
        assert(self.candidates@.subrange(0, self.candidates@.len() as int) =~= self.candidates@);
        n
    }

    /// Take in one peak delay of the accumulated PN map: the first live
    /// candidate within one chip of it follows it (and counts it seen);
    /// otherwise, with room for another live candidate, a new one starts.
    pub fn take_peak(&mut self, delay: i32)
        requires
            -0x2000_0000 <= delay <= 0x2000_0000,
            forall|i: int| 0 <= i < old(self).candidates@.len() ==> {
                let c = #[trigger] old(self).candidates@[i];
                &&& -0x2000_0000 <= c.coarse_delay_samples <= 0x2000_0000
                &&& -0x2000_0000 <= c.fine_delay_samples <= 0x2000_0000
                &&& c.persistence < u32::MAX
            },
            old(self).next_candidate_id < u64::MAX,
            old(self).cfg.oversample <= 32768,
        ensures
            final(self).cfg == old(self).cfg,
            final(self).fingers@ == old(self).fingers@,
            ({
                let radius = old(self).cfg.oversample as int;
                let s = old(self).candidates@;
                let matches = |c: AccessCandidate| is_live(c)
                    && abs_i(delay - (c.coarse_delay_samples + c.fine_delay_samples)) <= radius;
                if exists|i: int| 0 <= i < s.len() && matches(#[trigger] s[i]) {
                    exists|i: int| 0 <= i < s.len() && matches(#[trigger] s[i])
                        && (forall|j: int| 0 <= j < i ==> !matches(#[trigger] s[j]))
                        && final(self).candidates@ == s.update(i, AccessCandidate {
                            coarse_delay_samples: delay,
                            persistence: (s[i].persistence + 1) as u32,
                            last_seen_block: old(self).block_counter,
                            ..s[i]
                        })
                        && final(self).next_candidate_id == old(self).next_candidate_id
                } else if live_count(s) < old(self).cfg.max_active_candidates {
                    &&& final(self).candidates@ == s.push(AccessCandidate {
                        id: old(self).next_candidate_id,
                        state: CandidateState::Stage1,
                        coarse_delay_samples: delay,
                        fine_delay_samples: 0,
                        persistence: 1,
                        last_seen_block: old(self).block_counter,
                        best_lc_phase_chips: 0,
                        preamble_hits: 0,
                        stage2_attempts: 0,
                        first_preamble_tx_chip: None,
                    })
                    &&& final(self).next_candidate_id == old(self).next_candidate_id + 1
                } else {
                    &&& final(self).candidates@ == s
                    &&& final(self).next_candidate_id == old(self).next_candidate_id
                }
            }),
            final(self).block_counter == old(self).block_counter,
            final(self).phase_period == old(self).phase_period,
            final(self).composite_filter_delay == old(self).composite_filter_delay,
            final(self).absolute_origin_sample == old(self).absolute_origin_sample,
            final(self).samples_consumed == old(self).samples_consumed,
    {
        let radius = self.cfg.oversample as i32;
        let ghost s = self.candidates@;
        let ghost matches = |c: AccessCandidate| is_live(c)
            && abs_i(delay - (c.coarse_delay_samples + c.fine_delay_samples)) <= radius;
        let mut i: usize = 0;
        while i < self.candidates.len()
            invariant
                s == self.candidates@,
                s == old(self).candidates@,
                radius == old(self).cfg.oversample,
                matches == (|c: AccessCandidate| is_live(c)
                    && abs_i(delay - (c.coarse_delay_samples + c.fine_delay_samples)) <= radius),
                -0x2000_0000 <= delay <= 0x2000_0000,
                forall|j: int| 0 <= j < s.len() ==> {
                    let c = #[trigger] s[j];
                    &&& -0x2000_0000 <= c.coarse_delay_samples <= 0x2000_0000
                    &&& -0x2000_0000 <= c.fine_delay_samples <= 0x2000_0000
                    &&& c.persistence < u32::MAX
                },
                i <= s.len(),
                forall|j: int| 0 <= j < i ==> !matches(#[trigger] s[j]),
                self.next_candidate_id == old(self).next_candidate_id,
                self.next_candidate_id < u64::MAX,
                self.cfg == old(self).cfg,
                self.fingers@ == old(self).fingers@,
                self.block_counter == old(self).block_counter,
                self.phase_period == old(self).phase_period,
                self.composite_filter_delay == old(self).composite_filter_delay,
                self.absolute_origin_sample == old(self).absolute_origin_sample,
                self.samples_consumed == old(self).samples_consumed,
            decreases s.len() - i,
        {
            let c = self.candidates[i];
            let live = c.state != CandidateState::Rejected && c.state != CandidateState::PreambleDetected;
            let cur = c.coarse_delay_samples + c.fine_delay_samples;
            let diff = delay - cur;
            let a = if diff < 0 { -diff } else { diff };
            if live && a <= radius {
                let block = self.block_counter;
                self.candidates.set(i, AccessCandidate {
                    coarse_delay_samples: delay,
                    persistence: c.persistence + 1,
                    last_seen_block: block,
                    ..c
                });
                assert(matches(s[i as int]));
                return;
            }
            i += 1;
        }
        if self.active_candidate_count() < self.cfg.max_active_candidates {
            let id = self.next_candidate_id;
            let block = self.block_counter;
            self.candidates.push(AccessCandidate {
                id,
                state: CandidateState::Stage1,
                coarse_delay_samples: delay,
                fine_delay_samples: 0,
                persistence: 1,
                last_seen_block: block,
                best_lc_phase_chips: 0,
                preamble_hits: 0,
                stage2_attempts: 0,
                first_preamble_tx_chip: None,
            });
            self.next_candidate_id = id + 1;
        }
    }

    /// The state a candidate moves to when candidates are pruned: a
    /// persistent stage-1 candidate moves on to the long-code search; one
    /// that used its 16 searches without enough hits is rejected.
    pub open spec fn pruned_state(&self, c: AccessCandidate) -> CandidateState {
        if !is_live(c) {
            c.state
        } else {
            let s1 = if c.state == CandidateState::Stage1 && c.persistence >= self.cfg.pn_persistence_required {
                CandidateState::Stage2SearchingLc
            } else {
                c.state
            };
            if (s1 == CandidateState::Stage2SearchingLc || s1 == CandidateState::VerifyingPreamble)
                && c.stage2_attempts >= STAGE2_MAX_ATTEMPTS && c.preamble_hits < self.cfg.preamble_hits_required {
                CandidateState::Rejected
            } else {
                s1
            }
        }
    }

    /// Candidates after pruning: states advanced, rejected ones dropped.
    pub open spec fn spec_pruned(&self, s: Seq<AccessCandidate>) -> Seq<AccessCandidate>
        decreases s.len(),
    {
        if s.len() == 0 {
            s
        } else {
            let rest = self.spec_pruned(s.drop_last());
            let c = AccessCandidate { state: self.pruned_state(s.last()), ..s.last() };
            if c.state == CandidateState::Rejected { rest } else { rest.push(c) }
        }
    }

    pub fn prune_candidates(&mut self)
        ensures
            final(self).candidates@ == old(self).spec_pruned(old(self).candidates@),
            final(self).cfg == old(self).cfg,
            final(self).fingers@ == old(self).fingers@,
            final(self).next_candidate_id == old(self).next_candidate_id,
            final(self).block_counter == old(self).block_counter,
            final(self).phase_period == old(self).phase_period,
            final(self).composite_filter_delay == old(self).composite_filter_delay,
            final(self).absolute_origin_sample == old(self).absolute_origin_sample,
            final(self).samples_consumed == old(self).samples_consumed,
    {
        let ghost s = self.candidates@;
        let mut kept: Vec<AccessCandidate> = Vec::new();
        let mut i: usize = 0;
        while i < self.candidates.len()
            invariant
                s == self.candidates@,
                i <= s.len(),
                kept@ == self.spec_pruned(s.subrange(0, i as int)),
            decreases s.len() - i,
        {
            assert(s.subrange(0, i as int + 1).drop_last() =~= s.subrange(0, i as int));
            let c = self.candidates[i];
            let mut state = c.state;
            let live = state != CandidateState::Rejected && state != CandidateState::PreambleDetected;
            if live {
                if state == CandidateState::Stage1 && c.persistence >= self.cfg.pn_persistence_required {
                    state = CandidateState::Stage2SearchingLc;
                }
                if (state == CandidateState::Stage2SearchingLc || state == CandidateState::VerifyingPreamble)
                    && c.stage2_attempts >= STAGE2_MAX_ATTEMPTS
                    && c.preamble_hits < self.cfg.preamble_hits_required
                {
                    state = CandidateState::Rejected;
                }
            }
            if state != CandidateState::Rejected {
                kept.push(AccessCandidate { state, ..c });
            }
            i += 1;
        }
        assert(s.subrange(0, s.len() as int) =~= s);
        self.candidates = kept;
    }

    /// One long-code search of candidate `k`: `fine` is its refined delay
    /// offset, `lc_phase` the long-code phase found, `ok` whether the search
    /// passed its coherence, ratio and score checks, and `expected_chip` the
    /// TX chip expected at its verification point. A pass counts a preamble
    /// hit; enough hits detect the preamble.
    pub fn record_stage2(
        &mut self,
        k: usize,
        fine: i32,
        lc_phase: i32,
        ok: bool,
        expected_chip: usize,
        verify_delay: i32,
    ) -> (ev: Option<DetectionEvent>)
        requires
            k < old(self).candidates@.len(),
            old(self).candidates@[k as int].stage2_attempts < u32::MAX,
            old(self).candidates@[k as int].preamble_hits < u32::MAX,
            expected_chip <= 0x2000_0000_0000_0000,
            -0x2000_0000 <= lc_phase <= 0x2000_0000,
            -0x2000_0000 <= fine <= 0x2000_0000,
            -0x2000_0000 <= old(self).candidates@[k as int].coarse_delay_samples <= 0x2000_0000,
        ensures
            final(self).cfg == old(self).cfg,
            final(self).fingers@ == old(self).fingers@,
            final(self).next_candidate_id == old(self).next_candidate_id,
            final(self).block_counter == old(self).block_counter,
            final(self).samples_consumed == old(self).samples_consumed,
            final(self).absolute_origin_sample == old(self).absolute_origin_sample,
            final(self).phase_period == old(self).phase_period,
            final(self).composite_filter_delay == old(self).composite_filter_delay,
            final(self).candidates@.len() == old(self).candidates@.len(),
            forall|i: int| 0 <= i < final(self).candidates@.len() && i != k ==>
                #[trigger] final(self).candidates@[i] == old(self).candidates@[i],
            ({
                let c = old(self).candidates@[k as int];
                let tx = max0(expected_chip + lc_phase) as usize;
                let hits = if ok { c.preamble_hits + 1 } else { c.preamble_hits as int };
                let first = if ok && c.first_preamble_tx_chip.is_none() { Some(tx) } else { c.first_preamble_tx_chip };
                let detected = hits >= old(self).cfg.preamble_hits_required;
                let n = final(self).candidates@[k as int];
                &&& n.stage2_attempts == c.stage2_attempts + 1
                &&& n.fine_delay_samples == fine
                &&& n.best_lc_phase_chips == lc_phase
                &&& n.preamble_hits == hits
                &&& n.first_preamble_tx_chip == first
                &&& n.state == if detected {
                    CandidateState::PreambleDetected
                } else if ok {
                    CandidateState::VerifyingPreamble
                } else {
                    c.state
                }
                &&& n.id == c.id && n.coarse_delay_samples == c.coarse_delay_samples
                &&& n.persistence == c.persistence && n.last_seen_block == c.last_seen_block
                &&& ev == if detected {
                    Some(DetectionEvent {
                        candidate_id: c.id,
                        delay_samples: (c.coarse_delay_samples + fine) as i32,
                        finger_delay_samples: verify_delay,
                        lc_phase_chips: lc_phase,
                        tx_chip_at_despread_origin: tx,
                        first_preamble_tx_chip: match first { Some(f) => f, None => tx },
                    })
                } else {
                    None
                }
            }),
    {
        let mut c = self.candidates[k];
        c.stage2_attempts = c.stage2_attempts + 1;
        c.fine_delay_samples = fine;
        c.best_lc_phase_chips = lc_phase;
        let t = expected_chip as i64 + lc_phase as i64;
        let tx: usize = if t < 0 { 0 } else { t as usize };
        if ok {
            c.preamble_hits = c.preamble_hits + 1;
            c.state = CandidateState::VerifyingPreamble;
            if c.first_preamble_tx_chip.is_none() {
                c.first_preamble_tx_chip = Some(tx);
            }
        }
        let mut ev = None;
        if c.preamble_hits >= self.cfg.preamble_hits_required {
            c.state = CandidateState::PreambleDetected;
            ev = Some(DetectionEvent {
                candidate_id: c.id,
                delay_samples: c.coarse_delay_samples + fine,
                finger_delay_samples: verify_delay,
                lc_phase_chips: lc_phase,
                tx_chip_at_despread_origin: tx,
                first_preamble_tx_chip: match c.first_preamble_tx_chip { Some(f) => f, None => tx },
            });
        }
        self.candidates.set(k, c);
        ev
    }

    /// PN phase of the window at `window_offset` for despreading.
    pub fn despread_phase_at(&self, window_offset: usize) -> (p: usize)
        requires
            self.wf(),
            self.origin() + window_offset <= i64::MAX,
            self.origin() + window_offset <= usize::MAX,
            self.composite_filter_delay <= i64::MAX,
        ensures
            p == (self.origin() + window_offset - self.composite_filter_delay) % (self.phase_period as int),
    {
        let abs = match self.absolute_origin_sample { Some(a) => a, None => 0 };
        let pp = self.phase_period as i64;
        assert(pp <= 32768 * 32768) by (nonlinear_arith)
            requires pp == 32768 * self.cfg.oversample, self.cfg.oversample <= 32768 {}
        let raw: i64 = (abs + window_offset) as i64 - self.composite_filter_delay as i64;
        let r = raw % pp;
        proof { crate::lemma_trunc_rem_congruent(raw as int, pp as int); }
        ((r + pp) % pp) as usize
    }

    /// Whether a finger already despreads within one chip of `phase`.
    pub fn finger_near(&self, phase: usize) -> (b: bool)
        requires
            self.wf(),
            phase <= i64::MAX,
            forall|i: int| 0 <= i < self.fingers@.len() ==> #[trigger] self.fingers@[i].despread_phase <= i64::MAX,
        ensures
            b == exists|i: int| 0 <= i < self.fingers@.len()
                && abs_i(#[trigger] self.fingers@[i].despread_phase - phase) < self.cfg.oversample,
    {
        let mut i: usize = 0;
        while i < self.fingers.len()
            invariant
                self.wf(),
                phase <= i64::MAX,
                forall|j: int| 0 <= j < self.fingers@.len() ==> #[trigger] self.fingers@[j].despread_phase <= i64::MAX,
                i <= self.fingers@.len(),
                forall|j: int| 0 <= j < i ==> abs_i(#[trigger] self.fingers@[j].despread_phase - phase) >= self.cfg.oversample,
            decreases self.fingers@.len() - i,
        {
            let fp = self.fingers[i].despread_phase;
            let diff: i64 = fp as i64 - phase as i64;
            let a: i64 = if diff < 0 { -diff } else { diff };
            if (a as usize) < self.cfg.oversample {
                return true;
            }
            i += 1;
        }
        false
    }

    /// Start a finger for a detected preamble, seen in the window at
    /// `window_offset`, with the refined sample delay `delay` and long-code
    /// phase `lc_phase`; the finger replays from the window at
    /// `replay_window_offset`. Nothing starts when the fingers are full or
    /// one already despreads within a chip of the new PN phase. The chip
    /// numbers move by the whole chips between the delay and the chip-center
    /// sample phase.
    pub fn spawn_finger(
        &mut self,
        det: DetectionEvent,
        window_offset: usize,
        replay_window_offset: usize,
        delay: i32,
        lc_phase: i32,
    ) -> (sp: Option<AccessSpawn>)
        requires
            old(self).wf(),
            old(self).origin() + window_offset <= i64::MAX,
            old(self).origin() + window_offset <= usize::MAX,
            old(self).origin() + replay_window_offset + old(self).cfg.oversample <= i64::MAX,
            old(self).origin() + replay_window_offset + old(self).cfg.oversample <= usize::MAX,
            old(self).composite_filter_delay <= i64::MAX,
            -0x2000_0000 <= delay <= 0x2000_0000,
            det.tx_chip_at_despread_origin <= 0x2000_0000_0000_0000,
            det.first_preamble_tx_chip <= 0x2000_0000_0000_0000,
            forall|i: int| 0 <= i < old(self).fingers@.len() ==> #[trigger] old(self).fingers@[i].despread_phase <= i64::MAX,
        ensures
            ({
                let os = old(self).cfg.oversample as int;
                let pp = old(self).phase_period as int;
                let org = old(self).origin();
                let cfd = old(self).composite_filter_delay as int;
                let dp = (org + window_offset - cfd) % pp;
                let center = (delay as int) % os;
                let adj = floor_div(dp + center, os) - floor_div(dp + delay, os);
                let blocked = old(self).fingers@.len() >= old(self).cfg.max_active_candidates
                    || exists|i: int| 0 <= i < old(self).fingers@.len()
                        && abs_i(#[trigger] old(self).fingers@[i].despread_phase - dp) < os;
                if blocked {
                    &&& sp.is_none()
                    &&& final(self).fingers@ == old(self).fingers@
                } else {
                    let spawn = AccessSpawn {
                        despread_phase: dp as usize,
                        replay_despread_phase: ((org + replay_window_offset - cfd) % pp) as usize,
                        center_offset: center as usize,
                        first_tx_chip: max0(det.tx_chip_at_despread_origin + adj) as usize,
                        first_preamble_chip: max0(det.first_preamble_tx_chip + adj) as usize,
                        chain_start_chip: ((org + replay_window_offset + center) / os) as usize,
                    };
                    &&& sp == Some(spawn)
                    &&& final(self).fingers@ == old(self).fingers@.push(AccessFinger {
                        id: det.candidate_id,
                        sample_delay: delay,
                        lc_phase_chips: lc_phase,
                        despread_phase: spawn.replay_despread_phase,
                        blocks_fed: 0,
                        hard_validated: false,
                    })
                }
            }),
            final(self).wf(),
            final(self).cfg == old(self).cfg,
            final(self).phase_period == old(self).phase_period,
            final(self).composite_filter_delay == old(self).composite_filter_delay,
            final(self).absolute_origin_sample == old(self).absolute_origin_sample,
            final(self).candidates@ == old(self).candidates@,
            final(self).samples_consumed == old(self).samples_consumed,
            final(self).block_counter == old(self).block_counter,
            final(self).next_candidate_id == old(self).next_candidate_id,
    {
        if self.fingers.len() >= self.cfg.max_active_candidates {
            return None;
        }
        let os = self.cfg.oversample;
        let despread_phase = self.despread_phase_at(window_offset);
        if self.finger_near(despread_phase) {
            return None;
        }
        let center = crate::modulo(delay, os as i32);
        proof { crate::lemma_trunc_rem_congruent(delay as int, os as int); }
        let center_offset = center as usize;
        let replay_despread_phase = self.despread_phase_at(replay_window_offset);
        // Floor division by the oversampling, shifted clear of negatives.
        let k: i64 = 0x2000_0000;
        let os64 = os as i64;
        assert(k * os64 <= 0x2000_0000 * 32768) by (nonlinear_arith)
            requires k == 0x2000_0000, os64 <= 32768 {}
        let a = despread_phase as i64 + delay as i64;
        let b = despread_phase as i64 + center as i64;
        let delay_pn_chip = (a + k * os64) / os64 - k;
        let center_pn_chip = (b + k * os64) / os64 - k;
        proof {
            vstd::arithmetic::div_mod::lemma_hoist_over_denominator(a as int, k as int, os as nat);
            vstd::arithmetic::div_mod::lemma_hoist_over_denominator(b as int, k as int, os as nat);
            assert(k * os64 == k as int * os as int);
            vstd::arithmetic::mul::lemma_mul_is_commutative(k as int, os as int);
            assert(0 <= (a + k * os64) / (os64 as int) <= a + k * os64) by (nonlinear_arith)
                requires a + k * os64 >= 0, os64 >= 1 {}
            assert(0 <= (b + k * os64) / (os64 as int) <= b + k * os64) by (nonlinear_arith)
                requires b + k * os64 >= 0, os64 >= 1 {}
        }
        let adj = center_pn_chip - delay_pn_chip;
        let replay_start_chip = self.tx_chip_at_sample(replay_window_offset + center_offset);
        let t1 = det.tx_chip_at_despread_origin as i64 + adj;
        let t2 = det.first_preamble_tx_chip as i64 + adj;
        let spawn = AccessSpawn {
            despread_phase,
            replay_despread_phase,
            center_offset,
            first_tx_chip: if t1 < 0 { 0 } else { t1 as usize },
            first_preamble_chip: if t2 < 0 { 0 } else { t2 as usize },
            chain_start_chip: replay_start_chip,
        };
        self.fingers.push(AccessFinger {
            id: det.candidate_id,
            sample_delay: delay,
            lc_phase_chips: lc_phase,
            despread_phase: replay_despread_phase,
            blocks_fed: 0,
            hard_validated: false,
        });
        Some(spawn)
    }

    /// The first block's `absolute_sample_start` tag (negative read as zero)
    /// anchors the searcher's sample origin; later blocks leave it.
    pub fn note_block_origin(&mut self, abs_tag: Option<i64>)
        ensures
            final(self).absolute_origin_sample == match old(self).absolute_origin_sample {
                Some(a) => Some(a),
                None => match abs_tag {
                    Some(v) => Some((if v < 0 { 0 } else { v as int }) as usize),
                    None => None,
                },
            },
            final(self).cfg == old(self).cfg && final(self).phase_period == old(self).phase_period,
            final(self).composite_filter_delay == old(self).composite_filter_delay,
            final(self).candidates@ == old(self).candidates@ && final(self).fingers@ == old(self).fingers@,
            final(self).samples_consumed == old(self).samples_consumed,
            final(self).block_counter == old(self).block_counter,
            final(self).next_candidate_id == old(self).next_candidate_id,
    {
        if self.absolute_origin_sample.is_none() {
            self.absolute_origin_sample = match abs_tag {
                Some(v) => Some(if v < 0 { 0 } else { v as usize }),
                None => None,
            };
        }
    }

    /// With `buffered` samples waiting, take the next coherent window when a
    /// whole one is there: its offset in the stream, after which the stream
    /// has consumed it.
    pub fn take_window(&mut self, buffered: usize) -> (w: Option<usize>)
        requires
            old(self).cfg.pn_coherent_chips * old(self).cfg.oversample <= usize::MAX,
            old(self).samples_consumed + old(self).cfg.pn_coherent_chips * old(self).cfg.oversample <= usize::MAX,
        ensures
            ({
                let n = old(self).cfg.pn_coherent_chips * old(self).cfg.oversample;
                if buffered >= n {
                    &&& w == Some(old(self).samples_consumed)
                    &&& final(self).samples_consumed == old(self).samples_consumed + n
                } else {
                    &&& w.is_none()
                    &&& final(self).samples_consumed == old(self).samples_consumed
                }
            }),
            final(self).cfg == old(self).cfg && final(self).phase_period == old(self).phase_period,
            final(self).composite_filter_delay == old(self).composite_filter_delay,
            final(self).absolute_origin_sample == old(self).absolute_origin_sample,
            final(self).candidates@ == old(self).candidates@ && final(self).fingers@ == old(self).fingers@,
            final(self).block_counter == old(self).block_counter,
            final(self).next_candidate_id == old(self).next_candidate_id,
    {
        let n = self.cfg.pn_coherent_chips * self.cfg.oversample;
        if buffered < n {
            return None;
        }
        let offset = self.samples_consumed;
        self.samples_consumed = offset + n;
        Some(offset)
    }

    /// A window is done.
    pub fn finish_window(&mut self)
        requires
            old(self).block_counter < u64::MAX,
        ensures
            final(self).block_counter == old(self).block_counter + 1,
            final(self).cfg == old(self).cfg && final(self).phase_period == old(self).phase_period,
            final(self).composite_filter_delay == old(self).composite_filter_delay,
            final(self).absolute_origin_sample == old(self).absolute_origin_sample,
            final(self).candidates@ == old(self).candidates@ && final(self).fingers@ == old(self).fingers@,
            final(self).samples_consumed == old(self).samples_consumed,
            final(self).next_candidate_id == old(self).next_candidate_id,
    {
        self.block_counter = self.block_counter + 1;
    }

    /// Finger `k` was fed a window and its chain produced blocks tagged
    /// `tags`: it counts the window, becomes hard-validated once any block
    /// carries a valid access CRC, and only access events with a valid CRC
    /// pass on (the result says which blocks do).
    pub fn finger_window_done(&mut self, k: usize, tags: &[AccessChainTags]) -> (keep: Vec<bool>)
        requires
            k < old(self).fingers@.len(),
            old(self).fingers@[k as int].blocks_fed < u64::MAX,
        ensures
            keep@.len() == tags@.len(),
            forall|i: int| 0 <= i < tags@.len() ==> #[trigger] keep@[i] == passes_on(tags@[i]),
            final(self).fingers@ == old(self).fingers@.update(k as int, AccessFinger {
                blocks_fed: (old(self).fingers@[k as int].blocks_fed + 1) as u64,
                hard_validated: old(self).fingers@[k as int].hard_validated
                    || exists|i: int| 0 <= i < tags@.len() && #[trigger] tags@[i].access_crc_valid == Some(1i64),
                ..old(self).fingers@[k as int]
            }),
            final(self).cfg == old(self).cfg && final(self).phase_period == old(self).phase_period,
            final(self).composite_filter_delay == old(self).composite_filter_delay,
            final(self).absolute_origin_sample == old(self).absolute_origin_sample,
            final(self).candidates@ == old(self).candidates@,
            final(self).samples_consumed == old(self).samples_consumed,
            final(self).block_counter == old(self).block_counter,
            final(self).next_candidate_id == old(self).next_candidate_id,
    {
        let mut keep: Vec<bool> = Vec::new();
        let mut any_valid = false;
        let mut i: usize = 0;
        while i < tags.len()
            invariant
                i <= tags@.len(),
                keep@.len() == i,
                forall|j: int| 0 <= j < i ==> #[trigger] keep@[j] == passes_on(tags@[j]),
                any_valid == exists|j: int| 0 <= j < i && #[trigger] tags@[j].access_crc_valid == Some(1i64),
            decreases tags@.len() - i,
        {
            let t = tags[i];
            let valid = match t.access_crc_valid { Some(v) => v == 1, None => false };
            let event = match t.access_event { Some(v) => v == 1, None => false };
            if valid {
                any_valid = true;
            }
            keep.push(!event || valid);
            i += 1;
        }
        let f = self.fingers[k];
        self.fingers.set(k, AccessFinger {
            blocks_fed: f.blocks_fed + 1,
            hard_validated: f.hard_validated || any_valid,
            ..f
        });
        keep
    }

    /// Drop fingers that ran more than 128 windows without hard validation.
    pub fn retain_fingers(&mut self)
        ensures
            final(self).fingers@ == old(self).fingers@.filter(|f: AccessFinger| f.hard_validated || f.blocks_fed <= MAX_UNVALIDATED_FINGER_BLOCKS),
            final(self).candidates@ == old(self).candidates@,
            final(self).cfg == old(self).cfg,
            final(self).next_candidate_id == old(self).next_candidate_id,
            final(self).block_counter == old(self).block_counter,
            final(self).samples_consumed == old(self).samples_consumed,
            final(self).absolute_origin_sample == old(self).absolute_origin_sample,
            final(self).phase_period == old(self).phase_period,
            final(self).composite_filter_delay == old(self).composite_filter_delay,
    {
        let ghost s = self.fingers@;
        let ghost pred = |f: AccessFinger| f.hard_validated || f.blocks_fed <= MAX_UNVALIDATED_FINGER_BLOCKS;
        let mut kept: Vec<AccessFinger> = Vec::new();
        let mut i: usize = 0;
        while i < self.fingers.len()
            invariant
                s == self.fingers@,
                pred == (|f: AccessFinger| f.hard_validated || f.blocks_fed <= MAX_UNVALIDATED_FINGER_BLOCKS),
                i <= s.len(),
                kept@ == s.subrange(0, i as int).filter(pred),
            decreases s.len() - i,
        {
            let f = self.fingers[i];
            proof {
                assert(s.subrange(0, i as int + 1) =~= s.subrange(0, i as int).push(f));
                s.subrange(0, i as int).lemma_filter_push(f, pred);
            }
            if f.hard_validated || f.blocks_fed <= MAX_UNVALIDATED_FINGER_BLOCKS {
                kept.push(f);
            }
            i += 1;
        }
        assert(s.subrange(0, s.len() as int) =~= s);
        self.fingers = kept;
    }

    /// Whether this window runs the joint search (no finger yet, every
    /// `joint_search_interval_blocks` windows after the first) and the
    /// long-code stage.
    pub fn schedule(&self) -> (r: (bool, bool))
        requires
            self.cfg.joint_search_interval_blocks > 0,
            self.cfg.stage2_interval_blocks > 0,
        ensures
            r.0 == (self.fingers@.len() == 0 && self.block_counter % self.cfg.joint_search_interval_blocks == 0
                && self.block_counter > 0),
            r.1 == (self.block_counter % self.cfg.stage2_interval_blocks == 0),
    {
        (
            self.fingers.len() == 0 && self.block_counter % self.cfg.joint_search_interval_blocks == 0
                && self.block_counter > 0,
            self.block_counter % self.cfg.stage2_interval_blocks == 0,
        )
    }
}

/// TX chip from which a finger's long code starts in the window at
/// `window_offset`.
pub fn lc_start_chip_for_window(
    origin: usize,
    composite_filter_delay: usize,
    oversample: usize,
    window_offset: usize,
    sample_delay: i32,
    lc_phase_chips: i32,
) -> (c: usize)
    requires
        oversample >= 1,
        origin + window_offset + 0x4000_0000 <= usize::MAX,
        origin + window_offset + 0x4000_0000 <= i64::MAX,
        -0x2000_0000 <= lc_phase_chips <= 0x2000_0000,
        sample_delay <= 0x2000_0000,
    ensures
        c == max0((if origin + window_offset + max0(sample_delay as int) >= composite_filter_delay {
            origin + window_offset + max0(sample_delay as int) - composite_filter_delay
        } else {
            0
        }) / (oversample as int) + lc_phase_chips),
{
    let d: usize = if sample_delay < 0 { 0 } else { sample_delay as usize };
    let expected = (origin + window_offset + d).saturating_sub(composite_filter_delay) / oversample;
    let t: i64 = expected as i64 + lc_phase_chips as i64;
    if t < 0 { 0 } else { t as usize }
}

} // verus!
