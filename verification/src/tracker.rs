//! Lock logic of the matched-filter PN tracker: search, coarse tracking with
//! speculative output, fine tracking, and the phase arithmetic between
//! correlation indices and PN phases.
//!
//! The correlations themselves are computed by the caller, which hands each
//! block's measurement in as the local peak's phase and whether its power
//! cleared the state's threshold.
use vstd::prelude::*;

verus! {

/// Largest distance between expected and measured phase that counts as on-phase.
pub const PHASE_THRESHOLD: usize = 8;
/// Net hits that promote coarse to fine tracking, and net misses that drop it.
pub const COARSE_CONFIRM_THRESHOLD: usize = 5;
/// Net misses that drop fine tracking.
pub const FINE_MISS_THRESHOLD: usize = 5;
/// One-sided width of the coarse tracking search around the expected phase.
pub const COARSE_SEARCH_HALF_WINDOW: usize = 16;
/// One-sided width of the fine tracking search around the expected phase.
pub const TRACK_SEARCH_HALF_WINDOW: usize = 8;
/// Chips per emitted block.
pub const BLOCK_CHIPS: usize = 64;

#[derive(Debug, Clone, Copy, PartialEq, Eq, Structural)]
pub enum State {
    Searching,
    CoarseTracking,
    FineTracking,
}

/// Distance between two phases on a circle of `period`.
pub open spec fn spec_phase_distance(a: int, b: int, period: int) -> int {
    let d = (a - b) % period;
    if d <= period - d { d } else { period - d }
}

/// Circular distance between phases `a` and `b` modulo `period`.
pub fn phase_distance(a: usize, b: usize, period: usize) -> (d: usize)
    requires
        0 < period <= isize::MAX,
        a <= isize::MAX,
        b <= isize::MAX,
    ensures
        d == spec_phase_distance(a as int, b as int, period as int),
{
    let diff: isize = a as isize - b as isize;
    let p: isize = period as isize;
    let r: isize = diff % p;
    let d: usize = if r < 0 { (r + p) as usize } else { r as usize };
    proof {
        crate::lemma_trunc_rem_congruent(diff as int, p as int);
        assert(r as int == crate::trunc_rem(diff as int, p as int));
        if r < 0 {
            vstd::arithmetic::div_mod::lemma_small_mod((r + p) as nat, p as nat);
        } else {
            vstd::arithmetic::div_mod::lemma_mod_add_multiples_vanish(r as int, p as int);
            vstd::arithmetic::div_mod::lemma_small_mod(r as nat, p as nat);
        }
        assert(d as int == (a as int - b as int) % (period as int));
    }
    if d <= period - d { d } else { period - d }
}

/// The PN phase at the start of a block whose correlation peaks at `idx`
/// (an overlap-save index past `overlap`).
pub open spec fn spec_phase_from_index(idx: int, overlap: int, period: int) -> int {
    (period - (idx - overlap) % period) % period
}

pub fn phase_from_index(idx: usize, overlap: usize, period: usize) -> (p: usize)
    requires
        idx >= overlap,
        period > 0,
    ensures
        p == spec_phase_from_index(idx as int, overlap as int, period as int),
        p < period,
{
    (period - (idx - overlap) % period) % period
}

/// The correlation index of a peak at PN phase `phase`.
pub open spec fn spec_index_of_phase(phase: int, overlap: int, period: int) -> int {
    overlap + (period - phase) % period
}

/// Candidate `rel` of the local search: phase `expected + rel - half`
/// (modulo `period`).
pub open spec fn candidate_phase(expected: int, rel: int, half: int, period: int) -> int {
    (expected + rel - half) % period
}

/// Correlation indices to test around `expected`, for offsets `-half..=half`
/// in order; `None` where the index falls past `len`.
pub fn local_candidates(expected: usize, half: usize, period: usize, overlap: usize, len: usize)
    -> (c: Vec<Option<usize>>)
    requires
        expected < period,
        half < period,
        2 * period + 2 * half < usize::MAX,
        overlap + period <= usize::MAX,
    ensures
        c@.len() == 2 * half + 1,
        forall|rel: int| 0 <= rel < c@.len() ==> {
            let idx = spec_index_of_phase(candidate_phase(expected as int, rel, half as int, period as int),
                overlap as int, period as int);
            #[trigger] c@[rel] == if idx < len { Some(idx as usize) } else { None }
        },
{
    let mut c: Vec<Option<usize>> = Vec::new();
    let mut rel: usize = 0;
    while rel <= 2 * half
        invariant
            expected < period,
            half < period,
            2 * period + 2 * half < usize::MAX,
            overlap + period <= usize::MAX,
            rel <= 2 * half + 1,
            c@.len() == rel,
            forall|r: int| 0 <= r < rel ==> {
                let idx = spec_index_of_phase(candidate_phase(expected as int, r, half as int, period as int),
                    overlap as int, period as int);
                #[trigger] c@[r] == if idx < len { Some(idx as usize) } else { None }
            },
        decreases 2 * half + 1 - rel,
    {
        // (expected + rel - half) mod period, kept non-negative by adding a period.
        let cand_phase = (expected + period + rel - half) % period;
        assert(cand_phase == candidate_phase(expected as int, rel as int, half as int, period as int)) by {
            vstd::arithmetic::div_mod::lemma_mod_add_multiples_vanish(expected + rel - half, period as int);
        }
        let cand_rel = (period - cand_phase) % period;
        let idx = overlap + cand_rel;
        if idx < len {
            c.push(Some(idx));
        } else {
            c.push(None);
        }
        rel += 1;
    }
    c
}

/// What the caller does with the block just correlated.
#[derive(Debug, Clone, Copy, PartialEq, Eq, Structural)]
pub enum TrackAction {
    /// Drop the block's samples.
    Drop,
    /// Despread the block at this PN phase; its output is held back
    /// (speculative) while coarse tracking, passed on while fine tracking.
    Despread { phase: usize },
}

#[derive(Debug, Clone, Copy, PartialEq, Eq, Structural)]
pub struct TrackStep {
    pub action: TrackAction,
    /// Lock was lost: discard held-back and pending output.
    pub lost: bool,
    /// Coarse lock confirmed: release the held-back output.
    pub promoted: bool,
}

/// Lock state of the tracker.
pub struct MatchedFilterTracker {
    pub state: State,
    pub oversample: usize,
    pub lock_phase: usize,
    pub lock_hits: usize,
    pub lock_misses: usize,
    /// Samples consumed so far.
    pub sample: usize,
    pub lock_first_output_block: bool,
    /// Start (in samples) of the next emitted block.
    pub lock_chip_start: usize,
    pub pending_lock_lost_tag: bool,
}

pub open spec fn dec(n: int) -> int {
    if n > 0 { n - 1 } else { 0 }
}

impl MatchedFilterTracker {
    /// PN period in samples, which is also the correlation phase period.
    pub open spec fn period(&self) -> int {
        32768 * self.oversample
    }

    /// Samples consumed per correlated block.
    pub open spec fn block_samples(&self) -> int {
        self.period() + 1
    }

    pub open spec fn wf(&self) -> bool {
        &&& 1 <= self.oversample <= 32768
        &&& self.lock_phase < self.period()
        &&& self.state == State::CoarseTracking ==> self.lock_hits <= COARSE_CONFIRM_THRESHOLD
            && self.lock_misses <= COARSE_CONFIRM_THRESHOLD
        &&& self.state == State::FineTracking ==> self.lock_misses <= FINE_MISS_THRESHOLD
    }

    /// The PN phase expected one block after the locked phase.
    pub open spec fn expected_phase(&self) -> int {
        (self.lock_phase + self.block_samples()) % self.period()
    }

    pub fn new(oversample: usize) -> (t: Self)
        requires
            1 <= oversample <= 32768,
        ensures
            t.wf(),
            t.state == State::Searching,
            t.oversample == oversample,
            t.lock_phase == 0 && t.lock_hits == 0 && t.lock_misses == 0,
            t.sample == 0 && t.lock_chip_start == 0,
            !t.lock_first_output_block && !t.pending_lock_lost_tag,
    {
        MatchedFilterTracker {
            state: State::Searching,
            oversample,
            lock_phase: 0,
            lock_hits: 0,
            lock_misses: 0,
            sample: 0,
            lock_first_output_block: false,
            lock_chip_start: 0,
            pending_lock_lost_tag: false,
        }
    }

    fn period_exec(&self) -> (p: usize)
        requires
            self.wf(),
        ensures
            p == self.period(),
    {
        assert(32768 * self.oversample <= 32768 * 32768) by (nonlinear_arith)
            requires self.oversample <= 32768 {}
        32768 * self.oversample
    }

    /// The expected phase, computed.
    pub fn expected(&self) -> (p: usize)
        requires
            self.wf(),
        ensures
            p == self.expected_phase(),
            p < self.period(),
    {
        let period = self.period_exec();
        (self.lock_phase + period + 1) % period
    }

    /// One block while searching: `acquired` when the global peak cleared the
    /// acquisition threshold, at PN phase `global_phase`.
    pub fn search_step(&mut self, acquired: bool, global_phase: usize) -> (step: TrackStep)
        requires
            old(self).wf(),
            old(self).state == State::Searching,
            global_phase < old(self).period(),
            old(self).sample + old(self).block_samples() <= usize::MAX,
        ensures
            final(self).wf(),
            step.action matches TrackAction::Despread { phase } ==> phase < old(self).period(),
            final(self).sample == old(self).sample + old(self).block_samples(),
            final(self).oversample == old(self).oversample,
            final(self).pending_lock_lost_tag == old(self).pending_lock_lost_tag,
            final(self).lock_first_output_block == old(self).lock_first_output_block,
            !step.lost && !step.promoted,
            if acquired {
                &&& final(self).state == State::CoarseTracking
                &&& final(self).lock_phase == global_phase
                &&& final(self).lock_hits == 0 && final(self).lock_misses == 0
                &&& final(self).lock_chip_start == old(self).sample
                &&& step.action == (TrackAction::Despread { phase: global_phase })
            } else {
                &&& final(self).state == State::Searching
                &&& final(self).lock_phase == old(self).lock_phase
                &&& final(self).lock_hits == old(self).lock_hits
                &&& final(self).lock_misses == old(self).lock_misses
                &&& final(self).lock_chip_start == old(self).lock_chip_start
                &&& step.action == TrackAction::Drop
            },
    {
        let bs = self.period_exec() + 1;
        self.sample = self.sample + bs;
        if acquired {
            self.state = State::CoarseTracking;
            self.lock_phase = global_phase;
            self.lock_hits = 0;
            self.lock_misses = 0;
            self.lock_chip_start = self.sample - bs;
            TrackStep { action: TrackAction::Despread { phase: global_phase }, lost: false, promoted: false }
        } else {
            TrackStep { action: TrackAction::Drop, lost: false, promoted: false }
        }
    }

    /// One block while coarse tracking. `measured` is the phase of the local
    /// peak (if one was found) and `strong` whether its power cleared the
    /// coarse threshold.
    pub fn coarse_step(&mut self, measured: Option<usize>, strong: bool) -> (step: TrackStep)
        requires
            old(self).wf(),
            old(self).state == State::CoarseTracking,
            measured matches Some(m) ==> m < old(self).period(),
            old(self).sample + old(self).block_samples() <= usize::MAX,
        ensures
            final(self).wf(),
            step.action matches TrackAction::Despread { phase } ==> phase < old(self).period(),
            final(self).sample == old(self).sample + old(self).block_samples(),
            final(self).oversample == old(self).oversample,
            final(self).pending_lock_lost_tag == old(self).pending_lock_lost_tag,
            ({
                let expected = old(self).expected_phase();
                let on_phase = measured matches Some(m)
                    && spec_phase_distance(expected, m as int, old(self).period()) <= PHASE_THRESHOLD;
                let hit = on_phase && strong;
                let hits = if hit { old(self).lock_hits + 1 } else { dec(old(self).lock_hits as int) };
                let misses = if hit { dec(old(self).lock_misses as int) } else { old(self).lock_misses + 1 };
                if misses > COARSE_CONFIRM_THRESHOLD {
                    &&& final(self).state == State::Searching
                    &&& final(self).lock_chip_start == 0
                    &&& step == (TrackStep { action: TrackAction::Drop, lost: true, promoted: false })
                } else {
                    let phase = if on_phase { measured.unwrap() as int } else { expected };
                    &&& step.action == (TrackAction::Despread { phase: phase as usize })
                    &&& !step.lost
                    &&& final(self).lock_phase == (if hit { measured.unwrap() as int } else { expected })
                    &&& final(self).lock_chip_start == old(self).lock_chip_start
                    &&& if hits > COARSE_CONFIRM_THRESHOLD {
                        &&& step.promoted
                        &&& final(self).state == State::FineTracking
                        &&& final(self).lock_hits == 0 && final(self).lock_misses == 0
                        &&& !final(self).lock_first_output_block
                    } else {
                        &&& !step.promoted
                        &&& final(self).state == State::CoarseTracking
                        &&& final(self).lock_hits == hits && final(self).lock_misses == misses
                        &&& final(self).lock_first_output_block == old(self).lock_first_output_block
                    }
                }
            }),
    {
        let period = self.period_exec();
        let expected = self.expected();
        let on_phase = match measured {
            Some(m) => phase_distance(expected, m, period) <= PHASE_THRESHOLD,
            None => false,
        };
        let hit = on_phase && strong;
        if hit {
            self.lock_hits = self.lock_hits + 1;
            self.lock_phase = measured.unwrap();
            if self.lock_misses > 0 {
                self.lock_misses = self.lock_misses - 1;
            }
        } else {
            self.lock_misses = self.lock_misses + 1;
            if self.lock_hits > 0 {
                self.lock_hits = self.lock_hits - 1;
            }
            self.lock_phase = expected;
        }
        self.sample = self.sample + period + 1;
        if self.lock_misses > COARSE_CONFIRM_THRESHOLD {
            self.state = State::Searching;
            self.lock_chip_start = 0;
            return TrackStep { action: TrackAction::Drop, lost: true, promoted: false };
        }
        let phase = if on_phase { measured.unwrap() } else { expected };
        let mut promoted = false;
        if self.lock_hits > COARSE_CONFIRM_THRESHOLD {
            self.lock_hits = 0;
            self.lock_misses = 0;
            self.state = State::FineTracking;
            self.lock_first_output_block = false;
            promoted = true;
        }
        TrackStep { action: TrackAction::Despread { phase }, lost: false, promoted }
    }

    /// One block while fine tracking. `measured` is the phase of the local
    /// peak (if one was found) and `strong` whether its power cleared the
    /// tracking threshold. A weak peak on phase coasts without a miss.
    pub fn fine_step(&mut self, measured: Option<usize>, strong: bool) -> (step: TrackStep)
        requires
            old(self).wf(),
            old(self).state == State::FineTracking,
            measured matches Some(m) ==> m < old(self).period(),
            old(self).sample + old(self).block_samples() <= usize::MAX,
            old(self).lock_hits < usize::MAX,
        ensures
            final(self).wf(),
            step.action matches TrackAction::Despread { phase } ==> phase < old(self).period(),
            final(self).sample == old(self).sample + old(self).block_samples(),
            final(self).oversample == old(self).oversample,
            ({
                let expected = old(self).expected_phase();
                let on_phase = measured matches Some(m)
                    && spec_phase_distance(expected, m as int, old(self).period()) <= PHASE_THRESHOLD;
                let strong_on_phase = on_phase && strong;
                let hits = if on_phase { old(self).lock_hits + 1 } else { dec(old(self).lock_hits as int) };
                let misses = if on_phase { dec(old(self).lock_misses as int) } else { old(self).lock_misses + 1 };
                let phase = if strong_on_phase { measured.unwrap() as int } else { expected };
                &&& final(self).lock_phase == phase
                &&& if misses > FINE_MISS_THRESHOLD {
                    &&& final(self).state == State::Searching
                    &&& final(self).lock_chip_start == 0
                    &&& !final(self).lock_first_output_block
                    &&& final(self).pending_lock_lost_tag
                    &&& step == (TrackStep { action: TrackAction::Drop, lost: true, promoted: false })
                } else {
                    &&& final(self).state == State::FineTracking
                    &&& final(self).lock_hits == hits && final(self).lock_misses == misses
                    &&& final(self).pending_lock_lost_tag == old(self).pending_lock_lost_tag
                    &&& !step.lost && !step.promoted
                    &&& if old(self).lock_first_output_block && !strong_on_phase {
                        &&& step.action == TrackAction::Drop
                        &&& final(self).lock_first_output_block
                        &&& final(self).lock_chip_start == old(self).lock_chip_start
                    } else {
                        &&& step.action == (TrackAction::Despread { phase: phase as usize })
                        &&& !final(self).lock_first_output_block
                        &&& final(self).lock_chip_start == if old(self).lock_first_output_block {
                            old(self).sample as int
                        } else {
                            old(self).lock_chip_start as int
                        }
                    }
                }
            }),
    {
        let period = self.period_exec();
        let expected = self.expected();
        let on_phase = match measured {
            Some(m) => phase_distance(expected, m, period) <= PHASE_THRESHOLD,
            None => false,
        };
        let strong_on_phase = on_phase && strong;
        let phase = if strong_on_phase { measured.unwrap() } else { expected };
        if on_phase {
            self.lock_phase = phase;
            self.lock_hits = self.lock_hits + 1;
            if self.lock_misses > 0 {
                self.lock_misses = self.lock_misses - 1;
            }
        } else {
            self.lock_phase = expected;
            self.lock_misses = self.lock_misses + 1;
            if self.lock_hits > 0 {
                self.lock_hits = self.lock_hits - 1;
            }
        }
        let bs = period + 1;
        self.sample = self.sample + bs;
        if self.lock_misses > FINE_MISS_THRESHOLD {
            self.state = State::Searching;
            self.lock_first_output_block = false;
            self.lock_chip_start = 0;
            self.pending_lock_lost_tag = true;
            return TrackStep { action: TrackAction::Drop, lost: true, promoted: false };
        }
        if self.lock_first_output_block && !strong_on_phase {
            return TrackStep { action: TrackAction::Drop, lost: false, promoted: false };
        }
        if self.lock_first_output_block {
            self.lock_chip_start = self.sample - bs;
            self.lock_first_output_block = false;
        }
        TrackStep { action: TrackAction::Despread { phase }, lost: false, promoted: false }
    }

    /// Start of the next emitted 64-chip block, and whether it carries the
    /// lock-lost tag (carried once, by the first block after a loss).
    pub fn next_block(&mut self) -> (r: (usize, bool))
        requires
            old(self).wf(),
            old(self).lock_chip_start + BLOCK_CHIPS * old(self).oversample <= usize::MAX,
        ensures
            final(self).wf(),
            r == (old(self).lock_chip_start, old(self).pending_lock_lost_tag),
            final(self).lock_chip_start == old(self).lock_chip_start + BLOCK_CHIPS * old(self).oversample,
            !final(self).pending_lock_lost_tag,
            final(self).state == old(self).state,
            final(self).lock_phase == old(self).lock_phase,
            final(self).lock_hits == old(self).lock_hits,
            final(self).lock_misses == old(self).lock_misses,
            final(self).sample == old(self).sample,
            final(self).oversample == old(self).oversample,
            final(self).lock_first_output_block == old(self).lock_first_output_block,
    {
        let start = self.lock_chip_start;
        let tag = self.pending_lock_lost_tag;
        self.pending_lock_lost_tag = false;
        self.lock_chip_start = start + BLOCK_CHIPS * self.oversample;
        (start, tag)
    }
}

/// A 64-chip block of despread output: its samples, its start on the
/// tracker's timeline, the PN phase it was despread at, and whether it
/// carries the lock-lost tag.
pub struct TrackedBlock<T> {
    pub samples: Vec<T>,
    pub chip_start: usize,
    pub pilot_phase: usize,
    pub lock_lost: bool,
}

/// Despread output of the tracker: samples waiting to fill a block, and the
/// blocks held back while the lock is only coarse.
pub struct TrackerOutput<T> {
    pub pending: Vec<T>,
    pub held: Vec<TrackedBlock<T>>,
}

/// Block `k` cut from `all` in blocks of `g` samples: despread at `phase`,
/// starting `k * g` after `start`, the first one carrying `tag`.
pub open spec fn is_chunk<T>(b: TrackedBlock<T>, all: Seq<T>, k: int, g: int, start: int, phase: int, tag: bool) -> bool {
    &&& b.samples@ == all.subrange(k * g, (k + 1) * g)
    &&& b.chip_start == start + k * g
    &&& b.pilot_phase == phase
    &&& b.lock_lost == (k == 0 && tag)
}

/// The samples waiting to be cut after a step: the pending ones, followed
/// by the block's despread samples when the step despread.
pub open spec fn step_samples<T>(step: TrackStep, pending: Seq<T>, despread: Seq<T>) -> Seq<T> {
    match step.action {
        TrackAction::Despread { .. } => pending + despread,
        TrackAction::Drop => pending,
    }
}

/// The PN phase the step despread at (none is used when it did not).
pub open spec fn step_phase(step: TrackStep) -> int {
    match step.action {
        TrackAction::Despread { phase } => phase as int,
        TrackAction::Drop => 0,
    }
}

/// A block of exactly 64 chips of samples, despread at a phase within the
/// PN period.
pub open spec fn whole_block<T>(b: TrackedBlock<T>, tracker: MatchedFilterTracker) -> bool {
    &&& b.samples@.len() == BLOCK_CHIPS * tracker.oversample
    &&& b.pilot_phase < tracker.period()
}

impl<T> TrackerOutput<T> {
    /// The pending samples never fill a whole block.
    pub open spec fn wf(&self, tracker: MatchedFilterTracker) -> bool {
        &&& self.pending@.len() < BLOCK_CHIPS * tracker.oversample
        &&& forall|i: int| 0 <= i < self.held@.len() ==> whole_block(#[trigger] self.held@[i], tracker)
    }

    pub fn new() -> (o: Self)
        ensures
            o.pending@.len() == 0,
            o.held@.len() == 0,
    {
        TrackerOutput { pending: Vec::new(), held: Vec::new() }
    }

    /// Take in the outcome of the tracker's step `step` on a block whose
    /// despread samples are `despread` (used only when the step despread).
    /// A lost lock discards the pending samples and the held-back blocks.
    /// Otherwise the samples join the pending ones and every whole 64-chip
    /// block leaves on the tracker's timeline: held back while the tracker
    /// is coarse tracking, passed on (after the held-back ones, when the step
    /// promoted the lock) while it is fine tracking.
    #[verifier::spinoff_prover]
    #[verifier::rlimit(40)]
    pub fn take_step(&mut self, tracker: &mut MatchedFilterTracker, step: TrackStep, despread: Vec<T>) -> (out: Vec<TrackedBlock<T>>)
        requires
            old(tracker).wf(),
            old(self).wf(*old(tracker)),
            old(tracker).lock_chip_start + old(self).pending@.len() + despread@.len() <= usize::MAX,
            step.action matches TrackAction::Despread { phase } ==> phase < old(tracker).period(),
        ensures
            final(tracker).wf(),
            final(self).wf(*final(tracker)),
            forall|i: int| 0 <= i < out@.len() ==> whole_block(#[trigger] out@[i], *final(tracker)),
            final(tracker).state == old(tracker).state,
            final(tracker).oversample == old(tracker).oversample,
            final(tracker).lock_phase == old(tracker).lock_phase,
            final(tracker).lock_hits == old(tracker).lock_hits,
            final(tracker).lock_misses == old(tracker).lock_misses,
            final(tracker).sample == old(tracker).sample,
            final(tracker).lock_first_output_block == old(tracker).lock_first_output_block,
            if step.lost {
                &&& final(self).pending@.len() == 0
                &&& final(self).held@.len() == 0
                &&& out@.len() == 0
                &&& *final(tracker) == *old(tracker)
            } else {
                let g = BLOCK_CHIPS as int * old(tracker).oversample;
                let all = step_samples(step, old(self).pending@, despread@);
                let phase = step_phase(step);
                let n = all.len() as int / g;
                let start = old(tracker).lock_chip_start as int;
                let tag = old(tracker).pending_lock_lost_tag;
                let held = old(self).held@;
                &&& final(self).pending@ == all.subrange(n * g, all.len() as int)
                &&& final(tracker).lock_chip_start == start + n * g
                &&& final(tracker).pending_lock_lost_tag == (tag && n == 0)
                &&& if old(tracker).state == State::CoarseTracking {
                    &&& out@.len() == 0
                    &&& final(self).held@.len() == held.len() + n
                    &&& forall|i: int| 0 <= i < held.len() ==> #[trigger] final(self).held@[i] == held[i]
                    &&& forall|k: int| 0 <= k < n ==>
                        is_chunk(#[trigger] final(self).held@[held.len() + k], all, k, g, start, phase, tag)
                } else {
                    let before = if step.promoted { held } else { Seq::<TrackedBlock<T>>::empty() };
                    &&& final(self).held@ == if step.promoted { Seq::<TrackedBlock<T>>::empty() } else { held }
                    &&& out@.len() == before.len() + n
                    &&& forall|i: int| 0 <= i < before.len() ==> #[trigger] out@[i] == before[i]
                    &&& forall|k: int| 0 <= k < n ==>
                        is_chunk(#[trigger] out@[before.len() + k], all, k, g, start, phase, tag)
                }
            },
    {
        if step.lost {
            self.pending = Vec::new();
            self.held = Vec::new();
            return Vec::new();
        }
        let g = BLOCK_CHIPS * tracker.oversample;
        let phase = match step.action {
            TrackAction::Despread { phase } => {
                let mut d = despread;
                self.pending.append(&mut d);
                phase
            },
            TrackAction::Drop => 0,
        };
        let ghost all = self.pending@;
        let ghost start = tracker.lock_chip_start as int;
        let ghost tag = tracker.pending_lock_lost_tag;
        let ghost t0 = *tracker;
        let mut chunks: Vec<TrackedBlock<T>> = Vec::new();
        let mut consumed: usize = 0;
        while self.pending.len() >= g
            invariant
                g == BLOCK_CHIPS * tracker.oversample,
                tracker.wf(),
                g >= 64,
                self.held@ == old(self).held@,
                all.len() == self.pending@.len() + consumed,
                consumed % g == 0,
                consumed <= all.len(),
                self.pending@ == all.subrange(consumed as int, all.len() as int),
                chunks@.len() == consumed / g,
                tracker.lock_chip_start == start + consumed,
                0 <= start && start + all.len() <= usize::MAX,
                tracker.pending_lock_lost_tag == (tag && consumed == 0),
                tracker.state == t0.state && tracker.oversample == t0.oversample,
                tracker.lock_phase == t0.lock_phase && tracker.lock_hits == t0.lock_hits,
                tracker.lock_misses == t0.lock_misses && tracker.sample == t0.sample,
                tracker.lock_first_output_block == t0.lock_first_output_block,
                forall|k: int| 0 <= k < chunks@.len() ==> is_chunk(#[trigger] chunks@[k], all, k, g as int, start, phase as int, tag),
                forall|k: int| 0 <= k < chunks@.len() ==> whole_block(#[trigger] chunks@[k], t0),
                phase < t0.period(),
                forall|i: int| 0 <= i < self.held@.len() ==> whole_block(#[trigger] self.held@[i], t0),
            decreases self.pending@.len(),
        {
            assert(consumed + g <= all.len());
            assert(consumed + g <= usize::MAX);
            let ghost k = chunks@.len() as int;
            let ghost old_chunks = chunks@;
            let mut samples = self.pending.split_off(g);
            std::mem::swap(&mut samples, &mut self.pending);
            let (chip_start, lock_lost) = tracker.next_block();
            proof {
                vstd::arithmetic::div_mod::lemma_fundamental_div_mod(consumed as int, g as int);
                assert(k * g == consumed) by (nonlinear_arith)
                    requires k == consumed as int / g as int, consumed as int % g as int == 0, g > 0,
                        consumed as int == g * (consumed as int / g as int) + consumed as int % g as int {}
                assert((k + 1) * g == consumed + g) by (nonlinear_arith) requires k * g == consumed {}
                assert(k == 0 <==> consumed == 0) by (nonlinear_arith) requires k * g == consumed, g > 0, k >= 0 {}
                assert(samples@ =~= all.subrange(k * g, (k + 1) * g));
            }
            let b = TrackedBlock { samples, chip_start, pilot_phase: phase, lock_lost };
            proof {
                assert(is_chunk(b, all, k, g as int, start, phase as int, tag));
                assert(whole_block(b, t0));
            }
            chunks.push(b);
            consumed = consumed + g;
            proof {
                vstd::arithmetic::div_mod::lemma_mod_add_multiples_vanish(consumed as int - g, g as int);
                vstd::arithmetic::div_mod::lemma_div_plus_one(consumed as int - g, g as int);
                assert forall|j: int| 0 <= j < chunks@.len() implies is_chunk(#[trigger] chunks@[j], all, j, g as int, start, phase as int, tag) by {
                    if j < k {
                        assert(chunks@[j] == old_chunks[j]);
                    }
                }
                assert forall|j: int| 0 <= j < chunks@.len() implies whole_block(#[trigger] chunks@[j], t0) by {
                    if j < k {
                        assert(chunks@[j] == old_chunks[j]);
                    }
                }
                assert(self.pending@ =~= all.subrange(consumed as int, all.len() as int));
            }
        }
        proof {
            let n = all.len() as int / (g as int);
            lemma_whole_blocks(all.len() as int, g as int, consumed as int);
            assert(n == chunks@.len());
        }
        let ghost ch = chunks@;
        let mut out: Vec<TrackedBlock<T>> = Vec::new();
        if tracker.state == State::CoarseTracking {
            self.held.append(&mut chunks);
            proof {
                let h = old(self).held@;
                assert forall|i: int| 0 <= i < self.held@.len() implies whole_block(#[trigger] self.held@[i], *tracker) by {
                    if i < h.len() {
                        assert(self.held@[i] == h[i]);
                    } else {
                        assert(self.held@[i] == ch[i - h.len()]);
                    }
                }
                assert forall|k: int| 0 <= k < ch.len() implies
                    is_chunk(#[trigger] self.held@[h.len() + k], all, k, g as int, start, phase as int, tag) by {
                    assert(self.held@[h.len() + k] == ch[k]);
                }
            }
        } else {
            if step.promoted {
                std::mem::swap(&mut out, &mut self.held);
            }
            let ghost before = out@;
            out.append(&mut chunks);
            proof {
                assert forall|i: int| 0 <= i < out@.len() implies whole_block(#[trigger] out@[i], *tracker) by {
                    if i < before.len() {
                        assert(out@[i] == before[i]);
                    } else {
                        assert(out@[i] == ch[i - before.len()]);
                    }
                }
                assert forall|k: int| 0 <= k < ch.len() implies
                    is_chunk(#[trigger] out@[before.len() + k], all, k, g as int, start, phase as int, tag) by {
                    assert(out@[before.len() + k] == ch[k]);
                }
            }
        }
        out
    }
}

/// `consumed`, a multiple of `g` within `len` that leaves less than `g`, is
/// the whole blocks of `g` in `len`.
proof fn lemma_whole_blocks(len: int, g: int, consumed: int)
    requires
        g > 0,
        0 <= consumed <= len,
        consumed % g == 0,
        len - consumed < g,
    ensures
        consumed == len / g * g,
        consumed / g == len / g,
{
    vstd::arithmetic::div_mod::lemma_fundamental_div_mod(consumed, g);
    vstd::arithmetic::div_mod::lemma_fundamental_div_mod(len, g);
    let q = consumed / g;
    assert(consumed == g * q);
    vstd::arithmetic::div_mod::lemma_div_multiples_vanish_fancy(q, len - consumed, g);
    assert(g * q + (len - consumed) == len);
    assert(len / g == q);
    assert(g * q == q * g) by (nonlinear_arith);
}

/// The oversampling a run of tracker states keeps from its first: every
/// call leaves it unchanged.
proof fn lemma_run_oversample(trackers: Seq<MatchedFilterTracker>, i: int)
    requires
        0 <= i < trackers.len(),
        forall|j: int| 0 <= j < trackers.len() - 1 ==> #[trigger] trackers[j + 1].oversample == trackers[j].oversample,
    ensures
        trackers[i].oversample == trackers[0].oversample,
    decreases i,
{
    if i > 0 {
        lemma_run_oversample(trackers, i - 1);
        assert(trackers[(i - 1) + 1].oversample == trackers[i - 1].oversample);
    }
}

/// Law: over any run of tracker steps and output stages (each call of
/// `take_step` leaves the oversampling as it was and releases only whole
/// blocks), every block the tracker ever releases holds exactly 64 chips of
/// samples at the initial oversampling and was despread at a phase within
/// the PN period.
pub proof fn lemma_released_blocks_whole<T>(trackers: Seq<MatchedFilterTracker>, outs: Seq<Seq<TrackedBlock<T>>>)
    requires
        trackers.len() == outs.len() + 1,
        forall|j: int| 0 <= j < outs.len() ==> #[trigger] trackers[j + 1].oversample == trackers[j].oversample,
        forall|j: int, k: int| 0 <= j < outs.len() && 0 <= k < outs[j].len() ==>
            whole_block(#[trigger] outs[j][k], trackers[j + 1]),
    ensures
        forall|j: int, k: int| 0 <= j < outs.len() && 0 <= k < outs[j].len() ==> {
            &&& (#[trigger] outs[j][k]).samples@.len() == BLOCK_CHIPS * trackers[0].oversample
            &&& outs[j][k].pilot_phase < 32768 * trackers[0].oversample
        },
{
    assert forall|j: int, k: int| 0 <= j < outs.len() && 0 <= k < outs[j].len() implies {
        &&& (#[trigger] outs[j][k]).samples@.len() == BLOCK_CHIPS * trackers[0].oversample
        &&& outs[j][k].pilot_phase < 32768 * trackers[0].oversample
    } by {
        lemma_run_oversample(trackers, j + 1);
        assert(whole_block(outs[j][k], trackers[j + 1]));
    }
}

/// The circular phase distance is symmetric and at most half the period,
/// and two phases of one period are at distance zero exactly when equal.
pub proof fn lemma_phase_distance_symmetric(a: int, b: int, period: int)
    requires
        period > 0,
    ensures
        spec_phase_distance(a, b, period) == spec_phase_distance(b, a, period),
        0 <= spec_phase_distance(a, b, period) <= period / 2,
        spec_phase_distance(a, a, period) == 0,
        0 <= a < period && 0 <= b < period ==> (spec_phase_distance(a, b, period) == 0 <==> a == b),
{
    if 0 <= a < period && 0 <= b < period && spec_phase_distance(a, b, period) == 0 {
        let d = (a - b) % period;
        assert(d == 0);
        vstd::arithmetic::div_mod::lemma_fundamental_div_mod(a - b, period);
        let q = (a - b) / period;
        assert(a - b == period * q);
        assert(q == 0) by (nonlinear_arith)
            requires a - b == period * q, -period < a - b < period, period > 0 {}
        assert(a == b) by (nonlinear_arith) requires a - b == period * q, q == 0 {}
    }
    let d = (a - b) % period;
    let e = (b - a) % period;
    assert(d == 0 ==> e == 0) by {
        vstd::arithmetic::div_mod::lemma_mod_sub_multiples_vanish(b - a, period);
        assert((b - a) % period == (-(a - b)) % period);
        if d == 0 {
            vstd::arithmetic::div_mod::lemma_fundamental_div_mod(a - b, period);
            let q = (a - b) / period;
            assert(b - a == period * (-q)) by (nonlinear_arith) requires a - b == period * q + 0 {}
            vstd::arithmetic::div_mod::lemma_mod_multiples_basic(-q, period);
            assert(period * (-q) == (-q) * period) by (nonlinear_arith);
        }
    }
    assert(d != 0 ==> e == period - d) by {
        if d != 0 {
            vstd::arithmetic::div_mod::lemma_fundamental_div_mod(a - b, period);
            let q = (a - b) / period;
            assert(b - a == period * (-q - 1) + (period - d)) by (nonlinear_arith)
                requires a - b == period * q + d {}
            vstd::arithmetic::div_mod::lemma_mod_multiples_vanish(-q - 1, period - d, period);
            vstd::arithmetic::div_mod::lemma_small_mod((period - d) as nat, period as nat);
        }
    }
    assert((a - a) % period == 0) by {
        vstd::arithmetic::div_mod::lemma_mod_self_0(period);
        vstd::arithmetic::div_mod::lemma_small_mod(0, period as nat);
    }
    if a == b {
        assert(a - b == a - a);
        assert(spec_phase_distance(a, b, period) == 0);
    }
}

} // verus!
