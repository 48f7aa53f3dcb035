//! Search and lock logic of the RC1 traffic frame aligner: which timing
//! hypotheses it tests, when it searches, how a preamble or a CRC lock moves
//! it on, and how emitted frames keep it locked.
//!
//! The chip buffer, demodulation and decoding are the caller's; this type
//! tracks the buffer by its length and is told what each decode found.
use vstd::prelude::*;
use crate::rc1_rate::{Rc1TrafficRate, pcg_active, randomizer_bits_wf};
use crate::rate_order::AlignerRateHistory;
use crate::rc1_decoder::{
    PN_CHIPS_PER_SYMBOL, SYMBOLS_PER_FRAME, PCG_CHIPS, PREAMBLE_NULL_FRAME_THRESHOLD, scheduled_pcgs, lemma_scheduled_step,
};

verus! {

/// Chips per 20 ms frame.
pub const FRAME_CHIPS: usize = 24576;
/// Chips in one period of the short PN code.
pub const PN_SHORT_CODE_CHIPS: usize = 32768;
/// Whole buffered frames needed before a search.
pub const MIN_LOCK_FRAMES: usize = 2;
/// Frames searched at most.
pub const MAX_LOCK_FRAMES: usize = 128;
/// Beyond this many buffered chips the search window slides by a frame.
pub const MAX_SEARCH_BUFFER_CHIPS: usize = 3219456;
/// Searches before the aligner gives up.
pub const MAX_SEARCH_ATTEMPTS: usize = 32;
/// One-sided chip-phase search radius around a preamble hypothesis.
pub const CHIP_PHASE_SEARCH_RADIUS: usize = 4;

#[derive(Debug, Clone, Copy, PartialEq, Eq, Structural)]
pub enum FrameAlignerState {
    SearchingPreamble,
    Locking,
    Locked,
    GaveUp,
}

/// A preamble hypothesis: chip phase, frame phase and its longest run of
/// consecutive null frames.
#[derive(Debug, Clone, Copy, PartialEq, Eq, Structural)]
pub struct PreambleHypothesis {
    pub chip_phase: usize,
    pub frame_phase: usize,
    pub null_frames: usize,
}

/// A CRC-confirmed lock.
#[derive(Debug, Clone, Copy, PartialEq, Eq, Structural)]
pub struct LockCandidate {
    pub chip_phase: usize,
    pub frame_phase: usize,
    pub rate: Rc1TrafficRate,
    pub lock_frame_index: usize,
}

/// Timing of a lock in system time: absolute chip, and that chip modulo the
/// frame, the Walsh symbol and the short PN code, and the symbol in the frame.
#[derive(Debug, Clone, Copy, PartialEq, Eq, Structural)]
pub struct LockTiming {
    pub abs_chip: usize,
    pub chip_mod_frame: usize,
    pub chip_mod_symbol: usize,
    pub chip_mod_pn: usize,
    pub symbol_mod_frame: usize,
}

/// How a search ended.
#[derive(Debug, Clone, Copy, PartialEq, Eq, Structural)]
pub enum SearchOutcome {
    /// The preamble was found after this many null frames: announce it.
    PreambleDetected { null_frames: usize },
    /// Locked on a CRC-valid frame.
    Locked { timing: Option<LockTiming> },
    /// The search gave up: the buffer is cleared.
    GaveUp,
    /// Keep buffering.
    Continue,
}

/// A power control group of the locked buffer whose measurement is due.
#[derive(Debug, Clone, Copy, PartialEq, Eq, Structural)]
pub struct AlignerPcgMeasurement {
    pub abs_pcg: u64,
    /// Chips from the buffer start to the group.
    pub chip_offset: usize,
    pub measurement_abs_chip: u64,
    pub age_chips: u64,
}

pub open spec fn sat_add(a: int, b: int, max: int) -> int {
    if a + b > max { max } else { a + b }
}

pub open spec fn min(a: int, b: int) -> int {
    if a <= b { a } else { b }
}

/// Chip phase of the symbol grid implied by system time at the buffer start.
pub open spec fn spec_predicted_chip_phase(abs_start: Option<i64>) -> Option<usize> {
    match abs_start {
        Some(a) => Some(((PN_CHIPS_PER_SYMBOL - ((a as u64) as int) % (PN_CHIPS_PER_SYMBOL as int)) % (PN_CHIPS_PER_SYMBOL as int)) as usize),
        None => None,
    }
}

pub fn predicted_chip_phase(abs_start: Option<i64>) -> (p: Option<usize>)
    ensures
        p == spec_predicted_chip_phase(abs_start),
        p matches Some(v) ==> v < PN_CHIPS_PER_SYMBOL,
{
    match abs_start {
        Some(a) => {
            let remainder = ((a as u64) % (PN_CHIPS_PER_SYMBOL as u64)) as usize;
            Some((PN_CHIPS_PER_SYMBOL - remainder) % PN_CHIPS_PER_SYMBOL)
        },
        None => None,
    }
}

/// Frame phase (in symbols) of the frame boundary implied by system time,
/// rounded to the nearest symbol, for a given chip phase.
pub open spec fn spec_predicted_frame_phase(abs_start: Option<i64>, chip_phase: usize) -> Option<usize> {
    match abs_start {
        Some(a) => {
            let offset = ((a as u64) + chip_phase) % (FRAME_CHIPS as int);
            let to_boundary = (FRAME_CHIPS - offset) % (FRAME_CHIPS as int);
            Some((((to_boundary + PN_CHIPS_PER_SYMBOL / 2) / (PN_CHIPS_PER_SYMBOL as int)) % (SYMBOLS_PER_FRAME as int)) as usize)
        },
        None => None,
    }
}

pub fn predicted_frame_phase(abs_start: Option<i64>, chip_phase: usize) -> (p: Option<usize>)
    requires
        abs_start matches Some(a) ==> (a as u64) + chip_phase <= u64::MAX,
    ensures
        p == spec_predicted_frame_phase(abs_start, chip_phase),
        p matches Some(v) ==> v < SYMBOLS_PER_FRAME,
{
    match abs_start {
        Some(a) => {
            let offset = (((a as u64) + chip_phase as u64) % (FRAME_CHIPS as u64)) as usize;
            let to_boundary = (FRAME_CHIPS - offset) % FRAME_CHIPS;
            let frame_phase = (to_boundary + PN_CHIPS_PER_SYMBOL / 2) / PN_CHIPS_PER_SYMBOL;
            Some(frame_phase % SYMBOLS_PER_FRAME)
        },
        None => None,
    }
}

/// The chip phases searched around a preamble chip phase: the phase itself,
/// then one chip later and earlier, two chips, and so on to the radius.
pub open spec fn preamble_chip_phases(p: int) -> Seq<usize> {
    seq![
        (p % 256) as usize,
        ((p + 1) % 256) as usize, ((p + 255) % 256) as usize,
        ((p + 2) % 256) as usize, ((p + 254) % 256) as usize,
        ((p + 3) % 256) as usize, ((p + 253) % 256) as usize,
        ((p + 4) % 256) as usize, ((p + 252) % 256) as usize,
    ]
}

/// Chip phases to test. With system time only the predicted phase; while
/// locking after a preamble, the phases around the preamble's; otherwise the
/// phases ranked by energy (`by_energy`, computed by the caller).
pub fn chip_phase_candidates(
    abs_start: Option<i64>,
    state: FrameAlignerState,
    preamble_best: Option<PreambleHypothesis>,
    by_energy: Vec<usize>,
) -> (c: Vec<usize>)
    requires
        preamble_best matches Some(h) ==> h.chip_phase + PN_CHIPS_PER_SYMBOL <= usize::MAX,
    ensures
        c@ == match spec_predicted_chip_phase(abs_start) {
            Some(p) => seq![p],
            None => if state == FrameAlignerState::Locking && preamble_best.is_some() {
                preamble_chip_phases(preamble_best.unwrap().chip_phase as int)
            } else {
                by_energy@
            },
        },
{
    match predicted_chip_phase(abs_start) {
        Some(p) => {
            let mut c: Vec<usize> = Vec::new();
            c.push(p);
            assert(c@ =~= seq![p]);
            c
        },
        None => {
            if state == FrameAlignerState::Locking && preamble_best.is_some() {
                let pc = preamble_best.unwrap().chip_phase;
                let mut c: Vec<usize> = Vec::new();
                let mut delta: usize = 0;
                while delta <= CHIP_PHASE_SEARCH_RADIUS
                    invariant
                        pc + PN_CHIPS_PER_SYMBOL <= usize::MAX,
                        delta <= CHIP_PHASE_SEARCH_RADIUS + 1,
                        c@.len() == if delta == 0 { 0 } else { 2 * delta - 1 },
                        forall|k: int| 0 <= k < c@.len() ==>
                            #[trigger] c@[k] == preamble_chip_phases(pc as int)[k],
                    decreases CHIP_PHASE_SEARCH_RADIUS + 1 - delta,
                {
                    c.push((pc + delta) % PN_CHIPS_PER_SYMBOL);
                    if delta > 0 {
                        c.push((pc + PN_CHIPS_PER_SYMBOL - delta) % PN_CHIPS_PER_SYMBOL);
                    }
                    delta += 1;
                }
                assert(c@ =~= preamble_chip_phases(pc as int));
                c
            } else {
                by_energy
            }
        },
    }
}

/// Frame phases to test for a chip phase. With system time only the
/// predicted phase; while locking after a preamble, the preamble's phase
/// shifted by 64, 0 and 32 symbols; otherwise all 96.
pub fn frame_phase_candidates(
    abs_start: Option<i64>,
    chip_phase: usize,
    state: FrameAlignerState,
    preamble_best: Option<PreambleHypothesis>,
) -> (c: Vec<usize>)
    requires
        abs_start matches Some(a) ==> (a as u64) + chip_phase <= u64::MAX,
        preamble_best matches Some(h) ==> h.frame_phase + 64 <= usize::MAX,
    ensures
        c@ == match spec_predicted_frame_phase(abs_start, chip_phase) {
            Some(p) => seq![p],
            None => if state == FrameAlignerState::Locking && preamble_best.is_some() {
                let f = preamble_best.unwrap().frame_phase as int;
                seq![((f + 64) % 96) as usize, (f % 96) as usize, ((f + 32) % 96) as usize]
            } else {
                Seq::new(SYMBOLS_PER_FRAME as nat, |i: int| i as usize)
            },
        },
{
    match predicted_frame_phase(abs_start, chip_phase) {
        Some(p) => {
            let mut c: Vec<usize> = Vec::new();
            c.push(p);
            assert(c@ =~= seq![p]);
            c
        },
        None => {
            if state == FrameAlignerState::Locking && preamble_best.is_some() {
                let f = preamble_best.unwrap().frame_phase;
                let mut c: Vec<usize> = Vec::new();
                c.push((f + 64) % SYMBOLS_PER_FRAME);
                c.push(f % SYMBOLS_PER_FRAME);
                c.push((f + 32) % SYMBOLS_PER_FRAME);
                assert(c@ =~= seq![((f + 64) % 96) as usize, (f % 96) as usize, ((f + 32) % 96) as usize]);
                c
            } else {
                let mut c: Vec<usize> = Vec::new();
                let mut i: usize = 0;
                while i < SYMBOLS_PER_FRAME
                    invariant
                        i <= SYMBOLS_PER_FRAME,
                        c@.len() == i,
                        forall|k: int| 0 <= k < i ==> #[trigger] c@[k] == k as usize,
                    decreases SYMBOLS_PER_FRAME - i,
                {
                    c.push(i);
                    i += 1;
                }
                assert(c@ =~= Seq::new(SYMBOLS_PER_FRAME as nat, |i: int| i as usize));
                c
            }
        },
    }
}

/// Whole frames that a search looks at in a buffer of `buffered` chips.
pub fn search_frame_count(buffered: usize) -> (n: usize)
    ensures
        n == min(buffered as int / FRAME_CHIPS as int, MAX_LOCK_FRAMES as int),
{
    let total = buffered / FRAME_CHIPS;
    if total < MAX_LOCK_FRAMES { total } else { MAX_LOCK_FRAMES }
}

/// Absolute chip of `chip_offset` into a buffer starting at `abs_start`,
/// when that start is known and not negative and the sum fits.
pub open spec fn spec_absolute_frame_chip_start(abs_start: Option<i64>, chip_offset: usize) -> Option<usize> {
    match abs_start {
        Some(a) => if a >= 0 && a + chip_offset <= usize::MAX { Some((a + chip_offset) as usize) } else { None },
        None => None,
    }
}

pub fn absolute_frame_chip_start(abs_start: Option<i64>, chip_offset: usize) -> (r: Option<usize>)
    ensures
        r == spec_absolute_frame_chip_start(abs_start, chip_offset),
{
    match abs_start {
        Some(a) => {
            if a < 0 || (a as u64) > (usize::MAX as u64) {
                return None;
            }
            let base = a as usize;
            base.checked_add(chip_offset)
        },
        None => None,
    }
}

/// Chip offset, in the buffer, of frame `index` at a chip and frame phase.
pub open spec fn lock_chip_offset(chip_phase: int, frame_phase: int, index: int) -> int {
    chip_phase + (frame_phase + index * SYMBOLS_PER_FRAME) * PN_CHIPS_PER_SYMBOL
}

pub open spec fn spec_lock_timing(abs_chip: int) -> LockTiming {
    LockTiming {
        abs_chip: abs_chip as usize,
        chip_mod_frame: (abs_chip % FRAME_CHIPS as int) as usize,
        chip_mod_symbol: (abs_chip % PN_CHIPS_PER_SYMBOL as int) as usize,
        chip_mod_pn: (abs_chip % PN_SHORT_CODE_CHIPS as int) as usize,
        symbol_mod_frame: ((abs_chip / PN_CHIPS_PER_SYMBOL as int) % SYMBOLS_PER_FRAME as int) as usize,
    }
}

/// System-time coordinates of the frame a lock was found in.
pub fn lock_timing_metrics(abs_start: Option<i64>, chip_phase: usize, frame_phase: usize, lock_frame_index: usize)
    -> (t: Option<LockTiming>)
    requires
        lock_chip_offset(chip_phase as int, frame_phase as int, lock_frame_index as int) <= usize::MAX,
    ensures
        t == match spec_absolute_frame_chip_start(abs_start,
            lock_chip_offset(chip_phase as int, frame_phase as int, lock_frame_index as int) as usize) {
            Some(c) => Some(spec_lock_timing(c as int)),
            None => None,
        },
{
    assert(0 <= lock_frame_index * SYMBOLS_PER_FRAME <= (frame_phase + lock_frame_index * SYMBOLS_PER_FRAME) * PN_CHIPS_PER_SYMBOL)
        by (nonlinear_arith);
    let chip_offset = chip_phase + (frame_phase + lock_frame_index * SYMBOLS_PER_FRAME) * PN_CHIPS_PER_SYMBOL;
    match absolute_frame_chip_start(abs_start, chip_offset) {
        Some(abs_chip) => Some(LockTiming {
            abs_chip,
            chip_mod_frame: abs_chip % FRAME_CHIPS,
            chip_mod_symbol: abs_chip % PN_CHIPS_PER_SYMBOL,
            chip_mod_pn: abs_chip % PN_SHORT_CODE_CHIPS,
            symbol_mod_frame: (abs_chip / PN_CHIPS_PER_SYMBOL) % SYMBOLS_PER_FRAME,
        }),
        None => None,
    }
}

/// Longest run of consecutive null frames in `nulls`.
pub open spec fn run_ending_at(nulls: Seq<bool>, n: int) -> nat
    decreases n,
{
    if n <= 0 || !nulls[n - 1] { 0 } else { run_ending_at(nulls, n - 1) + 1 }
}

pub open spec fn longest_run(nulls: Seq<bool>, n: int) -> nat
    decreases n,
{
    if n <= 0 {
        0
    } else {
        let r = run_ending_at(nulls, n);
        let rest = longest_run(nulls, n - 1);
        if r > rest { r } else { rest }
    }
}

/// Longest run of consecutive null frames seen under one hypothesis.
pub fn longest_null_run(nulls: &[bool]) -> (best: usize)
    ensures
        best == longest_run(nulls@, nulls@.len() as int),
{
    let mut consecutive: usize = 0;
    let mut best: usize = 0;
    let mut i: usize = 0;
    while i < nulls.len()
        invariant
            i <= nulls@.len(),
            consecutive == run_ending_at(nulls@, i as int),
            best == longest_run(nulls@, i as int),
            consecutive <= i,
            best <= i,
        decreases nulls@.len() - i,
    {
        if nulls[i] {
            consecutive += 1;
        } else {
            consecutive = 0;
        }
        if consecutive > best {
            best = consecutive;
        }
        i += 1;
    }
    best
}

/// The best preamble hypothesis after testing one more: it replaces the best
/// so far when it saw a longer run, and only if it saw any null frame.
pub open spec fn spec_better_preamble(best: Option<PreambleHypothesis>, h: PreambleHypothesis) -> Option<PreambleHypothesis> {
    let longer = match best {
        Some(b) => h.null_frames > b.null_frames,
        None => true,
    };
    if longer && h.null_frames > 0 { Some(h) } else { best }
}

pub fn better_preamble(best: Option<PreambleHypothesis>, h: PreambleHypothesis) -> (r: Option<PreambleHypothesis>)
    ensures
        r == spec_better_preamble(best, h),
{
    let longer = match best {
        Some(b) => h.null_frames > b.null_frames,
        None => true,
    };
    if longer && h.null_frames > 0 { Some(h) } else { best }
}

/// Integer state of the RC1 traffic frame aligner.
pub struct Rc1TrafficFrameAligner {
    pub state: FrameAlignerState,
    /// Chips held in the caller's buffer.
    pub buffered_chips: usize,
    pub chip_start: usize,
    pub absolute_chip_start: Option<i64>,
    pub esn: u32,
    pub locked_rate: Option<Rc1TrafficRate>,
    pub last_search_frame_budget: usize,
    pub search_attempts: usize,
    pub preamble_event_sent: bool,
    pub preamble_best: Option<PreambleHypothesis>,
    pub rates: AlignerRateHistory,
    pub next_measurement_abs_pcg: Option<u64>,
    pub pcg_measurement_rate: Option<Rc1TrafficRate>,
    pub last_processing_absolute_chip_end: Option<u64>,
}

impl Rc1TrafficFrameAligner {
    /// The buffer length is that of a vector, which fits in `isize`.
    pub open spec fn wf(&self) -> bool {
        &&& self.rates.wf()
        &&& self.buffered_chips <= isize::MAX
    }

    pub fn new(esn: u32) -> (a: Self)
        ensures
            a.wf(),
            a.state == FrameAlignerState::SearchingPreamble,
            a.buffered_chips == 0,
            a.chip_start == 0,
            a.absolute_chip_start.is_none(),
            a.esn == esn,
            a.locked_rate.is_none(),
            a.last_search_frame_budget == 0,
            a.search_attempts == 0,
            !a.preamble_event_sent,
            a.preamble_best.is_none(),
            a.rates.count == 0,
            a.next_measurement_abs_pcg.is_none(),
            a.pcg_measurement_rate.is_none(),
            a.last_processing_absolute_chip_end.is_none(),
    {
        Rc1TrafficFrameAligner {
            state: FrameAlignerState::SearchingPreamble,
            buffered_chips: 0,
            chip_start: 0,
            absolute_chip_start: None,
            esn,
            locked_rate: None,
            last_search_frame_budget: 0,
            search_attempts: 0,
            preamble_event_sent: false,
            preamble_best: None,
            rates: AlignerRateHistory::new(),
            next_measurement_abs_pcg: None,
            pcg_measurement_rate: None,
            last_processing_absolute_chip_end: None,
        }
    }

    /// Take in a block of `len` chips starting at `chip_start`, whose
    /// `absolute_chip_start` tag is `abs_tag`. The first block into an empty
    /// buffer sets the buffer's start and timing.
    pub fn on_block(&mut self, chip_start: usize, len: usize, abs_tag: Option<i64>)
        requires
            old(self).wf(),
            old(self).buffered_chips + len <= isize::MAX,
        ensures
            final(self).wf(),
            final(self).buffered_chips == old(self).buffered_chips + len,
            final(self).last_processing_absolute_chip_end == match abs_tag {
                Some(a) => if a >= 0 { Some(sat_add(a as int, len as int, u64::MAX as int) as u64) } else {
                    old(self).last_processing_absolute_chip_end
                },
                None => old(self).last_processing_absolute_chip_end,
            },
            old(self).buffered_chips == 0 ==> {
                &&& final(self).chip_start == chip_start
                &&& final(self).absolute_chip_start == match abs_tag {
                    Some(a) => Some(a),
                    None => old(self).absolute_chip_start,
                }
                &&& final(self).last_search_frame_budget == 0
                &&& final(self).search_attempts == 0
            },
            old(self).buffered_chips != 0 ==> {
                &&& final(self).chip_start == old(self).chip_start
                &&& final(self).absolute_chip_start == old(self).absolute_chip_start
                &&& final(self).last_search_frame_budget == old(self).last_search_frame_budget
                &&& final(self).search_attempts == old(self).search_attempts
            },
            final(self).state == old(self).state,
            final(self).rates == old(self).rates,
            final(self).preamble_best == old(self).preamble_best,
            final(self).locked_rate == old(self).locked_rate,
    {
        if self.buffered_chips == 0 {
            self.chip_start = chip_start;
            if let Some(a) = abs_tag {
                self.absolute_chip_start = Some(a);
            }
            self.last_search_frame_budget = 0;
            self.search_attempts = 0;
        }
        if let Some(a) = abs_tag {
            if a >= 0 {
                let a64 = a as u64;
                let end = if a64 > u64::MAX - (len as u64) { u64::MAX } else { a64 + len as u64 };
                self.last_processing_absolute_chip_end = Some(end);
            }
        }
        self.buffered_chips = self.buffered_chips + len;
    }

    /// Drop up to `n` chips from the front of the buffer, moving its start.
    pub fn drain_front_chips(&mut self, n: usize)
        requires
            old(self).wf(),
        ensures
            final(self).wf(),
            ({
                let k = min(n as int, old(self).buffered_chips as int);
                &&& final(self).buffered_chips == old(self).buffered_chips - k
                &&& final(self).chip_start == sat_add(old(self).chip_start as int, k, usize::MAX as int)
                &&& final(self).absolute_chip_start == match old(self).absolute_chip_start {
                    Some(a) => Some(sat_add(a as int, k, i64::MAX as int) as i64),
                    None => None,
                }
            }),
            final(self).last_search_frame_budget == 0,
            final(self).state == old(self).state,
            final(self).search_attempts == old(self).search_attempts,
            final(self).rates == old(self).rates,
            final(self).preamble_best == old(self).preamble_best,
            final(self).locked_rate == old(self).locked_rate,
            final(self).pcg_measurement_rate == old(self).pcg_measurement_rate,
            final(self).next_measurement_abs_pcg == old(self).next_measurement_abs_pcg,
            final(self).preamble_event_sent == old(self).preamble_event_sent,
            final(self).esn == old(self).esn,
            final(self).last_processing_absolute_chip_end == old(self).last_processing_absolute_chip_end,
    {
        let k = if n < self.buffered_chips { n } else { self.buffered_chips };
        self.buffered_chips = self.buffered_chips - k;
        self.chip_start = self.chip_start.saturating_add(k);
        if let Some(a) = self.absolute_chip_start {
            let kk = k as i64;
            let moved = if a > i64::MAX - kk { i64::MAX } else { a + kk };
            self.absolute_chip_start = Some(moved);
        }
        self.last_search_frame_budget = 0;
    }

    /// Whether a search runs now: there are at least two whole frames, and
    /// either their count crossed into a new multiple of eight or the buffer
    /// overflowed. A search that runs is counted.
    pub fn begin_search(&mut self) -> (go: bool)
        requires
            old(self).wf(),
        ensures
            final(self).wf(),
            ({
                let frames = min(old(self).buffered_chips as int / FRAME_CHIPS as int, MAX_LOCK_FRAMES as int);
                let bucket = frames / 8 * 8;
                go == (frames >= MIN_LOCK_FRAMES && !(bucket == old(self).last_search_frame_budget
                    && old(self).buffered_chips <= MAX_SEARCH_BUFFER_CHIPS))
                && if go {
                    &&& final(self).last_search_frame_budget == bucket
                    &&& final(self).search_attempts == sat_add(old(self).search_attempts as int, 1, usize::MAX as int)
                } else {
                    &&& final(self).last_search_frame_budget == old(self).last_search_frame_budget
                    &&& final(self).search_attempts == old(self).search_attempts
                }
            }),
            final(self).state == old(self).state,
            final(self).buffered_chips == old(self).buffered_chips,
            final(self).chip_start == old(self).chip_start,
            final(self).absolute_chip_start == old(self).absolute_chip_start,
            final(self).rates == old(self).rates,
            final(self).preamble_best == old(self).preamble_best,
            final(self).esn == old(self).esn,
            final(self).locked_rate == old(self).locked_rate,
            final(self).preamble_event_sent == old(self).preamble_event_sent,
            final(self).pcg_measurement_rate == old(self).pcg_measurement_rate,
            final(self).next_measurement_abs_pcg == old(self).next_measurement_abs_pcg,
            final(self).last_processing_absolute_chip_end == old(self).last_processing_absolute_chip_end,
    {
        let frames = search_frame_count(self.buffered_chips);
        if frames < MIN_LOCK_FRAMES {
            return false;
        }
        let bucket = (frames / 8) * 8;
        if bucket == self.last_search_frame_budget && self.buffered_chips <= MAX_SEARCH_BUFFER_CHIPS {
            return false;
        }
        self.last_search_frame_budget = bucket;
        self.search_attempts = self.search_attempts.saturating_add(1);
        true
    }

    /// Conclude a preamble search whose best hypothesis is `best`. A run of
    /// sixteen null frames announces the preamble and moves on to locking;
    /// after 32 searches the aligner gives up; otherwise an overfull buffer
    /// slides by one frame.
    pub fn finish_preamble_search(&mut self, best: Option<PreambleHypothesis>) -> (o: SearchOutcome)
        requires
            old(self).wf(),
            old(self).state == FrameAlignerState::SearchingPreamble,
        ensures
            final(self).wf(),
            final(self).preamble_best == best,
            if best matches Some(h) && h.null_frames >= PREAMBLE_NULL_FRAME_THRESHOLD {
                &&& o == (SearchOutcome::PreambleDetected { null_frames: best.unwrap().null_frames })
                &&& final(self).preamble_event_sent
                &&& final(self).state == FrameAlignerState::Locking
                &&& final(self).next_measurement_abs_pcg.is_none()
                &&& final(self).search_attempts == 0
                &&& final(self).last_search_frame_budget == 0
                &&& final(self).buffered_chips == old(self).buffered_chips
            } else if old(self).search_attempts >= MAX_SEARCH_ATTEMPTS {
                &&& o == SearchOutcome::GaveUp
                &&& final(self).state == FrameAlignerState::GaveUp
                &&& final(self).next_measurement_abs_pcg.is_none()
                &&& final(self).buffered_chips == 0
            } else {
                &&& o == SearchOutcome::Continue
                &&& final(self).state == old(self).state
                &&& final(self).buffered_chips == if old(self).buffered_chips > MAX_SEARCH_BUFFER_CHIPS {
                    old(self).buffered_chips - FRAME_CHIPS
                } else {
                    old(self).buffered_chips as int
                }
            },
            final(self).rates == old(self).rates,
    {
        self.preamble_best = best;
        if let Some(h) = best {
            if h.null_frames >= PREAMBLE_NULL_FRAME_THRESHOLD {
                self.preamble_event_sent = true;
                self.state = FrameAlignerState::Locking;
                self.next_measurement_abs_pcg = None;
                self.search_attempts = 0;
                self.last_search_frame_budget = 0;
                return SearchOutcome::PreambleDetected { null_frames: h.null_frames };
            }
        }
        if self.search_attempts >= MAX_SEARCH_ATTEMPTS {
            self.state = FrameAlignerState::GaveUp;
            self.next_measurement_abs_pcg = None;
            self.buffered_chips = 0;
            return SearchOutcome::GaveUp;
        }
        if self.buffered_chips > MAX_SEARCH_BUFFER_CHIPS {
            self.drain_front_chips(FRAME_CHIPS);
        }
        SearchOutcome::Continue
    }

    /// Conclude a lock search. A CRC lock drops the chips before the locked
    /// frame grid and locks; after 32 searches the aligner gives up;
    /// otherwise an overfull buffer slides by one frame.
    pub fn finish_lock_search(&mut self, lock: Option<LockCandidate>) -> (o: SearchOutcome)
        requires
            old(self).wf(),
            old(self).state == FrameAlignerState::Locking,
            lock matches Some(l) ==> lock_chip_offset(l.chip_phase as int, l.frame_phase as int, l.lock_frame_index as int) <= usize::MAX,
        ensures
            final(self).wf(),
            match lock {
                Some(l) => {
                    let offset = l.chip_phase + l.frame_phase * PN_CHIPS_PER_SYMBOL;
                    let k = min(offset, old(self).buffered_chips as int);
                    &&& o == (SearchOutcome::Locked { timing: match spec_absolute_frame_chip_start(
                        old(self).absolute_chip_start,
                        lock_chip_offset(l.chip_phase as int, l.frame_phase as int, l.lock_frame_index as int) as usize) {
                            Some(c) => Some(spec_lock_timing(c as int)),
                            None => None,
                        } })
                    &&& final(self).state == FrameAlignerState::Locked
                    &&& final(self).buffered_chips == old(self).buffered_chips - k
                    &&& final(self).locked_rate == Some(l.rate)
                    &&& final(self).pcg_measurement_rate == Some(l.rate)
                    &&& final(self).next_measurement_abs_pcg == match final(self).absolute_chip_start {
                        Some(a) => if a >= 0 { Some(((a as int) / (PCG_CHIPS as int)) as u64) } else { None },
                        None => None,
                    }
                    &&& final(self).search_attempts == 0
                    &&& final(self).last_search_frame_budget == 0
                },
                None => if old(self).search_attempts >= MAX_SEARCH_ATTEMPTS {
                    &&& o == SearchOutcome::GaveUp
                    &&& final(self).state == FrameAlignerState::GaveUp
                    &&& final(self).next_measurement_abs_pcg.is_none()
                    &&& final(self).buffered_chips == 0
                } else {
                    &&& o == SearchOutcome::Continue
                    &&& final(self).state == old(self).state
                    &&& final(self).buffered_chips == if old(self).buffered_chips > MAX_SEARCH_BUFFER_CHIPS {
                        old(self).buffered_chips - FRAME_CHIPS
                    } else {
                        old(self).buffered_chips as int
                    }
                },
            },
            final(self).rates == old(self).rates,
    {
        match lock {
            Some(l) => {
                let timing = lock_timing_metrics(self.absolute_chip_start, l.chip_phase, l.frame_phase, l.lock_frame_index);
                let offset = l.chip_phase + l.frame_phase * PN_CHIPS_PER_SYMBOL;
                self.drain_front_chips(offset);
                self.state = FrameAlignerState::Locked;
                self.next_measurement_abs_pcg = match self.absolute_chip_start {
                    Some(a) => if a >= 0 { Some((a as u64) / (PCG_CHIPS as u64)) } else { None },
                    None => None,
                };
                self.locked_rate = Some(l.rate);
                self.pcg_measurement_rate = Some(l.rate);
                self.last_search_frame_budget = 0;
                self.search_attempts = 0;
                SearchOutcome::Locked { timing }
            },
            None => {
                if self.search_attempts >= MAX_SEARCH_ATTEMPTS {
                    self.state = FrameAlignerState::GaveUp;
                    self.next_measurement_abs_pcg = None;
                    self.buffered_chips = 0;
                    return SearchOutcome::GaveUp;
                }
                if self.buffered_chips > MAX_SEARCH_BUFFER_CHIPS {
                    self.drain_front_chips(FRAME_CHIPS);
                }
                SearchOutcome::Continue
            },
        }
    }

    /// Whether a whole frame is buffered for emission.
    pub fn frame_ready(&self) -> (b: bool)
        ensures
            b == (self.buffered_chips >= FRAME_CHIPS),
    {
        self.buffered_chips >= FRAME_CHIPS
    }

    /// After a locked frame was decoded as `decoded` (its rate and whether it
    /// passed the PHY checks), or failed at every rate (`None`). A decoded
    /// frame is remembered and consumed; a failure returns to the lock search
    /// and slips the buffer by one chip.
    pub fn frame_emitted(&mut self, decoded: Option<(Rc1TrafficRate, bool)>) -> (kept_lock: bool)
        requires
            old(self).wf(),
            old(self).state == FrameAlignerState::Locked,
            old(self).buffered_chips >= FRAME_CHIPS,
        ensures
            final(self).wf(),
            kept_lock == decoded.is_some(),
            match decoded {
                Some((rate, phy_valid)) => {
                    &&& old(self).rates.records(&final(self).rates, rate)
                    &&& final(self).pcg_measurement_rate == if phy_valid { Some(rate) } else { old(self).pcg_measurement_rate }
                    &&& final(self).buffered_chips == old(self).buffered_chips - FRAME_CHIPS
                    &&& final(self).state == FrameAlignerState::Locked
                    &&& final(self).locked_rate == old(self).locked_rate
                    &&& final(self).next_measurement_abs_pcg == old(self).next_measurement_abs_pcg
                    &&& final(self).chip_start == sat_add(old(self).chip_start as int, FRAME_CHIPS as int, usize::MAX as int)
                    &&& final(self).absolute_chip_start == match old(self).absolute_chip_start {
                        Some(a) => Some(sat_add(a as int, FRAME_CHIPS as int, i64::MAX as int) as i64),
                        None => None,
                    }
                },
                None => {
                    &&& final(self).state == FrameAlignerState::Locking
                    &&& final(self).next_measurement_abs_pcg.is_none()
                    &&& final(self).search_attempts == 0
                    &&& final(self).last_search_frame_budget == 0
                    &&& final(self).locked_rate.is_none()
                    &&& final(self).pcg_measurement_rate.is_none()
                    &&& final(self).buffered_chips == old(self).buffered_chips - 1
                    &&& final(self).rates == old(self).rates
                    &&& final(self).chip_start == sat_add(old(self).chip_start as int, 1, usize::MAX as int)
                    &&& final(self).absolute_chip_start == match old(self).absolute_chip_start {
                        Some(a) => Some(sat_add(a as int, 1, i64::MAX as int) as i64),
                        None => None,
                    }
                },
            },
            final(self).esn == old(self).esn,
            final(self).preamble_event_sent == old(self).preamble_event_sent,
            final(self).preamble_best == old(self).preamble_best,
            final(self).last_processing_absolute_chip_end == old(self).last_processing_absolute_chip_end,
    {
        match decoded {
            Some((rate, phy_valid)) => {
                self.rates.record_rate(rate);
                if phy_valid {
                    self.pcg_measurement_rate = Some(rate);
                }
                self.drain_front_chips(FRAME_CHIPS);
                true
            },
            None => {
                self.state = FrameAlignerState::Locking;
                self.next_measurement_abs_pcg = None;
                self.search_attempts = 0;
                self.last_search_frame_budget = 0;
                self.locked_rate = None;
                self.pcg_measurement_rate = None;
                if self.buffered_chips > 0 {
                    self.drain_front_chips(1);
                }
                false
            },
        }
    }

    /// Absolute chip of the buffer start, when known and not negative.
    pub open spec fn base_abs_chip(&self) -> Option<int> {
        match self.absolute_chip_start {
            Some(a) => if a >= 0 { Some(a as int) } else { None },
            None => None,
        }
    }

    /// First power control group still to be measured.
    pub open spec fn first_due_pcg(&self, base_pcg: int) -> int {
        match self.next_measurement_abs_pcg {
            Some(n) => if n < base_pcg { base_pcg } else { n as int },
            None => base_pcg,
        }
    }

    /// Rate whose transmitted groups are measured.
    pub open spec fn spec_measurement_rate(&self) -> Rc1TrafficRate {
        match self.pcg_measurement_rate {
            Some(r) => r,
            None => match self.locked_rate { Some(r) => r, None => Rc1TrafficRate::Full },
        }
    }

    /// Start chip of the frame whose groups are next due for a measurement
    /// (its randomizer bits decide which of them the mobile sent), while
    /// locked with a whole group buffered that was not measured yet.
    pub fn pcg_measurement_frame_chip(&self) -> (f: Option<u64>)
        requires
            self.wf(),
        ensures
            ({
                match self.base_abs_chip() {
                    Some(base) => {
                        let base_pcg = base / 1536;
                        let start = self.first_due_pcg(base_pcg);
                        let end = base_pcg + self.buffered_chips / 1536;
                        if self.state == FrameAlignerState::Locked && start < end {
                            f == Some(((start - start % 16) * 1536) as u64)
                        } else {
                            f.is_none()
                        }
                    },
                    None => f.is_none(),
                }
            }),
    {
        if self.state != FrameAlignerState::Locked {
            return None;
        }
        let a = match self.absolute_chip_start { Some(a) => a, None => { return None; } };
        if a < 0 {
            return None;
        }
        let base_abs: u64 = a as u64;
        let base_pcg: u64 = base_abs / 1536;
        let end: u64 = base_pcg + (self.buffered_chips / 1536) as u64;
        let start: u64 = match self.next_measurement_abs_pcg {
            Some(n) => if n < base_pcg { base_pcg } else { n },
            None => base_pcg,
        };
        if start >= end {
            return None;
        }
        let frame_pcg = start - start % 16;
        assert(frame_pcg * 1536 <= end * 1536) by (nonlinear_arith) requires frame_pcg <= end {}
        assert(end * 1536 <= base_abs + self.buffered_chips) by (nonlinear_arith)
            requires end == base_abs / 1536 + self.buffered_chips / 1536 {}
        Some(frame_pcg * 1536)
    }

    /// Which measurements are due in the frame of the next unmeasured power
    /// control group: its groups that are wholly buffered, not measured yet,
    /// and transmitted at the measurement rate for the frame's randomizer
    /// bits `randomizer`, each with its place in the buffer, its absolute
    /// chip and its age behind the end of the last processed block.
    /// Measurement then resumes after them.
    pub fn emit_ready_pcg_measurements(&mut self, randomizer: &[u8; 14]) -> (out: Vec<AlignerPcgMeasurement>)
        requires
            randomizer_bits_wf(randomizer@),
            old(self).wf(),
        ensures
            ({
                match old(self).base_abs_chip() {
                    Some(base) => {
                        let base_pcg = base / 1536;
                        let start = old(self).first_due_pcg(base_pcg);
                        let end = base_pcg + old(self).buffered_chips / 1536;
                        let frame_pcg = start - start % 16;
                        let stop = if end < frame_pcg + 16 { end } else { frame_pcg + 16 };
                        let mask = Seq::new(16, |i: int| pcg_active(old(self).spec_measurement_rate(), randomizer@, i));
                        if old(self).state != FrameAlignerState::Locked {
                            out@.len() == 0 && final(self).next_measurement_abs_pcg == old(self).next_measurement_abs_pcg
                        } else if start >= end {
                            out@.len() == 0 && final(self).next_measurement_abs_pcg == Some(start as u64)
                        } else {
                            let pcgs = scheduled_pcgs(mask, start - frame_pcg, stop - frame_pcg);
                            &&& final(self).next_measurement_abs_pcg == Some(stop as u64)
                            &&& out@.len() == pcgs.len()
                            &&& forall|k: int| 0 <= k < out@.len() ==> {
                                let p = frame_pcg + pcgs[k];
                                let offset = (p - base_pcg) * 1536;
                                let chip = base + offset;
                                &&& (#[trigger] out@[k]).abs_pcg == p
                                &&& out@[k].chip_offset == offset
                                &&& out@[k].measurement_abs_chip == chip
                                &&& out@[k].age_chips == match old(self).last_processing_absolute_chip_end {
                                    Some(e) => if e >= chip { e - chip } else { 0 },
                                    None => 0,
                                }
                            }
                        }
                    },
                    None => out@.len() == 0 && final(self).next_measurement_abs_pcg == old(self).next_measurement_abs_pcg,
                }
            }),
            final(self).wf(),
            final(self).state == old(self).state,
            final(self).buffered_chips == old(self).buffered_chips,
            final(self).chip_start == old(self).chip_start,
            final(self).absolute_chip_start == old(self).absolute_chip_start,
            final(self).rates == old(self).rates,
            final(self).locked_rate == old(self).locked_rate,
            final(self).pcg_measurement_rate == old(self).pcg_measurement_rate,
            final(self).last_processing_absolute_chip_end == old(self).last_processing_absolute_chip_end,
    {
        let mut out: Vec<AlignerPcgMeasurement> = Vec::new();
        if self.state != FrameAlignerState::Locked {
            return out;
        }
        let a = match self.absolute_chip_start { Some(a) => a, None => { return out; } };
        if a < 0 {
            return out;
        }
        let base_abs: u64 = a as u64;
        let base_pcg: u64 = base_abs / 1536;
        let end: u64 = base_pcg + (self.buffered_chips / 1536) as u64;
        let mut next_pcg: u64 = match self.next_measurement_abs_pcg {
            Some(n) => if n < base_pcg { base_pcg } else { n },
            None => base_pcg,
        };
        if next_pcg >= end {
            self.next_measurement_abs_pcg = Some(next_pcg);
            return out;
        }
        let rate = match self.pcg_measurement_rate {
            Some(r) => r,
            None => match self.locked_rate { Some(r) => r, None => Rc1TrafficRate::Full },
        };
        let active_mask = rate.exact_active_pcgs(randomizer);
        let ghost mask = Seq::new(16, |i: int| pcg_active(rate, randomizer@, i));
        let ghost start = next_pcg as int;
        let frame_pcg: u64 = next_pcg - next_pcg % 16;
        let stop: u64 = if end < frame_pcg + 16 { end } else { frame_pcg + 16 };
        let last_end = self.last_processing_absolute_chip_end;
        proof {
            assert(base_pcg * 1536 <= base_abs) by (nonlinear_arith) requires base_pcg == base_abs / 1536 {}
        }
        while next_pcg < stop
            invariant
                start <= next_pcg,
                start < stop ==> next_pcg <= stop,
                frame_pcg == start - start % 16,
                stop == (if end < frame_pcg + 16 { end as int } else { frame_pcg + 16 }),
                base_pcg <= start < end,
                end == base_pcg + self.buffered_chips / 1536,
                self.buffered_chips <= isize::MAX,
                base_pcg == base_abs / 1536,
                base_pcg * 1536 <= base_abs,
                base_abs <= i64::MAX,
                forall|i: int| 0 <= i < 16 ==> #[trigger] active_mask[i] == mask[i],
                ({
                    let pcgs = scheduled_pcgs(mask, start - frame_pcg, next_pcg - frame_pcg);
                    &&& out@.len() == pcgs.len()
                    &&& forall|k: int| 0 <= k < out@.len() ==> {
                        let p = frame_pcg + pcgs[k];
                        let offset = (p - base_pcg) * 1536;
                        let chip = base_abs + offset;
                        &&& (#[trigger] out@[k]).abs_pcg == p
                        &&& out@[k].chip_offset == offset
                        &&& out@[k].measurement_abs_chip == chip
                        &&& out@[k].age_chips == match last_end {
                            Some(e) => if e >= chip { e - chip } else { 0 },
                            None => 0,
                        }
                    }
                }),
            decreases stop - next_pcg,
        {
            let pcg_in_frame = (next_pcg - frame_pcg) as usize;
            proof {
                lemma_scheduled_step(mask, start - frame_pcg, pcg_in_frame as int, stop - frame_pcg);
            }
            let p = next_pcg;
            next_pcg += 1;
            if !active_mask[pcg_in_frame] {
                continue;
            }
            let rel: u64 = p - base_pcg;
            assert(rel * 1536 <= self.buffered_chips) by (nonlinear_arith)
                requires rel < self.buffered_chips / 1536 {}
            let chip_offset: usize = (rel * 1536) as usize;
            let measurement_abs_chip: u64 = base_abs + chip_offset as u64;
            let age_chips: u64 = match last_end {
                Some(e) => e.saturating_sub(measurement_abs_chip),
                None => 0,
            };
            out.push(AlignerPcgMeasurement { abs_pcg: p, chip_offset, measurement_abs_chip, age_chips });
        }
        self.next_measurement_abs_pcg = Some(next_pcg);
        out
    }

    /// Discard the buffer (flush after a search that produced nothing).
    pub fn clear_buffer(&mut self)
        ensures
            final(self).buffered_chips == 0,
            final(self).state == old(self).state,
            final(self).rates == old(self).rates,
            final(self).chip_start == old(self).chip_start,
            final(self).absolute_chip_start == old(self).absolute_chip_start,
    {
        self.buffered_chips = 0;
    }
}

} // verus!
