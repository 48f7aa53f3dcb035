//! Frame timing, preamble detection and measurement scheduling of the RC1
//! reverse traffic decoder that anchors on absolute 20 ms frame boundaries.
use vstd::prelude::*;
use crate::rc1_rate::{Rc1TrafficRate, pcg_active, randomizer_bits_wf, PCGS_PER_FRAME};
use crate::rate_order::DecoderRateHistory;
use crate::rate_decision::{DecodedTrafficFrame, spec_is_preamble, is_preamble_frame};

verus! {

/// PN chips per 64-ary Walsh symbol (64 Walsh chips of 4 PN chips).
pub const PN_CHIPS_PER_SYMBOL: usize = 256;
/// Walsh symbols per 20 ms frame.
pub const SYMBOLS_PER_FRAME: usize = 96;
/// Walsh symbols per power control group.
pub const SYMBOLS_PER_PCG: usize = 6;
/// PN chips per power control group.
pub const PCG_CHIPS: usize = 1536;
/// Consecutive null frames that declare the reverse traffic preamble.
pub const PREAMBLE_NULL_FRAME_THRESHOLD: usize = 16;

#[derive(Clone, Copy, Debug, PartialEq, Eq, Structural)]
pub enum DecoderState {
    Preamble,
    Locked,
}

/// What to do with the next 256 buffered chips.
#[derive(Clone, Copy, Debug, PartialEq, Eq, Structural)]
pub enum SymbolStep {
    /// Drop them: the stream has not reached a frame boundary yet.
    Skip,
    /// A frame boundary: close the frame in progress first (decoding it when
    /// `complete`, that is when it holds all 96 symbols), then take them.
    CloseFrame { complete: bool },
    /// Demodulate them into the frame in progress.
    Take,
}

/// A power control group measurement due for emission.
#[derive(Clone, Copy, Debug, PartialEq, Eq, Structural)]
pub struct PcgMeasurement {
    pub pcg_in_frame: usize,
    pub measurement_abs_chip: u64,
    pub age_chips: u64,
}

/// The per-frame report emitted for each decoded (or failed) frame.
#[derive(Clone, Copy, Debug)]
pub struct FrameReport {
    pub chip_start: usize,
    pub rate_bps: usize,
    pub info_bits: usize,
    pub fqi_bits: usize,
    pub tail_bits: usize,
    pub fqi_valid: bool,
    pub tail_valid: bool,
    pub phy_valid: bool,
    pub ml_tail_match: bool,
    pub is_preamble: bool,
    /// Decoded bits carried by the report (at most the frame length).
    pub payload_bits: usize,
    pub active_pcg_mask: [bool; 16],
}

/// Integer state of the RC1 reverse traffic decoder; the chip buffer and the
/// soft symbols are held by its caller.
pub struct Rc1ReverseTrafficDecoder {
    pub state: DecoderState,
    pub esn: u32,
    /// Chip index of the first buffered chip.
    pub pending_chip_start: Option<usize>,
    pub frame_chip_start: usize,
    pub frame_symbol_count: usize,
    pub consecutive_null_frames: usize,
    pub preamble_event_sent: bool,
    pub rates: DecoderRateHistory,
    pub next_measurement_abs_pcg: Option<u64>,
    pub pcg_measurement_rate: Option<Rc1TrafficRate>,
    pub last_processing_absolute_chip_end: Option<u64>,
    pub symbols_decoded: u64,
    pub frames_decoded: u64,
}

/// The power control groups (relative to the frame) measured by one call,
/// in order: the active groups in `lo..hi`.
pub open spec fn scheduled_pcgs(mask: Seq<bool>, lo: int, hi: int) -> Seq<int>
    decreases hi - lo,
{
    if lo >= hi {
        Seq::empty()
    } else if mask[lo] {
        seq![lo] + scheduled_pcgs(mask, lo + 1, hi)
    } else {
        scheduled_pcgs(mask, lo + 1, hi)
    }
}

pub proof fn lemma_scheduled_step(mask: Seq<bool>, lo: int, k: int, hi: int)
    requires
        lo <= k < hi,
    ensures
        scheduled_pcgs(mask, lo, k + 1) == scheduled_pcgs(mask, lo, k) + if mask[k] { seq![k] } else { Seq::<int>::empty() },
    decreases k - lo,
{
    if lo < k {
        lemma_scheduled_step(mask, lo + 1, k, hi);
        if mask[lo] {
            assert(seq![lo] + (scheduled_pcgs(mask, lo + 1, k) + if mask[k] { seq![k] } else { Seq::<int>::empty() })
                =~= (seq![lo] + scheduled_pcgs(mask, lo + 1, k)) + if mask[k] { seq![k] } else { Seq::<int>::empty() });
        }
    } else {
        assert(scheduled_pcgs(mask, k, k) =~= Seq::<int>::empty());
        assert(scheduled_pcgs(mask, k + 1, k + 1) =~= Seq::<int>::empty());
        if mask[k] {
            assert(seq![k] + Seq::<int>::empty() =~= seq![k]);
            assert(Seq::<int>::empty() + seq![k] =~= seq![k]);
        } else {
            assert(Seq::<int>::empty() + Seq::<int>::empty() =~= Seq::<int>::empty());
        }
    }
}

impl Rc1ReverseTrafficDecoder {
    pub fn new(esn: u32) -> (d: Self)
        ensures
            d.state == DecoderState::Preamble,
            d.esn == esn,
            d.pending_chip_start.is_none(),
            d.frame_chip_start == 0,
            d.frame_symbol_count == 0,
            d.consecutive_null_frames == 0,
            !d.preamble_event_sent,
            d.rates.count == 0,
            d.rates.locked_rate.is_none(),
            d.next_measurement_abs_pcg.is_none(),
            d.pcg_measurement_rate.is_none(),
            d.last_processing_absolute_chip_end.is_none(),
            d.symbols_decoded == 0,
            d.frames_decoded == 0,
    {
        Rc1ReverseTrafficDecoder {
            state: DecoderState::Preamble,
            esn,
            pending_chip_start: None,
            frame_chip_start: 0,
            frame_symbol_count: 0,
            consecutive_null_frames: 0,
            preamble_event_sent: false,
            rates: DecoderRateHistory::new(),
            next_measurement_abs_pcg: None,
            pcg_measurement_rate: None,
            last_processing_absolute_chip_end: None,
            symbols_decoded: 0,
            frames_decoded: 0,
        }
    }

    /// Take note of an incoming block of `n_samples` chips starting at
    /// `chip_start`, whose `absolute_chip_start` tag (if any) anchors the
    /// processing frontier.
    pub fn note_block(&mut self, chip_start: usize, absolute_chip_start: Option<i64>, n_samples: usize)
        requires
            match absolute_chip_start {
                Some(a) => a >= 0 ==> a + n_samples <= u64::MAX,
                None => true,
            },
        ensures
            final(self).pending_chip_start == match old(self).pending_chip_start {
                Some(c) => Some(c),
                None => Some(chip_start),
            },
            final(self).last_processing_absolute_chip_end == match absolute_chip_start {
                Some(a) => if a >= 0 { Some((a + n_samples) as u64) } else { old(self).last_processing_absolute_chip_end },
                None => old(self).last_processing_absolute_chip_end,
            },
            final(self).state == old(self).state,
            final(self).frame_chip_start == old(self).frame_chip_start,
            final(self).frame_symbol_count == old(self).frame_symbol_count,
            final(self).next_measurement_abs_pcg == old(self).next_measurement_abs_pcg,
            final(self).pcg_measurement_rate == old(self).pcg_measurement_rate,
            final(self).consecutive_null_frames == old(self).consecutive_null_frames,
            final(self).preamble_event_sent == old(self).preamble_event_sent,
    {
        if self.pending_chip_start.is_none() {
            self.pending_chip_start = Some(chip_start);
        }
        if let Some(a) = absolute_chip_start {
            if a >= 0 {
                self.last_processing_absolute_chip_end = Some(a as u64 + n_samples as u64);
            }
        }
    }

    /// Bring the buffer onto the 256-chip symbol grid. Returns the number of
    /// leading chips to drop, or `None` when fewer than that are buffered
    /// (wait for more).
    pub fn align_to_symbol_grid(&mut self, pending_len: usize) -> (skip: Option<usize>)
        requires
            match old(self).pending_chip_start {
                Some(c) => c + PN_CHIPS_PER_SYMBOL <= usize::MAX,
                None => true,
            },
        ensures
            match old(self).pending_chip_start {
                Some(c) => {
                    let need = if c % 256 == 0 { 0 } else { 256 - c % 256 };
                    if need > pending_len {
                        skip.is_none() && final(self).pending_chip_start == old(self).pending_chip_start
                    } else {
                        skip == Some(need as usize) && final(self).pending_chip_start == Some((c + need) as usize)
                    }
                },
                None => skip == Some(0usize) && final(self).pending_chip_start.is_none(),
            },
            final(self).frame_symbol_count == old(self).frame_symbol_count,
            final(self).frame_chip_start == old(self).frame_chip_start,
            final(self).state == old(self).state,
    {
        if let Some(chip_start) = self.pending_chip_start {
            let rem = chip_start % PN_CHIPS_PER_SYMBOL;
            if rem != 0 {
                let skip_chips = PN_CHIPS_PER_SYMBOL - rem;
                if pending_len < skip_chips {
                    return None;
                }
                self.pending_chip_start = Some(chip_start + skip_chips);
                return Some(skip_chips);
            }
        }
        Some(0)
    }

    /// Symbol position within its frame of the chip `chip`.
    pub open spec fn symbol_in_frame(chip: int) -> int {
        (chip / 256) % 96
    }

    /// What to do with the next 256 buffered chips.
    pub fn next_symbol_step(&self) -> (step: SymbolStep)
        ensures
            ({
                let c = match self.pending_chip_start { Some(c) => c as int, None => 0 };
                let s = Self::symbol_in_frame(c);
                if self.frame_symbol_count == 0 && s != 0 {
                    step == SymbolStep::Skip
                } else if s == 0 && self.frame_symbol_count > 0 {
                    step == SymbolStep::CloseFrame { complete: self.frame_symbol_count == 96 }
                } else {
                    step == SymbolStep::Take
                }
            }),
    {
        let chip_start = match self.pending_chip_start { Some(c) => c, None => 0 };
        let symbol_in_frame = (chip_start / PN_CHIPS_PER_SYMBOL) % SYMBOLS_PER_FRAME;
        if self.frame_symbol_count == 0 && symbol_in_frame != 0 {
            SymbolStep::Skip
        } else if symbol_in_frame == 0 && self.frame_symbol_count > 0 {
            SymbolStep::CloseFrame { complete: self.frame_symbol_count == SYMBOLS_PER_FRAME }
        } else {
            SymbolStep::Take
        }
    }

    /// Drop one symbol's worth of chips ahead of the first frame boundary.
    pub fn skip_symbol(&mut self)
        requires
            match old(self).pending_chip_start {
                Some(c) => c + 256 <= usize::MAX,
                None => true,
            },
            old(self).symbols_decoded < u64::MAX,
        ensures
            final(self).pending_chip_start == Some((match old(self).pending_chip_start { Some(c) => c as int, None => 0 } + 256) as usize),
            final(self).symbols_decoded == old(self).symbols_decoded + 1,
            final(self).frame_symbol_count == old(self).frame_symbol_count,
            final(self).frame_chip_start == old(self).frame_chip_start,
            final(self).state == old(self).state,
    {
        let chip_start = match self.pending_chip_start { Some(c) => c, None => 0 };
        self.pending_chip_start = Some(chip_start + PN_CHIPS_PER_SYMBOL);
        self.symbols_decoded += 1;
    }

    /// Close the frame in progress (its symbols are discarded by the caller).
    pub fn close_frame(&mut self)
        ensures
            final(self).frame_symbol_count == 0,
            final(self).pending_chip_start == old(self).pending_chip_start,
            final(self).frame_chip_start == old(self).frame_chip_start,
            final(self).state == old(self).state,
            final(self).symbols_decoded == old(self).symbols_decoded,
    {
        self.frame_symbol_count = 0;
    }

    /// Account for one demodulated symbol taken into the frame in progress.
    /// Returns whether it completed a power control group.
    pub fn take_symbol(&mut self) -> (pcg_done: bool)
        requires
            match old(self).pending_chip_start {
                Some(c) => c + 256 <= usize::MAX,
                None => true,
            },
            old(self).symbols_decoded < u64::MAX,
            old(self).frame_symbol_count < usize::MAX,
        ensures
            ({
                let c = match old(self).pending_chip_start { Some(c) => c as int, None => 0 };
                &&& final(self).frame_chip_start == if old(self).frame_symbol_count == 0 { c as usize } else { old(self).frame_chip_start }
                &&& final(self).frame_symbol_count == old(self).frame_symbol_count + 1
                &&& final(self).pending_chip_start == Some((c + 256) as usize)
                &&& final(self).last_processing_absolute_chip_end == Some((c + 256) as u64)
                &&& pcg_done == ((old(self).frame_symbol_count + 1) % 6 == 0)
            }),
            final(self).symbols_decoded == old(self).symbols_decoded + 1,
            final(self).state == old(self).state,
            final(self).next_measurement_abs_pcg == old(self).next_measurement_abs_pcg,
            final(self).pcg_measurement_rate == old(self).pcg_measurement_rate,
    {
        let chip_start = match self.pending_chip_start { Some(c) => c, None => 0 };
        if self.frame_symbol_count == 0 {
            self.frame_chip_start = chip_start;
        }
        self.frame_symbol_count += 1;
        self.symbols_decoded += 1;
        self.pending_chip_start = Some(chip_start + PN_CHIPS_PER_SYMBOL);
        self.last_processing_absolute_chip_end = Some((chip_start + PN_CHIPS_PER_SYMBOL) as u64);
        self.frame_symbol_count % SYMBOLS_PER_PCG == 0
    }

    /// Preamble tracking for a completed frame. Counts consecutive null
    /// frames while searching for the preamble; at the sixteenth the decoder
    /// locks. Returns the null-frame count when a preamble event is due.
    pub fn track_preamble(&mut self, is_null: bool) -> (event: Option<usize>)
        requires
            old(self).consecutive_null_frames < usize::MAX,
        ensures
            old(self).state == DecoderState::Preamble ==> {
                let n = if is_null { old(self).consecutive_null_frames + 1 } else { 0 };
                &&& final(self).consecutive_null_frames == n
                &&& if n >= 16 {
                    &&& final(self).state == DecoderState::Locked
                    &&& final(self).next_measurement_abs_pcg == Some((old(self).frame_chip_start / 1536) as u64)
                    &&& final(self).preamble_event_sent
                    &&& event == if old(self).preamble_event_sent { None } else { Some(n as usize) }
                } else {
                    &&& final(self).state == DecoderState::Preamble
                    &&& final(self).next_measurement_abs_pcg == old(self).next_measurement_abs_pcg
                    &&& final(self).preamble_event_sent == old(self).preamble_event_sent
                    &&& event.is_none()
                }
            },
            old(self).state == DecoderState::Locked ==> {
                &&& final(self).state == old(self).state
                &&& final(self).consecutive_null_frames == old(self).consecutive_null_frames
                &&& final(self).next_measurement_abs_pcg == old(self).next_measurement_abs_pcg
                &&& final(self).preamble_event_sent == old(self).preamble_event_sent
                &&& event.is_none()
            },
            final(self).frame_chip_start == old(self).frame_chip_start,
            final(self).frame_symbol_count == old(self).frame_symbol_count,
            final(self).pending_chip_start == old(self).pending_chip_start,
    {
        if self.state != DecoderState::Preamble {
            return None;
        }
        if is_null {
            self.consecutive_null_frames += 1;
        } else {
            self.consecutive_null_frames = 0;
        }
        let mut event = None;
        if self.consecutive_null_frames >= PREAMBLE_NULL_FRAME_THRESHOLD {
            if !self.preamble_event_sent {
                event = Some(self.consecutive_null_frames);
                self.preamble_event_sent = true;
            }
            self.state = DecoderState::Locked;
            self.next_measurement_abs_pcg = Some((self.frame_chip_start / PCG_CHIPS) as u64);
        }
        event
    }

    /// Account for a frame decoded at `decoded.rate`.
    pub fn record_decoded_frame(&mut self, decoded: &DecodedTrafficFrame)
        requires
            old(self).frames_decoded < u64::MAX,
        ensures
            final(self).frames_decoded == old(self).frames_decoded + 1,
            old(self).rates.records(&final(self).rates, decoded.rate),
            final(self).pcg_measurement_rate == if decoded.validation.phy_valid {
                Some(decoded.rate)
            } else {
                old(self).pcg_measurement_rate
            },
            final(self).state == old(self).state,
            final(self).frame_chip_start == old(self).frame_chip_start,
    {
        self.frames_decoded += 1;
        self.rates.record_rate(decoded.rate);
        if decoded.validation.phy_valid {
            self.pcg_measurement_rate = Some(decoded.rate);
        }
    }

    /// The report of a decoded frame, with the exact mask of transmitted
    /// power control groups (from the frame's randomizer bits).
    pub fn frame_report(&self, decoded: &DecodedTrafficFrame, randomizer: &[u8; 14]) -> (r: FrameReport)
        requires
            randomizer_bits_wf(randomizer@),
        ensures
            r.chip_start == self.frame_chip_start,
            r.rate_bps == decoded.rate.spec_rate_bps(),
            r.info_bits == decoded.rate.spec_info_bits(),
            r.fqi_bits == decoded.rate.spec_fqi_bits(),
            r.tail_bits == decoded.rate.spec_tail_bits(),
            r.fqi_valid == decoded.validation.fqi_valid,
            r.tail_valid == decoded.validation.tail_valid,
            r.phy_valid == decoded.validation.phy_valid,
            r.ml_tail_match == decoded.ml_terminal_matches_zero,
            r.is_preamble == spec_is_preamble(*decoded),
            r.payload_bits == if decoded.bits@.len() < decoded.rate.spec_frame_bits() {
                decoded.bits@.len() as int
            } else {
                decoded.rate.spec_frame_bits() as int
            },
            forall|i: int| 0 <= i < 16 ==> #[trigger] r.active_pcg_mask[i] == pcg_active(decoded.rate, randomizer@, i),
    {
        let frame_bits = decoded.rate.frame_bits();
        let payload_bits = if decoded.bits.len() < frame_bits { decoded.bits.len() } else { frame_bits };
        FrameReport {
            chip_start: self.frame_chip_start,
            rate_bps: decoded.rate.rate_bps(),
            info_bits: decoded.rate.info_bits(),
            fqi_bits: decoded.rate.fqi_bits(),
            tail_bits: decoded.rate.tail_bits(),
            fqi_valid: decoded.validation.fqi_valid,
            tail_valid: decoded.validation.tail_valid,
            phy_valid: decoded.validation.phy_valid,
            ml_tail_match: decoded.ml_terminal_matches_zero,
            is_preamble: is_preamble_frame(decoded),
            payload_bits,
            active_pcg_mask: decoded.rate.exact_active_pcgs(randomizer),
        }
    }

    /// The report of a frame that no rate decoded: invalid, zero rate, and
    /// every power control group marked active (for frame-error counting).
    pub fn build_failed_locked_frame(&self) -> (r: FrameReport)
        ensures
            r.chip_start == self.frame_chip_start,
            r.rate_bps == 0,
            r.info_bits == 0,
            r.fqi_bits == 0,
            r.tail_bits == 8,
            !r.fqi_valid && !r.tail_valid && !r.phy_valid && !r.ml_tail_match && !r.is_preamble,
            r.payload_bits == 0,
            forall|i: int| 0 <= i < 16 ==> #[trigger] r.active_pcg_mask[i],
    {
        FrameReport {
            chip_start: self.frame_chip_start,
            rate_bps: 0,
            info_bits: 0,
            fqi_bits: 0,
            tail_bits: Rc1TrafficRate::Eighth.tail_bits(),
            fqi_valid: false,
            tail_valid: false,
            phy_valid: false,
            ml_tail_match: false,
            is_preamble: false,
            payload_bits: 0,
            active_pcg_mask: [true; 16],
        }
    }

    /// Which measurements are due: the power control groups completed since
    /// the last call (`symbols_available` symbols of the frame in progress are
    /// buffered) that the mobile transmitted at the measurement rate, whose
    /// randomizer bits for this frame are `randomizer`.
    pub fn emit_pcg_measurements(&mut self, symbols_available: usize, randomizer: &[u8; 14]) -> (out: Vec<PcgMeasurement>)
        requires
            randomizer_bits_wf(randomizer@),
            old(self).frame_chip_start + 16 * 1536 <= u64::MAX,
        ensures
            ({
                let frame_abs_pcg = old(self).frame_chip_start as int / 1536;
                let available_end = frame_abs_pcg + symbols_available as int / 6;
                let rate = match old(self).pcg_measurement_rate { Some(r) => r, None => Rc1TrafficRate::Full };
                let start = match old(self).next_measurement_abs_pcg {
                    Some(n) => if n < frame_abs_pcg { frame_abs_pcg } else { n as int },
                    None => frame_abs_pcg,
                };
                let stop = if available_end < frame_abs_pcg + 16 { available_end } else { frame_abs_pcg + 16 };
                let idle = old(self).state != DecoderState::Locked
                    || old(self).last_processing_absolute_chip_end.is_none()
                    || symbols_available < 6
                    || start >= available_end;
                let mask = Seq::new(16, |i: int| pcg_active(rate, randomizer@, i));
                if idle {
                    out@.len() == 0 && final(self).next_measurement_abs_pcg == old(self).next_measurement_abs_pcg
                } else {
                    let pcgs = scheduled_pcgs(mask, start - frame_abs_pcg, stop - frame_abs_pcg);
                    let end = old(self).last_processing_absolute_chip_end.unwrap();
                    &&& final(self).next_measurement_abs_pcg == Some((if start < stop { stop } else { start }) as u64)
                    &&& out@.len() == pcgs.len()
                    &&& forall|k: int| 0 <= k < out@.len() ==> {
                        let chip = frame_abs_pcg * 1536 + pcgs[k] * 1536;
                        &&& (#[trigger] out@[k]).pcg_in_frame == pcgs[k]
                        &&& out@[k].measurement_abs_chip == chip
                        &&& out@[k].age_chips == if end >= chip { end - chip } else { 0 }
                    }
                }
            }),
            final(self).state == old(self).state,
            final(self).frame_chip_start == old(self).frame_chip_start,
            final(self).frame_symbol_count == old(self).frame_symbol_count,
            final(self).pcg_measurement_rate == old(self).pcg_measurement_rate,
            final(self).last_processing_absolute_chip_end == old(self).last_processing_absolute_chip_end,
    {
        let mut out: Vec<PcgMeasurement> = Vec::new();
        if self.state != DecoderState::Locked {
            return out;
        }
        let processing_end = match self.last_processing_absolute_chip_end {
            Some(e) => e,
            None => { return out; },
        };
        let frame_abs_pcg: u64 = (self.frame_chip_start / PCG_CHIPS) as u64;
        let pcgs_available = symbols_available / SYMBOLS_PER_PCG;
        if pcgs_available == 0 {
            return out;
        }
        let available_end: u64 = frame_abs_pcg + pcgs_available as u64;
        let mut next_pcg: u64 = match self.next_measurement_abs_pcg {
            Some(n) => n,
            None => frame_abs_pcg,
        };
        if next_pcg < frame_abs_pcg {
            next_pcg = frame_abs_pcg;
        }
        if next_pcg >= available_end {
            return out;
        }
        let rate = match self.pcg_measurement_rate { Some(r) => r, None => Rc1TrafficRate::Full };
        let active_mask = rate.exact_active_pcgs(randomizer);
        let ghost mask = Seq::new(16, |i: int| pcg_active(rate, randomizer@, i));
        let ghost start = next_pcg as int;
        let ghost stop = if (available_end as int) < frame_abs_pcg + 16 { available_end as int } else { frame_abs_pcg + 16 };
        proof {
            assert(frame_abs_pcg * 1536 <= self.frame_chip_start) by (nonlinear_arith)
                requires frame_abs_pcg == self.frame_chip_start as int / 1536;
        }
        let frame_end: u64 = frame_abs_pcg + PCGS_PER_FRAME as u64;
        let stop_pcg: u64 = if available_end < frame_end { available_end } else { frame_end };
        while next_pcg < stop_pcg
            invariant
                stop_pcg == stop,
                start <= next_pcg <= available_end,
                frame_abs_pcg <= start,
                available_end == frame_abs_pcg + pcgs_available,
                stop == if (available_end as int) < frame_abs_pcg + 16 { available_end as int } else { frame_abs_pcg + 16 },
                start < stop ==> next_pcg <= stop,
                start >= stop ==> next_pcg == start,
                frame_abs_pcg * 1536 <= self.frame_chip_start,
                self.frame_chip_start + 16 * 1536 <= u64::MAX,
                forall|i: int| 0 <= i < 16 ==> #[trigger] active_mask[i] == mask[i],
                mask == Seq::new(16, |i: int| pcg_active(rate, randomizer@, i)),
                ({
                    let pcgs = scheduled_pcgs(mask, start - frame_abs_pcg, next_pcg - frame_abs_pcg);
                    &&& out@.len() == pcgs.len()
                    &&& forall|k: int| 0 <= k < out@.len() ==> {
                        let chip = frame_abs_pcg * 1536 + pcgs[k] * 1536;
                        &&& (#[trigger] out@[k]).pcg_in_frame == pcgs[k]
                        &&& out@[k].measurement_abs_chip == chip
                        &&& out@[k].age_chips == if processing_end >= chip { processing_end - chip } else { 0 }
                    }
                }),
            decreases available_end - next_pcg,
        {
            let pcg_in_frame = (next_pcg - frame_abs_pcg) as usize;
            proof {
                lemma_scheduled_step(mask, start - frame_abs_pcg, pcg_in_frame as int, stop - frame_abs_pcg);
            }
            next_pcg += 1;
            if !active_mask[pcg_in_frame] {
                continue;
            }
            let measurement_abs_chip = frame_abs_pcg * PCG_CHIPS as u64 + pcg_in_frame as u64 * PCG_CHIPS as u64;
            let age_chips = processing_end.saturating_sub(measurement_abs_chip);
            out.push(PcgMeasurement { pcg_in_frame, measurement_abs_chip, age_chips });
        }
        self.next_measurement_abs_pcg = Some(next_pcg);
        out
    }
}

} // verus!
