//! Chip-time scheduling inside a PN×LC finger: the PN and long-code cursor,
//! whose output is enabled from the finger's first chip on, and the window
//! that measures each power control group, with its pilot and traffic
//! symbol boundaries.
//!
//! The samples, the interpolation and the measured powers are the caller's;
//! these types say which chip is which.
use vstd::prelude::*;

verus! {

/// Chips in a power control group.
pub const RC3_PCG_CHIPS: usize = 1536;
/// Chips in a pilot symbol.
pub const RC3_PILOT_SYMBOL_CHIPS: usize = 16;
/// Leading chips of a power control group that carry the pilot.
pub const RC3_PILOT_CHIPS_PER_PCG: usize = 1152;
/// Chips of the traffic Walsh cover.
pub const TRAFFIC_WALSH_CHIPS: usize = 16;

/// Whether the 16-chip symbol starting at transmitted chip `symbol_start` is a
/// pilot symbol (it lies in the pilot part of its power control group).
pub fn is_pilot_symbol(symbol_start: usize) -> (b: bool)
    ensures
        b == (symbol_start % 1536 < 1152),
{
    symbol_start % RC3_PCG_CHIPS < RC3_PILOT_CHIPS_PER_PCG
}

/// Whether the mobile transmits its pilot in power control group `abs_pcg`:
/// always, unless pilot gating is on, which keeps the last two of every four.
pub fn pilot_pcg_transmitted(gating_mode: bool, abs_pcg: usize) -> (b: bool)
    ensures
        b == (!gating_mode || abs_pcg % 4 >= 2),
{
    !gating_mode || abs_pcg % 4 >= 2
}

/// The PN and long-code cursor of a finger: the PN phase (in samples) of the
/// next prompt, the transmitted chip the long code is at, and whether the
/// chip just entered is at or after the chain start chip.
pub struct ChipCursor {
    pub despread_phase: usize,
    pub phase_period: usize,
    pub lc_chip_counter: usize,
    pub chain_start_chip: usize,
    pub chip_enabled: bool,
}

impl ChipCursor {
    pub open spec fn wf(&self) -> bool {
        &&& 0 < self.phase_period <= 0x4000_0000
        &&& self.despread_phase < self.phase_period
    }

    /// A cursor at PN phase `despread_phase` and transmitted chip `lc_chip`
    /// whose output opens at `chain_start_chip`.
    pub fn new(despread_phase: usize, phase_period: usize, lc_chip: usize, chain_start_chip: usize) -> (c: Self)
        requires
            0 < phase_period <= 0x4000_0000,
            despread_phase < phase_period,
        ensures
            c.wf(),
            c.despread_phase == despread_phase,
            c.phase_period == phase_period,
            c.lc_chip_counter == lc_chip,
            c.chain_start_chip == chain_start_chip,
            !c.chip_enabled,
    {
        ChipCursor { despread_phase, phase_period, lc_chip_counter: lc_chip, chain_start_chip, chip_enabled: false }
    }

    /// The long code moves to the next chip: returns the transmitted chip
    /// entered, and the output is enabled from the chain start chip on.
    pub fn enter_chip(&mut self) -> (chip_tx: usize)
        requires
            old(self).wf(),
            old(self).lc_chip_counter < usize::MAX,
        ensures
            final(self).wf(),
            chip_tx == old(self).lc_chip_counter,
            final(self).lc_chip_counter == old(self).lc_chip_counter + 1,
            final(self).chip_enabled == (chip_tx >= old(self).chain_start_chip),
            final(self).despread_phase == old(self).despread_phase,
            final(self).phase_period == old(self).phase_period,
            final(self).chain_start_chip == old(self).chain_start_chip,
    {
        let chip_tx = self.lc_chip_counter;
        self.chip_enabled = chip_tx >= self.chain_start_chip;
        self.lc_chip_counter = chip_tx + 1;
        chip_tx
    }

    /// The PN phase moves by `step` samples (the oversampling, plus any
    /// whole-sample timing slew), around the PN period.
    pub fn step_phase(&mut self, step: i64)
        requires
            old(self).wf(),
            -(old(self).phase_period as int) <= step <= old(self).phase_period,
        ensures
            final(self).wf(),
            final(self).despread_phase == (old(self).despread_phase + step) % (old(self).phase_period as int),
            final(self).lc_chip_counter == old(self).lc_chip_counter,
            final(self).chip_enabled == old(self).chip_enabled,
            final(self).phase_period == old(self).phase_period,
            final(self).chain_start_chip == old(self).chain_start_chip,
    {
        let pp = self.phase_period;
        let dp = self.despread_phase;
        if step >= 0 {
            let s = step as usize;
            self.despread_phase = (dp + s) % pp;
        } else {
            let back = ((-step) as usize) % pp;
            self.despread_phase = (dp + pp - back) % pp;
            proof {
                let n = (-step) as int;
                assert(back == n % (pp as int));
                vstd::arithmetic::div_mod::lemma_fundamental_div_mod(n, pp as int);
                let q = n / (pp as int);
                assert(dp + pp - back == (dp - n) + (pp as int) * (q + 1)) by (nonlinear_arith)
                    requires n == (pp as int) * q + back {}
                vstd::arithmetic::div_mod::lemma_mod_multiples_vanish(q + 1, dp - n, pp as int);
            }
        }
    }
}

/// What a chip means for the power control group measurement.
#[derive(Debug, Clone, Copy, PartialEq, Eq, Structural)]
pub enum PcgChipRole {
    /// The finger's output is closed: the measurement restarts and its
    /// smoothing history is no longer meaningful.
    Reset,
    /// Before the first group boundary: the chip is not measured.
    Skip,
    /// The chip is measured. `walsh_index` is its place under the traffic
    /// Walsh cover, `pilot` whether it is a pilot chip; a symbol that ends
    /// here is reported, and the group when it is complete (starting at
    /// `pcg_start`, with `pilot_symbols` pilot symbols); the window then
    /// restarts.
    Measure {
        walsh_index: usize,
        pilot: bool,
        traffic_symbol_done: bool,
        pilot_symbol_done: bool,
        pcg_done: bool,
        pcg_start: Option<u64>,
        pilot_symbols: usize,
    },
}

/// The chips of the current power control group measured so far.
pub struct PcgWindow {
    pub abs_chip_start: Option<u64>,
    pub chip_count: usize,
    pub pilot_chip_idx: usize,
    pub traffic_chip_idx: usize,
    pub pilot_symbols: usize,
}

pub open spec fn min(a: int, b: int) -> int {
    if a <= b { a } else { b }
}

impl PcgWindow {
    /// The counters follow the chips measured: a window that started on a
    /// group boundary holds `chip_count` chips of the group, of which the
    /// first 1152 are pilot chips.
    pub open spec fn wf(&self) -> bool {
        &&& self.chip_count < RC3_PCG_CHIPS
        &&& (self.chip_count == 0) == self.abs_chip_start.is_none()
        &&& self.abs_chip_start matches Some(s) ==> s % 1536 == 0
        &&& self.traffic_chip_idx == self.chip_count % 16
        &&& self.pilot_chip_idx == min(self.chip_count as int, 1152) % 16
        &&& self.pilot_symbols == min(self.chip_count as int, 1152) / 16
    }

    pub fn new() -> (w: Self)
        ensures
            w.wf(),
            w.chip_count == 0,
    {
        PcgWindow { abs_chip_start: None, chip_count: 0, pilot_chip_idx: 0, traffic_chip_idx: 0, pilot_symbols: 0 }
    }

    /// Take in transmitted chip `chip_tx`, with `enabled` whether the
    /// finger's output is open at it.
    pub fn on_chip(&mut self, chip_tx: usize, enabled: bool) -> (role: PcgChipRole)
        requires
            old(self).wf(),
        ensures
            final(self).wf(),
            !enabled ==> role == PcgChipRole::Reset && final(self).chip_count == 0,
            enabled && old(self).chip_count == 0 && chip_tx % 1536 != 0 ==>
                role == PcgChipRole::Skip && final(self).chip_count == 0,
            enabled && (old(self).chip_count > 0 || chip_tx % 1536 == 0) ==> {
                let c = old(self).chip_count as int;
                let done = c + 1 == 1536;
                let start = if c == 0 { Some(chip_tx as u64) } else { old(self).abs_chip_start };
                &&& role == (PcgChipRole::Measure {
                    walsh_index: (c % 16) as usize,
                    pilot: c < 1152,
                    traffic_symbol_done: (c + 1) % 16 == 0,
                    pilot_symbol_done: c < 1152 && (c + 1) % 16 == 0,
                    pcg_done: done,
                    pcg_start: start,
                    pilot_symbols: (min(c + 1, 1152) / 16) as usize,
                })
                &&& final(self).chip_count == if done { 0 } else { c + 1 }
                &&& !done ==> final(self).abs_chip_start == start
            },
    {
        if !enabled {
            *self = PcgWindow::new();
            return PcgChipRole::Reset;
        }
        if self.chip_count == 0 {
            if chip_tx % RC3_PCG_CHIPS != 0 {
                return PcgChipRole::Skip;
            }
            self.abs_chip_start = Some(chip_tx as u64);
        }
        let c = self.chip_count;
        let walsh_index = c % TRAFFIC_WALSH_CHIPS;
        self.traffic_chip_idx = self.traffic_chip_idx + 1;
        let traffic_symbol_done = self.traffic_chip_idx == TRAFFIC_WALSH_CHIPS;
        if traffic_symbol_done {
            self.traffic_chip_idx = 0;
        }
        let pilot = c < RC3_PILOT_CHIPS_PER_PCG;
        if pilot {
            self.pilot_chip_idx = self.pilot_chip_idx + 1;
        }
        self.chip_count = c + 1;
        let pilot_symbol_done = self.pilot_chip_idx >= RC3_PILOT_SYMBOL_CHIPS;
        if pilot_symbol_done {
            self.pilot_symbols = self.pilot_symbols + 1;
            self.pilot_chip_idx = 0;
        }
        let pcg_done = self.chip_count >= RC3_PCG_CHIPS;
        let pcg_start = self.abs_chip_start;
        let pilot_symbols = self.pilot_symbols;
        proof {
            assert(pilot_symbol_done == (c < 1152 && (c + 1) % 16 == 0));
            assert(pilot_symbols == min(c + 1, 1152) / 16);
        }
        if pcg_done {
            *self = PcgWindow::new();
        }
        PcgChipRole::Measure {
            walsh_index,
            pilot,
            traffic_symbol_done,
            pilot_symbol_done,
            pcg_done,
            pcg_start,
            pilot_symbols,
        }
    }
}

/// A completed group measurement starts on a group boundary and holds all
/// 72 pilot symbols of the group.
pub proof fn lemma_completed_group_is_whole(w: PcgWindow)
    requires
        w.wf(),
        w.chip_count == 1535,
    ensures
        w.abs_chip_start matches Some(s) && s % 1536 == 0,
        min(w.chip_count + 1, 1152) / 16 == 72,
{
}

} // verus!
