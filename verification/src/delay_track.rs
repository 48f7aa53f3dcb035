//! Whole-chip delay tracking of a non-pilot finger: which power control
//! groups feed the delay profile, and when the prompt moves onto the delay
//! hypothesis carrying the peak.
//!
//! The profile itself (one power per hypothesis, `2 * DELAY_PROFILE_HALF_CHIPS
//! + 1` of them) is the caller's; this type is told which hypothesis is
//! strongest and whether it beats the prompt by the tracking margin.
use vstd::prelude::*;

verus! {

/// Chips in one power control group.
pub const DELAY_GATE_PCG_CHIPS: usize = 1536;
/// Hypotheses on each side of the prompt, one chip apart.
pub const DELAY_PROFILE_HALF_CHIPS: usize = 4;
/// Hypotheses in the profile.
pub const DELAY_PROFILE_TAPS: usize = 9;
/// Transmitted groups averaged before the profile is trusted.
pub const DELAY_TRACK_WARMUP_PCGS: usize = 8;
/// Groups of a frame admitted to the profile.
pub const DELAY_TRACK_PCGS_PER_FRAME: usize = 2;
/// Groups in a frame.
pub const DELAY_TRACK_PCGS_PER_FRAME_TOTAL: usize = 16;
/// Groups to settle after a move before the next one.
pub const DELAY_TRACK_MIN_PCGS_BETWEEN_MOVES: usize = 16;
/// Largest total move, in chips, away from where the finger acquired.
pub const DELAY_TRACK_MAX_TOTAL_CHIPS: i64 = 24;

/// What a tracking decision did.
#[derive(Debug, Clone, Copy, PartialEq, Eq, Structural)]
pub enum DelayDecision {
    /// Nothing: settling, warming up, the prompt is the peak or the peak
    /// does not beat it by the margin.
    Hold,
    /// The move would take the finger too far from where it acquired; the
    /// profile restarts and the finger stays.
    Refused { shift_chips: i64 },
    /// The prompt moves by this many chips; the profile restarts.
    Moved { shift_chips: i64 },
}

pub struct DelayTracker {
    pub enabled: bool,
    /// Transmitted groups averaged into the profile since it last restarted.
    pub pcgs: usize,
    /// Total move so far, in chips.
    pub total_chips: i64,
    /// Received-sample shift waiting to be applied to the prompt.
    pub slew_pending: Option<i64>,
    /// Transmitted groups since the last move.
    pub pcgs_since_move: usize,
    /// Frame of the group in progress, and groups of it admitted.
    pub frame: usize,
    pub frame_pcgs: usize,
    /// Whether the group in progress was admitted.
    pub pcg_counted: bool,
}

impl DelayTracker {
    /// The total move stays within its limit, and no frame admits more
    /// groups than its quota.
    pub open spec fn wf(&self) -> bool {
        &&& -DELAY_TRACK_MAX_TOTAL_CHIPS <= self.total_chips <= DELAY_TRACK_MAX_TOTAL_CHIPS
        &&& self.frame_pcgs <= DELAY_TRACK_PCGS_PER_FRAME
    }

    pub fn new(enabled: bool) -> (t: Self)
        ensures
            t.wf(),
            t.enabled == enabled,
            t.pcgs == 0 && t.total_chips == 0 && t.slew_pending.is_none(),
            t.pcgs_since_move == DELAY_TRACK_MIN_PCGS_BETWEEN_MOVES,
            t.frame == usize::MAX && t.frame_pcgs == 0 && !t.pcg_counted,
    {
        DelayTracker {
            enabled,
            pcgs: 0,
            total_chips: 0,
            slew_pending: None,
            pcgs_since_move: DELAY_TRACK_MIN_PCGS_BETWEEN_MOVES,
            frame: usize::MAX,
            frame_pcgs: 0,
            pcg_counted: false,
        }
    }

    /// Open the group starting at transmitted chip `chip_tx`; a new frame
    /// renews the quota.
    pub fn start_pcg(&mut self, chip_tx: usize)
        requires
            old(self).wf(),
        ensures
            final(self).wf(),
            final(self).frame == chip_tx / 24576,
            final(self).frame_pcgs == if chip_tx / 24576 == old(self).frame { old(self).frame_pcgs } else { 0 },
            !final(self).pcg_counted,
            final(self).pcgs == old(self).pcgs,
            final(self).total_chips == old(self).total_chips,
            final(self).pcgs_since_move == old(self).pcgs_since_move,
            final(self).slew_pending == old(self).slew_pending,
            final(self).enabled == old(self).enabled,
    {
        let frame = chip_tx / (DELAY_GATE_PCG_CHIPS * DELAY_TRACK_PCGS_PER_FRAME_TOTAL);
        if frame != self.frame {
            self.frame = frame;
            self.frame_pcgs = 0;
        }
        self.pcg_counted = false;
    }

    /// Whether the group in progress may feed the profile: it takes a slot of
    /// the frame's quota the first time it is admitted.
    pub fn frame_quota_available(&mut self) -> (b: bool)
        requires
            old(self).wf(),
        ensures
            final(self).wf(),
            b == (old(self).pcg_counted || old(self).frame_pcgs < DELAY_TRACK_PCGS_PER_FRAME),
            final(self).pcg_counted == b,
            final(self).frame_pcgs == if !old(self).pcg_counted && b { old(self).frame_pcgs + 1 } else { old(self).frame_pcgs as int },
            final(self).frame == old(self).frame,
            final(self).pcgs == old(self).pcgs,
            final(self).total_chips == old(self).total_chips,
            final(self).pcgs_since_move == old(self).pcgs_since_move,
            final(self).slew_pending == old(self).slew_pending,
            final(self).enabled == old(self).enabled,
    {
        if self.pcg_counted {
            return true;
        }
        if self.frame_pcgs >= DELAY_TRACK_PCGS_PER_FRAME {
            return false;
        }
        self.frame_pcgs = self.frame_pcgs + 1;
        self.pcg_counted = true;
        true
    }

    /// The decision on a profile whose strongest hypothesis is `best_tap`,
    /// with `beats_margin` whether it beats the prompt by the margin, for a
    /// finger oversampled by `oversample`.
    pub open spec fn spec_decide(&self, best_tap: int, beats_margin: bool) -> DelayDecision {
        let shift = best_tap - DELAY_PROFILE_HALF_CHIPS;
        let total = self.total_chips + shift;
        if self.pcgs_since_move < DELAY_TRACK_MIN_PCGS_BETWEEN_MOVES || shift == 0 || !beats_margin {
            DelayDecision::Hold
        } else if total > DELAY_TRACK_MAX_TOTAL_CHIPS || total < -DELAY_TRACK_MAX_TOTAL_CHIPS {
            DelayDecision::Refused { shift_chips: shift as i64 }
        } else {
            DelayDecision::Moved { shift_chips: shift as i64 }
        }
    }

    /// The tracker after decision `d`: a move sets the pending slew of
    /// `shift * oversample` samples, adds the shift to the total and restarts
    /// the profile and the settling count; a refusal restarts the profile.
    pub open spec fn after_decision(&self, d: DelayDecision, oversample: int) -> DelayTracker {
        match d {
            DelayDecision::Hold => *self,
            DelayDecision::Refused { .. } => DelayTracker { pcgs: 0, ..*self },
            DelayDecision::Moved { shift_chips } => DelayTracker {
                slew_pending: Some((shift_chips * oversample) as i64),
                total_chips: (self.total_chips + shift_chips) as i64,
                pcgs: 0,
                pcgs_since_move: 0,
                ..*self
            },
        }
    }

    /// Decide on the profile: move the prompt by whole chips onto the peak,
    /// unless settling, the prompt is the peak, the peak is within the margin,
    /// or the move would exceed the total excursion limit (then the profile
    /// restarts without a move).
    pub fn decide(&mut self, best_tap: usize, beats_margin: bool, oversample: usize) -> (d: DelayDecision)
        requires
            old(self).wf(),
            best_tap < DELAY_PROFILE_TAPS,
            1 <= oversample <= 32768,
        ensures
            final(self).wf(),
            d == old(self).spec_decide(best_tap as int, beats_margin),
            *final(self) == old(self).after_decision(d, oversample as int),
    {
        if self.pcgs_since_move < DELAY_TRACK_MIN_PCGS_BETWEEN_MOVES {
            return DelayDecision::Hold;
        }
        let shift: i64 = best_tap as i64 - DELAY_PROFILE_HALF_CHIPS as i64;
        if shift == 0 || !beats_margin {
            return DelayDecision::Hold;
        }
        let total = self.total_chips + shift;
        if total > DELAY_TRACK_MAX_TOTAL_CHIPS || total < -DELAY_TRACK_MAX_TOTAL_CHIPS {
            self.pcgs = 0;
            return DelayDecision::Refused { shift_chips: shift };
        }
        let os = oversample as i64;
        assert(-4 * 32768 <= shift * os <= 4 * 32768) by (nonlinear_arith)
            requires -4 <= shift <= 4, 1 <= os <= 32768 {}
        self.slew_pending = Some(shift * os);
        self.total_chips = total;
        self.pcgs = 0;
        self.pcgs_since_move = 0;
        DelayDecision::Moved { shift_chips: shift }
    }

    /// A group in which the mobile transmitted was folded into the profile:
    /// count it, and once the profile is warm decide on it.
    pub fn commit_on_pcg(&mut self, best_tap: usize, beats_margin: bool, oversample: usize) -> (d: DelayDecision)
        requires
            old(self).wf(),
            old(self).pcgs < usize::MAX,
            best_tap < DELAY_PROFILE_TAPS,
            1 <= oversample <= 32768,
        ensures
            final(self).wf(),
            ({
                let counted = DelayTracker {
                    pcgs: (old(self).pcgs + 1) as usize,
                    pcgs_since_move: if old(self).pcgs_since_move == usize::MAX { usize::MAX } else { (old(self).pcgs_since_move + 1) as usize },
                    ..*old(self)
                };
                if old(self).enabled && counted.pcgs >= DELAY_TRACK_WARMUP_PCGS {
                    &&& d == counted.spec_decide(best_tap as int, beats_margin)
                    &&& *final(self) == counted.after_decision(d, oversample as int)
                } else {
                    d == DelayDecision::Hold && *final(self) == counted
                }
            }),
            d == DelayDecision::Hold ==> final(self).pcgs == old(self).pcgs + 1,
            final(self).enabled == old(self).enabled,
            final(self).frame == old(self).frame,
            final(self).frame_pcgs == old(self).frame_pcgs,
            final(self).pcg_counted == old(self).pcg_counted,
    {
        self.pcgs = self.pcgs + 1;
        self.pcgs_since_move = self.pcgs_since_move.saturating_add(1);
        if self.enabled && self.pcgs >= DELAY_TRACK_WARMUP_PCGS {
            self.decide(best_tap, beats_margin, oversample)
        } else {
            DelayDecision::Hold
        }
    }

    /// Forget the profile and any pending move (the sample origin moved).
    pub fn reset(&mut self)
        ensures
            *final(self) == (DelayTracker { pcgs: 0, slew_pending: None, ..*old(self) }),
    {
        self.pcgs = 0;
        self.slew_pending = None;
    }

    /// Take the pending move, if any.
    pub fn take_slew(&mut self) -> (s: Option<i64>)
        ensures
            s == old(self).slew_pending,
            *final(self) == (DelayTracker { slew_pending: None, ..*old(self) }),
    {
        let s = self.slew_pending;
        self.slew_pending = None;
        s
    }
}

/// The total move of a tracker never leaves the excursion limit, whatever
/// the profile says: every decision keeps it.
pub proof fn lemma_excursion_bounded(t: DelayTracker, best_tap: int, beats_margin: bool)
    requires
        t.wf(),
        0 <= best_tap < DELAY_PROFILE_TAPS,
    ensures
        match t.spec_decide(best_tap, beats_margin) {
            DelayDecision::Moved { shift_chips } => {
                &&& -DELAY_TRACK_MAX_TOTAL_CHIPS <= t.total_chips + shift_chips <= DELAY_TRACK_MAX_TOTAL_CHIPS
                &&& shift_chips != 0
                &&& -(DELAY_PROFILE_HALF_CHIPS as int) <= shift_chips <= DELAY_PROFILE_HALF_CHIPS
            },
            _ => true,
        },
{
}

} // verus!
