//! Paging channel half-frame bookkeeping: polarity hysteresis, idle
//! half-frame checks and the half-frame timeline.
//!
//! Two frame readers run on the two polarities of the Viterbi output; the
//! caller keeps their decaying scores and reports whether the inactive
//! polarity is ahead by more than the switch threshold. This module decides
//! when the active polarity flips, and checks idle half-frames.
use vstd::prelude::*;
use crate::mobile_station::PagingRate;

verus! {

/// Frames of confirmation needed before a switch.
pub const SWITCH_CONFIRM_FRAMES: usize = 1;
/// Frames during which no further switch is considered.
pub const SWITCH_HOLDOFF_FRAMES: usize = 12;

#[derive(Debug, Clone, Copy, PartialEq, Eq, Structural)]
pub enum Polarity {
    Normal,
    Inverted,
}

pub open spec fn other(p: Polarity) -> Polarity {
    match p {
        Polarity::Normal => Polarity::Inverted,
        Polarity::Inverted => Polarity::Normal,
    }
}

/// Half-frame length in bits at a paging rate.
pub fn half_frame_bits(rate: PagingRate) -> (n: usize)
    ensures
        n == match rate {
            PagingRate::Rate4800 => 48usize,
            PagingRate::Rate9600 => 96usize,
        },
{
    match rate {
        PagingRate::Rate4800 => 48,
        PagingRate::Rate9600 => 96,
    }
}

pub open spec fn ones(bits: Seq<u8>) -> nat
    decreases bits.len(),
{
    if bits.len() == 0 { 0 } else { ones(bits.drop_last()) + if bits.last() == 1 { 1nat } else { 0nat } }
}

/// Number of bits equal to one.
pub fn count_ones(bits: &[u8]) -> (n: usize)
    ensures
        n == ones(bits@),
{
    let mut n: usize = 0;
    let mut i: usize = 0;
    while i < bits.len()
        invariant
            i <= bits@.len(),
            n == ones(bits@.subrange(0, i as int)),
            n <= i,
        decreases bits@.len() - i,
    {
        assert(bits@.subrange(0, i as int + 1).drop_last() =~= bits@.subrange(0, i as int));
        if bits[i] == 1 {
            n += 1;
        }
        i += 1;
    }
    assert(bits@.subrange(0, bits@.len() as int) =~= bits@);
    n
}

/// Bit errors of a half-frame: one-bits in the body of an idle half-frame
/// (start-of-message indicator clear, no message in progress); zero for a
/// message start or continuation, which the CRC checks instead.
pub fn validate_half_frame(bits: &[u8], reader_in_message: bool) -> (errors: usize)
    requires
        bits@.len() >= 1,
    ensures
        errors == if bits@[0] == 1 || reader_in_message { 0 } else { ones(bits@.subrange(1, bits@.len() as int)) },
{
    if bits[0] == 1 {
        return 0;
    }
    if reader_in_message {
        return 0;
    }
    let mut body: Vec<u8> = Vec::new();
    let mut i: usize = 1;
    while i < bits.len()
        invariant
            1 <= i <= bits@.len(),
            body@ == bits@.subrange(1, i as int),
        decreases bits@.len() - i,
    {
        body.push(bits[i]);
        i += 1;
    }
    count_ones(&body)
}

/// The bits with every bit flipped (the other polarity).
pub fn invert_bits(bits: &[u8]) -> (out: Vec<u8>)
    ensures
        out@.len() == bits@.len(),
        forall|i: int| 0 <= i < bits@.len() ==> #[trigger] out@[i] == bits@[i] ^ 1u8,
{
    let mut out: Vec<u8> = Vec::new();
    let mut i: usize = 0;
    while i < bits.len()
        invariant
            i <= bits@.len(),
            out@.len() == i,
            forall|k: int| 0 <= k < i ==> #[trigger] out@[k] == bits@[k] ^ 1u8,
        decreases bits@.len() - i,
    {
        out.push(bits[i] ^ 1);
        i += 1;
    }
    out
}


/// What the two frame readers made of one half-frame, with the score
/// comparisons the caller made after updating the polarity scores.
#[derive(Debug, Clone, Copy, PartialEq, Eq, Structural)]
pub struct HalfFrameInput {
    /// Start-of-message indicator (first bit) on each polarity.
    pub normal_sci: u8,
    pub inverted_sci: u8,
    /// Whether each reader was inside a message before this half-frame.
    pub normal_in_msg: bool,
    pub inverted_in_msg: bool,
    /// Messages each reader completed, and whether any had a valid CRC.
    pub normal_frames: usize,
    pub inverted_frames: usize,
    pub normal_crc_valid: bool,
    pub inverted_crc_valid: bool,
    /// The inverted score exceeds the normal one.
    pub inverted_scores_higher: bool,
    /// Each score leads the other by more than the switch threshold.
    pub normal_leads: bool,
    pub inverted_leads: bool,
}

/// A switch may happen where the active polarity starts a message, or
/// where neither reader is inside one.
pub open spec fn spec_safe_boundary(active: Option<Polarity>, h: HalfFrameInput) -> bool {
    match active {
        Some(Polarity::Normal) => h.normal_sci == 1 || (!h.normal_in_msg && !h.inverted_in_msg),
        Some(Polarity::Inverted) => h.inverted_sci == 1 || (!h.normal_in_msg && !h.inverted_in_msg),
        None => true,
    }
}

pub fn safe_switch_boundary(active: Option<Polarity>, h: HalfFrameInput) -> (b: bool)
    ensures
        b == spec_safe_boundary(active, h),
{
    match active {
        Some(Polarity::Normal) => h.normal_sci == 1 || (!h.normal_in_msg && !h.inverted_in_msg),
        Some(Polarity::Inverted) => h.inverted_sci == 1 || (!h.normal_in_msg && !h.inverted_in_msg),
        None => true,
    }
}

pub open spec fn crc_of(p: Polarity, h: HalfFrameInput) -> bool {
    match p { Polarity::Normal => h.normal_crc_valid, Polarity::Inverted => h.inverted_crc_valid }
}

pub open spec fn frames_of(p: Polarity, h: HalfFrameInput) -> usize {
    match p { Polarity::Normal => h.normal_frames, Polarity::Inverted => h.inverted_frames }
}

/// Whose messages are emitted: none when both readers completed messages
/// and none has a valid CRC; else the preferred polarity's if CRC-valid,
/// else the other's if CRC-valid, else the first non-empty of the preferred
/// and the other (only CRC-valid messages become events).
pub open spec fn spec_chosen(preferred: Polarity, h: HalfFrameInput) -> Option<Polarity> {
    let both_bad = h.normal_frames > 0 && h.inverted_frames > 0 && !h.normal_crc_valid && !h.inverted_crc_valid;
    if both_bad {
        None
    } else if crc_of(preferred, h) {
        Some(preferred)
    } else if crc_of(other(preferred), h) {
        Some(other(preferred))
    } else if frames_of(preferred, h) > 0 {
        Some(preferred)
    } else if frames_of(other(preferred), h) > 0 {
        Some(other(preferred))
    } else {
        None
    }
}

pub fn chosen_frames(preferred: Polarity, h: HalfFrameInput) -> (c: Option<Polarity>)
    ensures
        c == spec_chosen(preferred, h),
{
    let other_pol = match preferred { Polarity::Normal => Polarity::Inverted, Polarity::Inverted => Polarity::Normal };
    let both_bad = h.normal_frames > 0 && h.inverted_frames > 0 && !h.normal_crc_valid && !h.inverted_crc_valid;
    if both_bad {
        return None;
    }
    let crc = |p: Polarity| -> (b: bool)
        ensures b == crc_of(p, h)
    {
        match p { Polarity::Normal => h.normal_crc_valid, Polarity::Inverted => h.inverted_crc_valid }
    };
    let frames = |p: Polarity| -> (n: usize)
        ensures n == frames_of(p, h)
    {
        match p { Polarity::Normal => h.normal_frames, Polarity::Inverted => h.inverted_frames }
    };
    if crc(preferred) {
        Some(preferred)
    } else if crc(other_pol) {
        Some(other_pol)
    } else if frames(preferred) > 0 {
        Some(preferred)
    } else if frames(other_pol) > 0 {
        Some(other_pol)
    } else {
        None
    }
}

/// Half-frame counts of the paging processor.
pub struct HalfFrameStats {
    pub total_half_frames: usize,
    pub good_half_frames: usize,
    pub bad_half_frames: usize,
    pub total_bit_errors: usize,
}

impl HalfFrameStats {
    pub fn new() -> (s: Self)
        ensures
            s.total_half_frames == 0 && s.good_half_frames == 0 && s.bad_half_frames == 0 && s.total_bit_errors == 0,
    {
        HalfFrameStats { total_half_frames: 0, good_half_frames: 0, bad_half_frames: 0, total_bit_errors: 0 }
    }

    /// Count a half-frame by the errors of the cleaner polarity.
    pub fn record(&mut self, errs_normal: usize, errs_inverted: usize) -> (frame_num: usize)
        requires
            old(self).total_half_frames < usize::MAX,
            old(self).good_half_frames < usize::MAX,
            old(self).bad_half_frames < usize::MAX,
            old(self).total_bit_errors + errs_normal <= usize::MAX,
            old(self).total_bit_errors + errs_inverted <= usize::MAX,
        ensures
            frame_num == final(self).total_half_frames,
            final(self).total_half_frames == old(self).total_half_frames + 1,
            ({
                let e = if errs_normal <= errs_inverted { errs_normal } else { errs_inverted };
                if e > 0 {
                    &&& final(self).bad_half_frames == old(self).bad_half_frames + 1
                    &&& final(self).total_bit_errors == old(self).total_bit_errors + e
                    &&& final(self).good_half_frames == old(self).good_half_frames
                } else {
                    &&& final(self).good_half_frames == old(self).good_half_frames + 1
                    &&& final(self).bad_half_frames == old(self).bad_half_frames
                    &&& final(self).total_bit_errors == old(self).total_bit_errors
                }
            }),
    {
        self.total_half_frames = self.total_half_frames + 1;
        let e = if errs_normal <= errs_inverted { errs_normal } else { errs_inverted };
        if e > 0 {
            self.bad_half_frames = self.bad_half_frames + 1;
            self.total_bit_errors = self.total_bit_errors + e;
        } else {
            self.good_half_frames = self.good_half_frames + 1;
        }
        self.total_half_frames
    }
}

/// `a` is `b` after one half-frame of hysteresis (see
/// `maybe_switch_active_polarity`), with `switched` telling whether it flipped.
pub open spec fn switch_step(
    b: PolarityTracker,
    a: PolarityTracker,
    safe_switch_boundary: bool,
    normal_crc_valid: bool,
    inverted_crc_valid: bool,
    target_ahead: bool,
    switched: bool,
) -> bool {
    &&& (b.switch_holdoff > 0 ==> {
        &&& !switched
        &&& a.switch_holdoff == b.switch_holdoff - 1
        &&& a.active_polarity == b.active_polarity
        &&& a.switch_pending == b.switch_pending
        &&& a.switch_pending_count == b.switch_pending_count
    })
    &&& (b.switch_holdoff == 0 && b.active_polarity.is_none() ==> {
        &&& !switched
        &&& a.active_polarity.is_none()
        &&& a.switch_holdoff == 0
        &&& a.switch_pending == b.switch_pending
        &&& a.switch_pending_count == b.switch_pending_count
    })
    &&& (b.switch_holdoff == 0 && b.active_polarity.is_some() ==> {
        let active = b.active_polarity.unwrap();
        let target = other(active);
        let target_crc = if target == Polarity::Normal { normal_crc_valid } else { inverted_crc_valid };
        if !target_crc || !target_ahead {
            &&& !switched
            &&& a.switch_pending.is_none()
            &&& a.switch_pending_count == 0
            &&& a.active_polarity == b.active_polarity
            &&& a.switch_holdoff == 0
        } else if !safe_switch_boundary {
            &&& !switched
            &&& a.switch_pending == b.switch_pending
            &&& a.switch_pending_count == b.switch_pending_count
            &&& a.active_polarity == b.active_polarity
            &&& a.switch_holdoff == 0
        } else {
            let count = if b.switch_pending == Some(target) { b.switch_pending_count + 1 } else { 1 };
            if count >= SWITCH_CONFIRM_FRAMES {
                &&& switched
                &&& a.active_polarity == Some(target)
                &&& a.switch_pending.is_none()
                &&& a.switch_pending_count == 0
                &&& a.switch_holdoff == SWITCH_HOLDOFF_FRAMES
            } else {
                &&& !switched
                &&& a.switch_pending == Some(target)
                &&& a.switch_pending_count == count
                &&& a.active_polarity == b.active_polarity
            }
        }
    })
    &&& (a.polarity_switches == b.polarity_switches + if switched { 1int } else { 0int })
}

/// The hysteresis state of the active polarity.
pub struct PolarityTracker {
    pub active_polarity: Option<Polarity>,
    pub switch_pending: Option<Polarity>,
    pub switch_pending_count: usize,
    pub switch_holdoff: usize,
    pub polarity_switches: usize,
}

impl PolarityTracker {
    pub fn new() -> (t: Self)
        ensures
            t.active_polarity.is_none() && t.switch_pending.is_none(),
            t.switch_pending_count == 0 && t.switch_holdoff == 0 && t.polarity_switches == 0,
    {
        PolarityTracker {
            active_polarity: None,
            switch_pending: None,
            switch_pending_count: 0,
            switch_holdoff: 0,
            polarity_switches: 0,
        }
    }

    /// Make `pol` the active polarity (the first CRC-valid message fixes it).
    pub fn set_active_polarity(&mut self, pol: Polarity)
        ensures
            final(self).active_polarity == Some(pol),
            final(self).switch_pending == old(self).switch_pending,
            final(self).switch_pending_count == old(self).switch_pending_count,
            final(self).switch_holdoff == old(self).switch_holdoff,
            final(self).polarity_switches == old(self).polarity_switches,
    {
        self.active_polarity = Some(pol);
    }


    /// The polarity preferred now: the active one, else the better scored
    /// (normal on a tie).
    pub open spec fn preferred(&self, inverted_scores_higher: bool) -> Polarity {
        match self.active_polarity {
            Some(p) => p,
            None => if inverted_scores_higher { Polarity::Inverted } else { Polarity::Normal },
        }
    }

    /// Decide one half-frame after the scores were updated: the first
    /// half-frame where exactly one polarity yields a CRC-valid message fixes
    /// the active polarity; then the hysteresis may switch it; the result is
    /// whose messages are emitted (see `spec_chosen`) and whether it switched.
    pub fn half_frame_step(&mut self, h: HalfFrameInput) -> (r: (Option<Polarity>, bool))
        requires
            old(self).switch_pending_count < usize::MAX,
            old(self).polarity_switches < usize::MAX,
        ensures
            ({
                let locked = if old(self).active_polarity.is_none() && h.normal_crc_valid != h.inverted_crc_valid {
                    Some(if h.normal_crc_valid { Polarity::Normal } else { Polarity::Inverted })
                } else {
                    old(self).active_polarity
                };
                let mid = PolarityTracker { active_polarity: locked, ..*old(self) };
                let target_ahead = match locked {
                    Some(Polarity::Normal) => h.inverted_leads,
                    Some(Polarity::Inverted) => h.normal_leads,
                    None => false,
                };
                &&& switch_step(mid, *final(self), spec_safe_boundary(locked, h), h.normal_crc_valid,
                    h.inverted_crc_valid, target_ahead, r.1)
                &&& r.0 == spec_chosen(final(self).preferred(h.inverted_scores_higher), h)
            }),
    {
        if self.active_polarity.is_none() {
            if h.normal_crc_valid && !h.inverted_crc_valid {
                self.set_active_polarity(Polarity::Normal);
            } else if h.inverted_crc_valid && !h.normal_crc_valid {
                self.set_active_polarity(Polarity::Inverted);
            }
        }
        let safe = safe_switch_boundary(self.active_polarity, h);
        let target_ahead = match self.active_polarity {
            Some(Polarity::Normal) => h.inverted_leads,
            Some(Polarity::Inverted) => h.normal_leads,
            None => false,
        };
        let switched = self.maybe_switch_active_polarity(safe, h.normal_crc_valid, h.inverted_crc_valid, target_ahead);
        let preferred = match self.active_polarity {
            Some(p) => p,
            None => if h.inverted_scores_higher { Polarity::Inverted } else { Polarity::Normal },
        };
        (chosen_frames(preferred, h), switched)
    }

    /// One half-frame of hysteresis. The active polarity flips when no
    /// holdoff runs, the other polarity's reader produced a CRC-valid
    /// message, its score is ahead by more than the threshold
    /// (`target_ahead`), the frame is a safe switch boundary, and the switch
    /// was confirmed. A flip starts a holdoff of twelve half-frames.
    pub fn maybe_switch_active_polarity(
        &mut self,
        safe_switch_boundary: bool,
        normal_crc_valid: bool,
        inverted_crc_valid: bool,
        target_ahead: bool,
    ) -> (switched: bool)
        requires
            old(self).switch_pending_count < usize::MAX,
            old(self).polarity_switches < usize::MAX,
        ensures
            switch_step(*old(self), *final(self), safe_switch_boundary, normal_crc_valid, inverted_crc_valid,
                target_ahead, switched),
    {
        if self.switch_holdoff > 0 {
            self.switch_holdoff = self.switch_holdoff - 1;
            return false;
        }
        let active = match self.active_polarity {
            Some(a) => a,
            None => return false,
        };
        let target = match active {
            Polarity::Normal => Polarity::Inverted,
            Polarity::Inverted => Polarity::Normal,
        };
        let target_crc_valid = match target {
            Polarity::Normal => normal_crc_valid,
            Polarity::Inverted => inverted_crc_valid,
        };
        if !target_crc_valid {
            self.switch_pending = None;
            self.switch_pending_count = 0;
            return false;
        }
        if !target_ahead {
            self.switch_pending = None;
            self.switch_pending_count = 0;
            return false;
        }
        if !safe_switch_boundary {
            return false;
        }
        if self.switch_pending == Some(target) {
            self.switch_pending_count = self.switch_pending_count + 1;
        } else {
            self.switch_pending = Some(target);
            self.switch_pending_count = 1;
        }
        if self.switch_pending_count >= SWITCH_CONFIRM_FRAMES {
            self.active_polarity = Some(target);
            self.switch_pending = None;
            self.switch_pending_count = 0;
            self.switch_holdoff = SWITCH_HOLDOFF_FRAMES;
            self.polarity_switches = self.polarity_switches + 1;
            return true;
        }
        false
    }
}


proof fn lemma_holdoff_counts_down(
    ts: Seq<PolarityTracker>,
    safe: Seq<bool>,
    normal_crc: Seq<bool>,
    inverted_crc: Seq<bool>,
    ahead: Seq<bool>,
    switched: Seq<bool>,
    k: int,
)
    requires
        1 <= k <= SWITCH_HOLDOFF_FRAMES,
        ts.len() == SWITCH_HOLDOFF_FRAMES + 2,
        safe.len() == SWITCH_HOLDOFF_FRAMES + 1 && normal_crc.len() == SWITCH_HOLDOFF_FRAMES + 1,
        inverted_crc.len() == SWITCH_HOLDOFF_FRAMES + 1 && ahead.len() == SWITCH_HOLDOFF_FRAMES + 1,
        switched.len() == SWITCH_HOLDOFF_FRAMES + 1,
        forall|j: int| 0 <= j <= SWITCH_HOLDOFF_FRAMES ==>
            switch_step(#[trigger] ts[j], ts[j + 1], safe[j], normal_crc[j], inverted_crc[j], ahead[j], switched[j]),
        switched[0],
    ensures
        ts[k].switch_holdoff == SWITCH_HOLDOFF_FRAMES + 1 - k,
        !switched[k],
    decreases k,
{
    if k > 1 {
        lemma_holdoff_counts_down(ts, safe, normal_crc, inverted_crc, ahead, switched, k - 1);
        assert(switch_step(ts[k - 1], ts[k], safe[k - 1], normal_crc[k - 1], inverted_crc[k - 1], ahead[k - 1], switched[k - 1]));
    } else {
        assert(switch_step(ts[0], ts[1], safe[0], normal_crc[0], inverted_crc[0], ahead[0], switched[0]));
    }
    assert(switch_step(ts[k], ts[k + 1], safe[k], normal_crc[k], inverted_crc[k], ahead[k], switched[k]));
}

/// After the active polarity flips, it cannot flip again during the next
/// twelve half-frames, whatever they bring.
pub proof fn lemma_switch_holdoff(
    ts: Seq<PolarityTracker>,
    safe: Seq<bool>,
    normal_crc: Seq<bool>,
    inverted_crc: Seq<bool>,
    ahead: Seq<bool>,
    switched: Seq<bool>,
)
    requires
        ts.len() == SWITCH_HOLDOFF_FRAMES + 2,
        safe.len() == SWITCH_HOLDOFF_FRAMES + 1 && normal_crc.len() == SWITCH_HOLDOFF_FRAMES + 1,
        inverted_crc.len() == SWITCH_HOLDOFF_FRAMES + 1 && ahead.len() == SWITCH_HOLDOFF_FRAMES + 1,
        switched.len() == SWITCH_HOLDOFF_FRAMES + 1,
        forall|j: int| 0 <= j <= SWITCH_HOLDOFF_FRAMES ==>
            switch_step(#[trigger] ts[j], ts[j + 1], safe[j], normal_crc[j], inverted_crc[j], ahead[j], switched[j]),
        switched[0],
    ensures
        forall|k: int| 1 <= k <= SWITCH_HOLDOFF_FRAMES ==> !#[trigger] switched[k],
        ts[SWITCH_HOLDOFF_FRAMES + 1].active_polarity == ts[1].active_polarity,
{
    assert forall|k: int| 1 <= k <= SWITCH_HOLDOFF_FRAMES implies !#[trigger] switched[k] by {
        lemma_holdoff_counts_down(ts, safe, normal_crc, inverted_crc, ahead, switched, k);
    }
    lemma_active_kept(ts, safe, normal_crc, inverted_crc, ahead, switched, SWITCH_HOLDOFF_FRAMES as int + 1);
}

proof fn lemma_active_kept(
    ts: Seq<PolarityTracker>,
    safe: Seq<bool>,
    normal_crc: Seq<bool>,
    inverted_crc: Seq<bool>,
    ahead: Seq<bool>,
    switched: Seq<bool>,
    k: int,
)
    requires
        1 <= k <= SWITCH_HOLDOFF_FRAMES + 1,
        ts.len() == SWITCH_HOLDOFF_FRAMES + 2,
        safe.len() == SWITCH_HOLDOFF_FRAMES + 1 && normal_crc.len() == SWITCH_HOLDOFF_FRAMES + 1,
        inverted_crc.len() == SWITCH_HOLDOFF_FRAMES + 1 && ahead.len() == SWITCH_HOLDOFF_FRAMES + 1,
        switched.len() == SWITCH_HOLDOFF_FRAMES + 1,
        forall|j: int| 0 <= j <= SWITCH_HOLDOFF_FRAMES ==>
            switch_step(#[trigger] ts[j], ts[j + 1], safe[j], normal_crc[j], inverted_crc[j], ahead[j], switched[j]),
        switched[0],
    ensures
        ts[k].active_polarity == ts[1].active_polarity,
    decreases k,
{
    if k > 1 {
        lemma_active_kept(ts, safe, normal_crc, inverted_crc, ahead, switched, k - 1);
        lemma_holdoff_counts_down(ts, safe, normal_crc, inverted_crc, ahead, switched, k - 1);
        assert(switch_step(ts[k - 1], ts[k], safe[k - 1], normal_crc[k - 1], inverted_crc[k - 1], ahead[k - 1], switched[k - 1]));
    }
}


/// `h` bits of `bits` from `start`, each flipped when `invert`.
pub open spec fn alignment_chunk(bits: Seq<u8>, start: int, h: int, invert: bool) -> Seq<u8> {
    Seq::new(h as nat, |i: int| if invert { bits[start + i] ^ 1u8 } else { bits[start + i] })
}

/// Integer state of the paging channel processor; the two frame readers
/// and the float polarity scores are the caller's.
pub struct PagingChannelProcessor {
    pub half_frame_bits: usize,
    /// Chip at which the next half-frame starts.
    pub next_chip: usize,
    pub chips_per_bit: usize,
    pub polarity: PolarityTracker,
    pub stats: HalfFrameStats,
    pub completed_messages: usize,
    pub crc_valid_messages: usize,
    pub paging_message_count: usize,
}

impl PagingChannelProcessor {
    /// A processor for the 9600 bps paging channel.
    pub fn new() -> (p: Self)
        ensures
            p.half_frame_bits == 96,
            p.next_chip == 0 && p.chips_per_bit == 1,
            p.polarity.active_polarity.is_none(),
            p.stats.total_half_frames == 0,
    {
        Self::new_with_rate(PagingRate::Rate9600)
    }

    pub fn new_with_rate(rate: PagingRate) -> (p: Self)
        ensures
            p.half_frame_bits == (match rate { PagingRate::Rate4800 => 48usize, PagingRate::Rate9600 => 96usize }),
            p.next_chip == 0 && p.chips_per_bit == 1,
            p.polarity.active_polarity.is_none() && p.polarity.switch_holdoff == 0,
            p.polarity.polarity_switches == 0,
            p.stats.total_half_frames == 0 && p.stats.bad_half_frames == 0 && p.stats.good_half_frames == 0,
            p.completed_messages == 0 && p.crc_valid_messages == 0 && p.paging_message_count == 0,
    {
        PagingChannelProcessor {
            half_frame_bits: half_frame_bits(rate),
            next_chip: 0,
            chips_per_bit: 1,
            polarity: PolarityTracker::new(),
            stats: HalfFrameStats::new(),
            completed_messages: 0,
            crc_valid_messages: 0,
            paging_message_count: 0,
        }
    }

    /// Take note of a block starting at `chip_start` with `chips_per_bit`
    /// chips per decoded bit: the first block starts the half-frame timeline.
    pub fn begin_block(&mut self, chip_start: usize, chips_per_bit: usize)
        ensures
            final(self).next_chip == if old(self).next_chip == 0 { chip_start } else { old(self).next_chip },
            final(self).chips_per_bit == if chips_per_bit == 0 { 1 } else { chips_per_bit },
            final(self).half_frame_bits == old(self).half_frame_bits,
    {
        if self.next_chip == 0 {
            self.next_chip = chip_start;
        }
        self.chips_per_bit = if chips_per_bit == 0 { 1 } else { chips_per_bit };
    }

    /// Whether a whole half-frame is buffered on both polarities.
    pub fn half_frame_ready(&self, normal_bits: usize, inverted_bits: usize) -> (b: bool)
        ensures
            b == (normal_bits >= self.half_frame_bits && inverted_bits >= self.half_frame_bits),
    {
        normal_bits >= self.half_frame_bits && inverted_bits >= self.half_frame_bits
    }

    /// Start chip of the next half-frame; the timeline moves past it.
    pub fn next_half_frame_chip(&mut self) -> (chip: usize)
        requires
            old(self).next_chip + old(self).half_frame_bits * old(self).chips_per_bit <= usize::MAX,
        ensures
            chip == old(self).next_chip,
            final(self).next_chip == old(self).next_chip + old(self).half_frame_bits * old(self).chips_per_bit,
            final(self).half_frame_bits == old(self).half_frame_bits,
            final(self).chips_per_bit == old(self).chips_per_bit,
    {
        let chip = self.next_chip;
        assert(self.half_frame_bits * self.chips_per_bit <= usize::MAX) by (nonlinear_arith)
            requires self.next_chip + self.half_frame_bits * self.chips_per_bit <= usize::MAX {}
        self.next_chip = chip + self.half_frame_bits * self.chips_per_bit;
        chip
    }

    /// Count the messages the two readers completed in a half-frame, and
    /// those with a valid CRC.
    pub fn count_messages(&mut self, completed: usize, crc_valid: usize)
        requires
            old(self).completed_messages + completed <= usize::MAX,
            old(self).crc_valid_messages + crc_valid <= usize::MAX,
        ensures
            final(self).completed_messages == old(self).completed_messages + completed,
            final(self).crc_valid_messages == old(self).crc_valid_messages + crc_valid,
            final(self).half_frame_bits == old(self).half_frame_bits,
            final(self).next_chip == old(self).next_chip,
    {
        self.completed_messages = self.completed_messages + completed;
        self.crc_valid_messages = self.crc_valid_messages + crc_valid;
    }

    /// The half-frames a candidate alignment feeds to a fresh frame reader:
    /// the bits from `shift` on, in whole half-frames at `rate`, each flipped
    /// when `invert`. An alignment past the end yields none.
    pub fn alignment_half_frames(bits: &[u8], shift: usize, invert: bool, rate: PagingRate) -> (out: Vec<Vec<u8>>)
        ensures
            ({
                let h = match rate { PagingRate::Rate4800 => 48int, PagingRate::Rate9600 => 96int };
                &&& out@.len() == (if shift < bits@.len() { (bits@.len() - shift) / h } else { 0 })
                &&& forall|k: int| 0 <= k < out@.len() ==> #[trigger] out@[k]@ == alignment_chunk(bits@, shift + k * h, h, invert)
            }),
    {
        let h = half_frame_bits(rate);
        let mut out: Vec<Vec<u8>> = Vec::new();
        if shift >= bits.len() {
            return out;
        }
        let ghost n = bits@.len() as int;
        let mut start = shift;
        while h <= bits.len() - start
            invariant
                h == 48 || h == 96,
                h == (match rate { PagingRate::Rate4800 => 48int, PagingRate::Rate9600 => 96int }),
                shift < bits@.len(),
                start == shift + out@.len() * h,
                start <= bits@.len(),
                forall|k: int| 0 <= k < out@.len() ==> #[trigger] out@[k]@ == alignment_chunk(bits@, shift + k * h, h as int, invert),
            decreases bits@.len() - start,
        {
            let mut chunk: Vec<u8> = Vec::new();
            let mut j: usize = 0;
            while j < h
                invariant
                    start + h <= bits@.len(),
                    bits@.len() <= usize::MAX,
                    j <= h,
                    chunk@.len() == j,
                    forall|i: int| 0 <= i < j ==> #[trigger] chunk@[i] == (if invert { bits@[start + i] ^ 1u8 } else { bits@[start + i] }),
                decreases h - j,
            {
                let b = bits[start + j];
                chunk.push(if invert { b ^ 1 } else { b });
                j += 1;
            }
            assert(chunk@ =~= alignment_chunk(bits@, start as int, h as int, invert));
            proof { vstd::arithmetic::mul::lemma_mul_is_distributive_add_other_way(h as int, out@.len() as int, 1); }
            out.push(chunk);
            start = start + h;
        }
        proof {
            let m = out@.len() as int;
            let r = bits@.len() - shift;
            assert(r == m * (h as int) + (r - m * (h as int)));
            assert(0 <= r - m * (h as int) < h);
            vstd::arithmetic::div_mod::lemma_fundamental_div_mod_converse(r, h as int, m, r - m * (h as int));
        }
        out
    }

    /// The score of a candidate alignment: how many messages its reader
    /// completed, and how many of them had a valid CRC, given the CRC
    /// outcome of each completed message in order.
    pub fn evaluate_alignment(message_crc_valid: &[bool]) -> (r: (usize, usize))
        ensures
            r.0 == message_crc_valid@.len(),
            r.1 == message_crc_valid@.filter(|v: bool| v).len(),
    {
        let ghost s = message_crc_valid@;
        let ghost pred = |v: bool| v;
        let mut valid: usize = 0;
        let mut i: usize = 0;
        while i < message_crc_valid.len()
            invariant
                s == message_crc_valid@,
                pred == (|v: bool| v),
                i <= s.len(),
                valid == s.subrange(0, i as int).filter(pred).len(),
                valid <= i,
            decreases s.len() - i,
        {
            proof {
                assert(s.subrange(0, i as int + 1) =~= s.subrange(0, i as int).push(s[i as int]));
                s.subrange(0, i as int).lemma_filter_push(s[i as int], pred);
            }
            if message_crc_valid[i] {
                valid += 1;
            }
            i += 1;
        }
        assert(s.subrange(0, s.len() as int) =~= s);
        (message_crc_valid.len(), valid)
    }

    /// Count an emitted paging event; returns its sequence number.
    pub fn count_event(&mut self) -> (n: usize)
        requires
            old(self).paging_message_count < usize::MAX,
        ensures
            n == final(self).paging_message_count,
            final(self).paging_message_count == old(self).paging_message_count + 1,
    {
        self.paging_message_count = self.paging_message_count + 1;
        self.paging_message_count
    }
}

} // verus!
