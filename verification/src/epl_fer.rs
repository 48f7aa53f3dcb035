//! Recent frame-error window of a non-pilot finger's early/late timing loop:
//! the outcomes of the last 50 classified traffic frames, one bit each,
//! newest in bit 0; the loop freezes while more than five of fifty failed.
use vstd::prelude::*;

verus! {

/// Frames remembered.
pub const FER_WINDOW_FRAMES: u8 = 50;
/// Mask of the remembered bits.
pub const FER_WINDOW_MASK: u64 = 0x3_FFFF_FFFF_FFFF;
/// Failed frames in a full window tolerated while still slewing.
pub const MAX_INVALID_FRAMES_FOR_SLEW: u32 = 5;

/// Tags of a decoder output block that the window reads.
#[derive(Debug, Clone, Copy, PartialEq, Eq, Structural)]
pub struct PhyEvent {
    pub phy_frame: Option<i64>,
    pub phy_status: Option<i64>,
    pub phy_valid: Option<i64>,
}

pub struct EplFerWindow {
    pub phy_frames: u64,
    pub phy_invalid: u64,
    pub fer_bits: u64,
    pub fer_frames: u8,
}

/// Bit `i` of `b`.
pub open spec fn bit(b: u64, i: int) -> bool {
    (b >> (i as u64)) & 1 == 1
}

/// The outcome an event counts as: whether its frame failed, for events
/// that mark a traffic frame (or its status) and carry a validity tag.
pub open spec fn spec_classify(e: PhyEvent) -> Option<bool> {
    if !(e.phy_frame == Some(1i64) || e.phy_status == Some(1i64)) {
        None
    } else {
        match e.phy_valid {
            Some(v) => Some(v != 1),
            None => None,
        }
    }
}

/// Outcomes of the classified events among the first `n`, in order.
pub open spec fn outcomes(events: Seq<PhyEvent>, n: int) -> Seq<bool>
    decreases n,
{
    if n <= 0 {
        Seq::empty()
    } else {
        match spec_classify(events[n - 1]) {
            Some(x) => outcomes(events, n - 1).push(x),
            None => outcomes(events, n - 1),
        }
    }
}

pub open spec fn count_true(s: Seq<bool>) -> nat
    decreases s.len(),
{
    if s.len() == 0 { 0 } else { count_true(s.drop_last()) + if s.last() { 1nat } else { 0nat } }
}

/// Number of set bits among bits `0..n` of `b`.
pub open spec fn count_bits(b: u64, n: int) -> nat
    decreases n,
{
    if n <= 0 { 0 } else { count_bits(b, n - 1) + if bit(b, n - 1) { 1nat } else { 0nat } }
}

pub open spec fn sat_add_u64(a: int, b: int) -> int {
    if a + b > u64::MAX { u64::MAX as int } else { a + b }
}

proof fn lemma_shift_in(b: u64, x: u64, i: u64)
    requires
        x <= 1,
        i < 49,
    ensures
        (((b << 1u64) | x) & 0x3_FFFF_FFFF_FFFFu64) & 1 == x,
        ((((b << 1u64) | x) & 0x3_FFFF_FFFF_FFFFu64) >> (i + 1)) & 1 == (b >> i) & 1,
        ((b << 1u64) | x) & 0x3_FFFF_FFFF_FFFFu64 <= 0x3_FFFF_FFFF_FFFFu64,
{
    assert((((b << 1u64) | x) & 0x3_FFFF_FFFF_FFFFu64) & 1 == x) by (bit_vector) requires x <= 1;
    assert(((((b << 1u64) | x) & 0x3_FFFF_FFFF_FFFFu64) >> (i + 1)) & 1 == (b >> i) & 1) by (bit_vector)
        requires x <= 1, i < 49;
    assert(((b << 1u64) | x) & 0x3_FFFF_FFFF_FFFFu64 <= 0x3_FFFF_FFFF_FFFFu64) by (bit_vector);
}

proof fn lemma_bit0(b: u64)
    ensures
        (b >> 0u64) == b,
{
    assert((b >> 0u64) == b) by (bit_vector);
}

/// Classify one event (see `spec_classify`).
pub fn classify(e: PhyEvent) -> (r: Option<bool>)
    ensures
        r == spec_classify(e),
{
    let marked = match e.phy_frame { Some(v) => v == 1, None => false }
        || match e.phy_status { Some(v) => v == 1, None => false };
    if !marked {
        return None;
    }
    match e.phy_valid {
        Some(v) => Some(v != 1),
        None => None,
    }
}

/// Number of set bits among the 50 window bits.
pub fn window_popcount(b: u64) -> (c: u32)
    ensures
        c == count_bits(b, FER_WINDOW_FRAMES as int),
{
    let mut c: u32 = 0;
    let mut i: u64 = 0;
    while i < 50
        invariant
            i <= 50,
            c == count_bits(b, i as int),
            c <= i,
        decreases 50 - i,
    {
        if (b >> i) & 1 == 1 {
            c += 1;
        }
        i += 1;
    }
    c
}

impl EplFerWindow {
    pub open spec fn wf(&self) -> bool {
        &&& self.fer_bits <= FER_WINDOW_MASK
        &&& self.fer_frames <= FER_WINDOW_FRAMES
    }

    pub fn new() -> (w: Self)
        ensures
            w.wf(),
            w.phy_frames == 0 && w.phy_invalid == 0 && w.fer_bits == 0 && w.fer_frames == 0,
    {
        EplFerWindow { phy_frames: 0, phy_invalid: 0, fer_bits: 0, fer_frames: 0 }
    }

    /// Remember one frame outcome.
    pub fn record_frame(&mut self, invalid: bool)
        requires
            old(self).wf(),
        ensures
            final(self).wf(),
            final(self).phy_frames == sat_add_u64(old(self).phy_frames as int, 1),
            final(self).phy_invalid == sat_add_u64(old(self).phy_invalid as int, if invalid { 1 } else { 0 }),
            final(self).fer_frames == if old(self).fer_frames < FER_WINDOW_FRAMES { old(self).fer_frames + 1 } else { FER_WINDOW_FRAMES as int },
            bit(final(self).fer_bits, 0) == invalid,
            forall|i: int| 0 <= i < 49 ==> #[trigger] bit(final(self).fer_bits, i + 1) == bit(old(self).fer_bits, i),
    {
        self.phy_frames = if self.phy_frames == u64::MAX { u64::MAX } else { self.phy_frames + 1 };
        if invalid {
            self.phy_invalid = if self.phy_invalid == u64::MAX { u64::MAX } else { self.phy_invalid + 1 };
        }
        let x: u64 = if invalid { 1 } else { 0 };
        let b = self.fer_bits;
        let nb = ((b << 1u64) | x) & FER_WINDOW_MASK;
        proof {
            lemma_shift_in(b, x, 0);
            lemma_bit0(nb);
            assert forall|i: int| 0 <= i < 49 implies #[trigger] bit(nb, i + 1) == bit(b, i) by {
                lemma_shift_in(b, x, i as u64);
                assert((i + 1) as u64 == (i as u64) + 1);
            }
        }
        self.fer_bits = nb;
        self.fer_frames = if self.fer_frames < FER_WINDOW_FRAMES { self.fer_frames + 1 } else { FER_WINDOW_FRAMES };
    }

    /// Take in a chain's output blocks: each event marking a traffic frame
    /// with a validity tag records that frame; others are ignored. Nothing is
    /// recorded unless the loop is `enabled` (slewing, not in pilot mode).
    pub fn observe(&mut self, enabled: bool, events: &[PhyEvent])
        requires
            old(self).wf(),
        ensures
            final(self).wf(),
            !enabled ==> final(self).phy_frames == old(self).phy_frames && final(self).phy_invalid == old(self).phy_invalid
                && final(self).fer_bits == old(self).fer_bits && final(self).fer_frames == old(self).fer_frames,
            enabled ==> {
                let c = outcomes(events@, events@.len() as int);
                let k = c.len() as int;
                &&& final(self).phy_frames == if old(self).phy_frames + k > u64::MAX { u64::MAX as int } else { old(self).phy_frames + k }
                &&& final(self).phy_invalid == if old(self).phy_invalid + count_true(c) > u64::MAX { u64::MAX as int } else { old(self).phy_invalid + count_true(c) }
                &&& final(self).fer_frames == if old(self).fer_frames + k > FER_WINDOW_FRAMES { FER_WINDOW_FRAMES as int } else { old(self).fer_frames + k }
                &&& forall|i: int| 0 <= i < 50 ==> #[trigger] bit(final(self).fer_bits, i)
                    == if i < k { c[k - 1 - i] } else { bit(old(self).fer_bits, i - k) }
            },
    {
        if !enabled {
            return;
        }
        let ghost old_bits = self.fer_bits;
        let ghost old_frames = self.phy_frames;
        let ghost old_invalid = self.phy_invalid;
        let ghost old_fer_frames = self.fer_frames;
        let mut j: usize = 0;
        while j < events.len()
            invariant
                self.wf(),
                j <= events@.len(),
                ({
                    let c = outcomes(events@, j as int);
                    let k = c.len() as int;
                    &&& self.phy_frames == if old_frames + k > u64::MAX { u64::MAX as int } else { old_frames + k }
                    &&& self.phy_invalid == if old_invalid + count_true(c) > u64::MAX { u64::MAX as int } else { old_invalid + count_true(c) }
                    &&& self.fer_frames == if old_fer_frames + k > FER_WINDOW_FRAMES { FER_WINDOW_FRAMES as int } else { old_fer_frames + k }
                    &&& forall|i: int| 0 <= i < 50 ==> #[trigger] bit(self.fer_bits, i)
                        == if i < k { c[k - 1 - i] } else { bit(old_bits, i - k) }
                }),
            decreases events@.len() - j,
        {
            let ghost before = self.fer_bits;
            let ghost c0 = outcomes(events@, j as int);
            match classify(events[j]) {
                Some(invalid) => {
                    self.record_frame(invalid);
                    proof {
                        let c = outcomes(events@, j as int + 1);
                        assert(c == c0.push(invalid));
                        assert(c.drop_last() =~= c0);
                        let k = c.len() as int;
                        assert forall|i: int| 0 <= i < 50 implies #[trigger] bit(self.fer_bits, i)
                            == if i < k { c[k - 1 - i] } else { bit(old_bits, i - k) } by {
                            if i > 0 {
                                assert(bit(self.fer_bits, (i - 1) + 1) == bit(before, i - 1));
                            }
                        }
                    }
                },
                None => {
                    assert(outcomes(events@, j as int + 1) == c0);
                },
            }
            j += 1;
        }
    }

    /// Whether the timing loop freezes: the window is full and more than
    /// five of its frames failed.
    pub fn slew_frozen(&self) -> (b: bool)
        ensures
            b == (self.fer_frames == FER_WINDOW_FRAMES
                && count_bits(self.fer_bits, FER_WINDOW_FRAMES as int) > MAX_INVALID_FRAMES_FOR_SLEW),
    {
        self.fer_frames == FER_WINDOW_FRAMES && window_popcount(self.fer_bits) > MAX_INVALID_FRAMES_FOR_SLEW
    }
}

} // verus!
