//! Reverse traffic rates of radio configuration 1 and the long-code data
//! burst randomizer that gates the power control groups of the lower rates.
use vstd::prelude::*;

verus! {

/// Power control groups in one 20 ms frame.
pub const PCGS_PER_FRAME: usize = 16;

/// Long-code chips consumed by the data burst randomizer before the frame:
/// the randomizer bits are taken from the 14 chips that end one power control
/// group (1536 chips) ahead of the frame boundary.
pub const RANDOMIZER_LEAD_CHIPS: usize = 1550;

/// Rate of the block interleaver, which fixes the symbol repetition.
#[derive(Clone, Copy, Debug, PartialEq, Eq, Structural)]
pub enum Rc12ReverseTrafficRate {
    Full,
    Half,
    Quarter,
    Eighth,
}

impl Rc12ReverseTrafficRate {
    pub open spec fn spec_repetition_factor(self) -> usize {
        match self {
            Rc12ReverseTrafficRate::Full => 1,
            Rc12ReverseTrafficRate::Half => 2,
            Rc12ReverseTrafficRate::Quarter => 4,
            Rc12ReverseTrafficRate::Eighth => 8,
        }
    }

    /// Number of times each code symbol is repeated to fill the frame.
    #[verifier::when_used_as_spec(spec_repetition_factor)]
    pub fn repetition_factor(self) -> (r: usize)
        ensures
            r == self.spec_repetition_factor(),
    {
        match self {
            Rc12ReverseTrafficRate::Full => 1,
            Rc12ReverseTrafficRate::Half => 2,
            Rc12ReverseTrafficRate::Quarter => 4,
            Rc12ReverseTrafficRate::Eighth => 8,
        }
    }
}

/// Frame rate of an RC1 reverse traffic frame.
#[derive(Clone, Copy, Debug, PartialEq, Eq, Structural)]
pub enum Rc1TrafficRate {
    Full,
    Half,
    Quarter,
    Eighth,
}

/// Position of a rate in the default search order.
pub open spec fn rate_index(r: Rc1TrafficRate) -> int {
    match r {
        Rc1TrafficRate::Full => 0,
        Rc1TrafficRate::Half => 1,
        Rc1TrafficRate::Quarter => 2,
        Rc1TrafficRate::Eighth => 3,
    }
}

/// The rate at a position of the default search order.
pub open spec fn rate_at(i: int) -> Rc1TrafficRate {
    if i == 0 {
        Rc1TrafficRate::Full
    } else if i == 1 {
        Rc1TrafficRate::Half
    } else if i == 2 {
        Rc1TrafficRate::Quarter
    } else {
        Rc1TrafficRate::Eighth
    }
}

/// The default search order: full, half, quarter, eighth.
pub fn search_order() -> (r: [Rc1TrafficRate; 4])
    ensures
        forall|i: int| 0 <= i < 4 ==> #[trigger] r[i] == rate_at(i),
{
    [Rc1TrafficRate::Full, Rc1TrafficRate::Half, Rc1TrafficRate::Quarter, Rc1TrafficRate::Eighth]
}

/// Index of a rate in the default search order.
pub fn rate_slot(r: Rc1TrafficRate) -> (i: usize)
    ensures
        i == rate_index(r),
        i < 4,
{
    match r {
        Rc1TrafficRate::Full => 0,
        Rc1TrafficRate::Half => 1,
        Rc1TrafficRate::Quarter => 2,
        Rc1TrafficRate::Eighth => 3,
    }
}

impl Rc1TrafficRate {
    pub open spec fn spec_to_interleaver_rate(self) -> Rc12ReverseTrafficRate {
        match self {
            Rc1TrafficRate::Full => Rc12ReverseTrafficRate::Full,
            Rc1TrafficRate::Half => Rc12ReverseTrafficRate::Half,
            Rc1TrafficRate::Quarter => Rc12ReverseTrafficRate::Quarter,
            Rc1TrafficRate::Eighth => Rc12ReverseTrafficRate::Eighth,
        }
    }

    pub open spec fn spec_frame_bits(self) -> usize {
        match self {
            Rc1TrafficRate::Full => 192,
            Rc1TrafficRate::Half => 96,
            Rc1TrafficRate::Quarter => 48,
            Rc1TrafficRate::Eighth => 24,
        }
    }

    pub open spec fn spec_info_bits(self) -> usize {
        match self {
            Rc1TrafficRate::Full => 172,
            Rc1TrafficRate::Half => 80,
            Rc1TrafficRate::Quarter => 40,
            Rc1TrafficRate::Eighth => 16,
        }
    }

    pub open spec fn spec_fqi_bits(self) -> usize {
        match self {
            Rc1TrafficRate::Full => 12,
            Rc1TrafficRate::Half => 8,
            Rc1TrafficRate::Quarter => 0,
            Rc1TrafficRate::Eighth => 0,
        }
    }

    pub open spec fn spec_tail_bits(self) -> usize {
        8
    }

    pub open spec fn spec_rate_bps(self) -> usize {
        match self {
            Rc1TrafficRate::Full => 9600,
            Rc1TrafficRate::Half => 4800,
            Rc1TrafficRate::Quarter => 2400,
            Rc1TrafficRate::Eighth => 1200,
        }
    }

    pub open spec fn spec_active_pcg_count(self) -> usize {
        match self {
            Rc1TrafficRate::Full => 16,
            Rc1TrafficRate::Half => 8,
            Rc1TrafficRate::Quarter => 4,
            Rc1TrafficRate::Eighth => 2,
        }
    }

    /// The interleaver rate that carries frames of this rate.
    #[verifier::when_used_as_spec(spec_to_interleaver_rate)]
    pub fn to_interleaver_rate(self) -> (r: Rc12ReverseTrafficRate)
        ensures
            r == self.spec_to_interleaver_rate(),
    {
        match self {
            Rc1TrafficRate::Full => Rc12ReverseTrafficRate::Full,
            Rc1TrafficRate::Half => Rc12ReverseTrafficRate::Half,
            Rc1TrafficRate::Quarter => Rc12ReverseTrafficRate::Quarter,
            Rc1TrafficRate::Eighth => Rc12ReverseTrafficRate::Eighth,
        }
    }

    /// Symbol repetition of this rate.
    pub fn repetition_factor(self) -> (r: usize)
        ensures
            r == self.spec_to_interleaver_rate().spec_repetition_factor(),
    {
        self.to_interleaver_rate().repetition_factor()
    }

    /// Frame length in bits (information, quality indicator and tail).
    #[verifier::when_used_as_spec(spec_frame_bits)]
    pub fn frame_bits(self) -> (r: usize)
        ensures
            r == self.spec_frame_bits(),
    {
        match self {
            Rc1TrafficRate::Full => 192,
            Rc1TrafficRate::Half => 96,
            Rc1TrafficRate::Quarter => 48,
            Rc1TrafficRate::Eighth => 24,
        }
    }

    /// Information bits per frame.
    #[verifier::when_used_as_spec(spec_info_bits)]
    pub fn info_bits(self) -> (r: usize)
        ensures
            r == self.spec_info_bits(),
    {
        match self {
            Rc1TrafficRate::Full => 172,
            Rc1TrafficRate::Half => 80,
            Rc1TrafficRate::Quarter => 40,
            Rc1TrafficRate::Eighth => 16,
        }
    }

    /// Frame quality indicator (CRC) bits per frame.
    #[verifier::when_used_as_spec(spec_fqi_bits)]
    pub fn fqi_bits(self) -> (r: usize)
        ensures
            r == self.spec_fqi_bits(),
    {
        match self {
            Rc1TrafficRate::Full => 12,
            Rc1TrafficRate::Half => 8,
            Rc1TrafficRate::Quarter | Rc1TrafficRate::Eighth => 0,
        }
    }

    /// Encoder tail bits per frame.
    #[verifier::when_used_as_spec(spec_tail_bits)]
    pub fn tail_bits(self) -> (r: usize)
        ensures
            r == self.spec_tail_bits(),
    {
        8
    }

    /// Data rate in bits per second.
    #[verifier::when_used_as_spec(spec_rate_bps)]
    pub fn rate_bps(self) -> (r: usize)
        ensures
            r == self.spec_rate_bps(),
    {
        match self {
            Rc1TrafficRate::Full => 9600,
            Rc1TrafficRate::Half => 4800,
            Rc1TrafficRate::Quarter => 2400,
            Rc1TrafficRate::Eighth => 1200,
        }
    }

    /// Power control groups in which the mobile transmits at this rate.
    #[verifier::when_used_as_spec(spec_active_pcg_count)]
    pub fn active_pcg_count(self) -> (r: usize)
        ensures
            r == self.spec_active_pcg_count(),
    {
        match self {
            Rc1TrafficRate::Full => 16,
            Rc1TrafficRate::Half => 8,
            Rc1TrafficRate::Quarter => 4,
            Rc1TrafficRate::Eighth => 2,
        }
    }
}

/// The randomizer bits are long-code chips, each 0 or 1.
pub open spec fn randomizer_bits_wf(b: Seq<u8>) -> bool {
    b.len() == 14 && forall|k: int| 0 <= k < 14 ==> #[trigger] b[k] <= 1
}

/// Whether power control group `i` is transmitted at `rate` for the
/// randomizer bits `b` (the data burst randomizer): a half-rate frame
/// keeps slot `b[p]` of each pair `p`; a quarter-rate frame keeps, of each
/// pair of pairs `j`, the pair `b[8 + j]`; an eighth-rate frame keeps, of
/// each half of the frame `g`, the quadruple `b[12 + g]`.
pub open spec fn pcg_active(rate: Rc1TrafficRate, b: Seq<u8>, i: int) -> bool {
    &&& 0 <= i < 16
    &&& match rate {
        Rc1TrafficRate::Full => true,
        Rc1TrafficRate::Half => i % 2 == b[i / 2],
        Rc1TrafficRate::Quarter => i % 2 == b[i / 2] && (i / 2) % 2 == b[8 + i / 4],
        Rc1TrafficRate::Eighth => {
            &&& i % 2 == b[i / 2]
            &&& (i / 2) % 2 == b[8 + i / 4]
            &&& (i / 4) % 2 == b[12 + i / 8]
        },
    }
}

/// Long-code chips to advance a generator seeded at chip 0 before reading the
/// 14 randomizer bits of the frame starting at `frame_chip_start`.
pub fn randomizer_advance_chips(frame_chip_start: usize) -> (r: usize)
    ensures
        r == if frame_chip_start >= RANDOMIZER_LEAD_CHIPS {
            frame_chip_start - RANDOMIZER_LEAD_CHIPS
        } else {
            0
        },
{
    frame_chip_start.saturating_sub(1536 + 14)
}

impl Rc1TrafficRate {
    /// The mask of transmitted power control groups of a frame at this rate,
    /// given the frame's 14 randomizer bits.
    pub fn exact_active_pcgs(self, b: &[u8; 14]) -> (active: [bool; 16])
        requires
            randomizer_bits_wf(b@),
        ensures
            forall|i: int| 0 <= i < 16 ==> #[trigger] active[i] == pcg_active(self, b@, i),
    {
        let mut active = [false; 16];
        if self == Rc1TrafficRate::Full {
            active = [true; 16];
            return active;
        }
        match self {
            Rc1TrafficRate::Half => {
                let mut i: usize = 0;
                while i < 8
                    invariant
                        i <= 8,
                        randomizer_bits_wf(b@),
                        forall|k: int| 0 <= k < 16 ==> #[trigger] active[k] == (k / 2 < i && k % 2 == b@[k / 2]),
                    decreases 8 - i,
                {
                    active[2 * i + b[i] as usize] = true;
                    i += 1;
                }
            },
            Rc1TrafficRate::Quarter => {
                active[(if b[8] == 0 { b[0] } else { 2 + b[1] }) as usize] = true;
                active[(if b[9] == 0 { 4 + b[2] } else { 6 + b[3] }) as usize] = true;
                active[(if b[10] == 0 { 8 + b[4] } else { 10 + b[5] }) as usize] = true;
                active[(if b[11] == 0 { 12 + b[6] } else { 14 + b[7] }) as usize] = true;
            },
            Rc1TrafficRate::Eighth => {
                let lower = if b[12] == 0 {
                    if b[8] == 0 {
                        b[0] as usize
                    } else {
                        2 + b[1] as usize
                    }
                } else if b[9] == 0 {
                    4 + b[2] as usize
                } else {
                    6 + b[3] as usize
                };
                let upper = if b[13] == 0 {
                    if b[10] == 0 {
                        8 + b[4] as usize
                    } else {
                        10 + b[5] as usize
                    }
                } else if b[11] == 0 {
                    12 + b[6] as usize
                } else {
                    14 + b[7] as usize
                };
                active[lower] = true;
                active[upper] = true;
            },
            Rc1TrafficRate::Full => {},
        }
        active
    }
}

/// Number of transmitted power control groups among the first `n`.
pub open spec fn count_active(rate: Rc1TrafficRate, b: Seq<u8>, n: int) -> nat
    decreases n,
{
    if n <= 0 {
        0
    } else {
        count_active(rate, b, n - 1) + if pcg_active(rate, b, n - 1) { 1nat } else { 0nat }
    }
}

proof fn lemma_count_half_block(b: Seq<u8>, p: int)
    requires
        randomizer_bits_wf(b),
        0 <= p < 8,
    ensures
        count_active(Rc1TrafficRate::Half, b, 2 * p + 2) == count_active(Rc1TrafficRate::Half, b, 2 * p) + 1,
{
    let r = Rc1TrafficRate::Half;
    assert(count_active(r, b, 2 * p + 2) == count_active(r, b, 2 * p + 1) + if pcg_active(r, b, 2 * p + 1) { 1nat } else { 0nat });
    assert(count_active(r, b, 2 * p + 1) == count_active(r, b, 2 * p) + if pcg_active(r, b, 2 * p) { 1nat } else { 0nat });
    assert((2 * p) / 2 == p && (2 * p) % 2 == 0 && (2 * p + 1) / 2 == p && (2 * p + 1) % 2 == 1);
    assert(b[p] <= 1);
}

proof fn lemma_count_quarter_block(b: Seq<u8>, j: int)
    requires
        randomizer_bits_wf(b),
        0 <= j < 4,
    ensures
        count_active(Rc1TrafficRate::Quarter, b, 4 * j + 4) == count_active(Rc1TrafficRate::Quarter, b, 4 * j) + 1,
{
    let r = Rc1TrafficRate::Quarter;
    let base = 4 * j;
    assert forall|t: int| 0 <= t < 4 implies (#[trigger] ((base + t) / 2) == 2 * j + t / 2 && (base + t) % 2 == t % 2 && (base + t) / 4 == j) by {}
    assert(count_active(r, b, base + 4) == count_active(r, b, base + 3) + if pcg_active(r, b, base + 3) { 1nat } else { 0nat });
    assert(count_active(r, b, base + 3) == count_active(r, b, base + 2) + if pcg_active(r, b, base + 2) { 1nat } else { 0nat });
    assert(count_active(r, b, base + 2) == count_active(r, b, base + 1) + if pcg_active(r, b, base + 1) { 1nat } else { 0nat });
    assert(count_active(r, b, base + 1) == count_active(r, b, base) + if pcg_active(r, b, base) { 1nat } else { 0nat });
    assert(b[2 * j] <= 1 && b[2 * j + 1] <= 1 && b[8 + j] <= 1);
    assert((2 * j) % 2 == 0 && (2 * j + 1) % 2 == 1);
}

proof fn lemma_count_eighth_block(b: Seq<u8>, g: int)
    requires
        randomizer_bits_wf(b),
        0 <= g < 2,
    ensures
        count_active(Rc1TrafficRate::Eighth, b, 8 * g + 8) == count_active(Rc1TrafficRate::Eighth, b, 8 * g) + 1,
{
    let r = Rc1TrafficRate::Eighth;
    let base = 8 * g;
    assert forall|t: int| 0 <= t < 8 implies (#[trigger] ((base + t) / 2) == 4 * g + t / 2 && (base + t) % 2 == t % 2 && (base + t) / 4 == 2 * g + t / 4 && (base + t) / 8 == g) by {}
    assert forall|k: int| 0 <= k < 8 implies #[trigger] count_active(r, b, base + k + 1) == count_active(r, b, base + k) + if pcg_active(r, b, base + k) { 1nat } else { 0nat } by {}
    assert(count_active(r, b, base + 8) == count_active(r, b, base + 7) + if pcg_active(r, b, base + 7) { 1nat } else { 0nat });
    assert(count_active(r, b, base + 7) == count_active(r, b, base + 6) + if pcg_active(r, b, base + 6) { 1nat } else { 0nat });
    assert(count_active(r, b, base + 6) == count_active(r, b, base + 5) + if pcg_active(r, b, base + 5) { 1nat } else { 0nat });
    assert(count_active(r, b, base + 5) == count_active(r, b, base + 4) + if pcg_active(r, b, base + 4) { 1nat } else { 0nat });
    assert(count_active(r, b, base + 4) == count_active(r, b, base + 3) + if pcg_active(r, b, base + 3) { 1nat } else { 0nat });
    assert(count_active(r, b, base + 3) == count_active(r, b, base + 2) + if pcg_active(r, b, base + 2) { 1nat } else { 0nat });
    assert(count_active(r, b, base + 2) == count_active(r, b, base + 1) + if pcg_active(r, b, base + 1) { 1nat } else { 0nat });
    assert(count_active(r, b, base + 1) == count_active(r, b, base) + if pcg_active(r, b, base) { 1nat } else { 0nat });
    assert(b[4 * g] <= 1 && b[4 * g + 1] <= 1 && b[4 * g + 2] <= 1 && b[4 * g + 3] <= 1);
    assert(b[8 + 2 * g] <= 1 && b[9 + 2 * g] <= 1 && b[12 + g] <= 1);
    assert((4 * g) % 2 == 0 && (4 * g + 1) % 2 == 1 && (4 * g + 2) % 2 == 0 && (4 * g + 3) % 2 == 1);
    assert((2 * g) % 2 == 0 && (2 * g + 1) % 2 == 1);
}

/// Law: a frame transmits exactly as many power control groups as its rate
/// calls for (16, 8, 4 or 2), whatever the randomizer bits.
pub proof fn lemma_active_pcg_count(rate: Rc1TrafficRate, b: Seq<u8>)
    requires
        randomizer_bits_wf(b),
    ensures
        count_active(rate, b, 16) == rate.spec_active_pcg_count(),
{
    match rate {
        Rc1TrafficRate::Full => {
            assert(count_active(rate, b, 0) == 0);
            assert forall|k: int| 0 <= k <= 16 implies #[trigger] count_active(rate, b, k) == k by {
                lemma_count_full_prefix(b, k);
            }
        },
        Rc1TrafficRate::Half => {
            assert forall|p: int| 0 <= p <= 8 implies #[trigger] count_active(rate, b, 2 * p) == p by {
                lemma_count_half_prefix(b, p);
            }
            lemma_count_half_prefix(b, 8);
        },
        Rc1TrafficRate::Quarter => {
            lemma_count_quarter_prefix(b, 4);
        },
        Rc1TrafficRate::Eighth => {
            assert(count_active(rate, b, 0) == 0);
            lemma_count_eighth_block(b, 0);
            lemma_count_eighth_block(b, 1);
        },
    }
}

proof fn lemma_count_full_prefix(b: Seq<u8>, k: int)
    requires
        0 <= k <= 16,
    ensures
        count_active(Rc1TrafficRate::Full, b, k) == k,
    decreases k,
{
    if k > 0 {
        lemma_count_full_prefix(b, k - 1);
    }
}

proof fn lemma_count_half_prefix(b: Seq<u8>, p: int)
    requires
        randomizer_bits_wf(b),
        0 <= p <= 8,
    ensures
        count_active(Rc1TrafficRate::Half, b, 2 * p) == p,
    decreases p,
{
    if p > 0 {
        lemma_count_half_prefix(b, p - 1);
        lemma_count_half_block(b, p - 1);
    }
}

proof fn lemma_count_quarter_prefix(b: Seq<u8>, j: int)
    requires
        randomizer_bits_wf(b),
        0 <= j <= 4,
    ensures
        count_active(Rc1TrafficRate::Quarter, b, 4 * j) == j,
    decreases j,
{
    if j > 0 {
        lemma_count_quarter_prefix(b, j - 1);
        lemma_count_quarter_block(b, j - 1);
    }
}

/// Law: the transmitted groups of a lower rate are among those of the next
/// higher rate (eighth within quarter within half within full).
pub proof fn lemma_active_pcgs_nested(b: Seq<u8>, i: int)
    requires
        randomizer_bits_wf(b),
    ensures
        pcg_active(Rc1TrafficRate::Eighth, b, i) ==> pcg_active(Rc1TrafficRate::Quarter, b, i),
        pcg_active(Rc1TrafficRate::Quarter, b, i) ==> pcg_active(Rc1TrafficRate::Half, b, i),
        pcg_active(Rc1TrafficRate::Half, b, i) ==> pcg_active(Rc1TrafficRate::Full, b, i),
{
}

/// Law: every rate fills the frame's 576 code symbols: three code symbols
/// per frame bit, repeated by the interleaver's repetition factor.
pub proof fn lemma_rate_fills_frame(rate: Rc1TrafficRate)
    ensures
        3 * rate.spec_frame_bits() * rate.spec_to_interleaver_rate().spec_repetition_factor() == 576,
        rate.spec_info_bits() + rate.spec_fqi_bits() + rate.spec_tail_bits() == rate.spec_frame_bits(),
{
    match rate {
        Rc1TrafficRate::Full => assert(3 * 192 * 1 == 576),
        Rc1TrafficRate::Half => assert(3 * 96 * 2 == 576),
        Rc1TrafficRate::Quarter => assert(3 * 48 * 4 == 576),
        Rc1TrafficRate::Eighth => assert(3 * 24 * 8 == 576),
    }
}

} // verus!
