//! Frame quality indicators (CRC-12 and CRC-8) and the validation of decoded
//! RC1 reverse traffic frames.
use vstd::prelude::*;
use crate::rc1_rate::Rc1TrafficRate;

verus! {

/// Feedback taps of the 12-bit quality indicator:
/// g(x) = x^12 + x^11 + x^10 + x^9 + x^8 + x^4 + x + 1.
pub const CRC12_POLY: u16 = 0xF13;
/// Feedback taps of the 8-bit quality indicator:
/// g(x) = x^8 + x^7 + x^4 + x^3 + x + 1.
pub const CRC8_POLY: u16 = 0x9B;

/// All-ones mask of `width` bits (8 or 12).
pub open spec fn reg_mask(width: u16) -> u16 {
    if width == 12 { 0xFFF } else { 0xFF }
}

/// One clock of the quality-indicator register: the input bit is added to
/// the bit leaving the register, and the sum is fed back through the taps.
pub open spec fn crc_step(reg: u16, bit: u8, poly: u16, width: u16) -> u16 {
    let fb = ((reg >> (width - 1)) & 1) ^ ((bit & 1) as u16);
    let shifted = (reg << 1u16) & reg_mask(width);
    if fb == 1 { shifted ^ poly } else { shifted }
}

/// Register contents after the first `n` bits of `bits`, starting from all ones.
pub open spec fn crc_after(bits: Seq<u8>, n: int, poly: u16, width: u16) -> u16
    decreases n,
{
    if n <= 0 {
        reg_mask(width)
    } else {
        crc_step(crc_after(bits, n - 1, poly, width), bits[n - 1], poly, width)
    }
}

/// The 12-bit frame quality indicator of `bits` (register initialised to all
/// ones, read out most significant bit first).
pub open spec fn spec_crc12(bits: Seq<u8>) -> u16 {
    crc_after(bits, bits.len() as int, CRC12_POLY, 12)
}

/// The 8-bit frame quality indicator of `bits`.
pub open spec fn spec_crc8(bits: Seq<u8>) -> u16 {
    crc_after(bits, bits.len() as int, CRC8_POLY, 8)
}

fn crc_register(bits: &[u8], lo: usize, hi: usize, poly: u16, width: u16) -> (reg: u16)
    requires
        lo == 0,
        hi <= bits@.len(),
        width == 8 || width == 12,
        poly <= reg_mask(width),
    ensures
        reg == crc_after(bits@.subrange(0, hi as int), hi as int, poly, width),
        reg <= reg_mask(width),
{
    let mask: u16 = if width == 12 { 0xFFF } else { 0xFF };
    let mut reg: u16 = mask;
    let mut i: usize = lo;
    let ghost s = bits@.subrange(0, hi as int);
    while i < hi
        invariant
            lo == 0,
            lo <= i <= hi,
            hi <= bits@.len(),
            width == 8 || width == 12,
            poly <= reg_mask(width),
            mask == reg_mask(width),
            s == bits@.subrange(0, hi as int),
            reg == crc_after(s, i as int, poly, width),
            reg <= mask,
        decreases hi - i,
    {
        let bit = bits[i];
        let fb = ((reg >> (width - 1)) & 1) ^ ((bit & 1) as u16);
        let shifted = (reg << 1u16) & mask;
        assert(shifted <= mask) by (bit_vector)
            requires shifted == (reg << 1u16) & mask;
        assert(s[i as int] == bit);
        if fb == 1 {
            assert((shifted ^ poly) <= mask) by (bit_vector)
                requires shifted <= mask, poly <= mask, mask == 0xFFF || mask == 0xFF;
            reg = shifted ^ poly;
        } else {
            reg = shifted;
        }
        i += 1;
    }
    reg
}

/// The 12-bit frame quality indicator of the first `n` bits.
pub fn crc12(bits: &[u8], n: usize) -> (r: u16)
    requires
        n <= bits@.len(),
    ensures
        r == spec_crc12(bits@.subrange(0, n as int)),
        r <= 0xFFF,
{
    crc_register(bits, 0, n, CRC12_POLY, 12)
}

/// The 8-bit frame quality indicator of the first `n` bits.
pub fn crc8(bits: &[u8], n: usize) -> (r: u16)
    requires
        n <= bits@.len(),
    ensures
        r == spec_crc8(bits@.subrange(0, n as int)),
        r <= 0xFF,
{
    crc_register(bits, 0, n, CRC8_POLY, 8)
}

/// Value of `bits[lo..lo + n]` read most significant bit first (low bit of
/// each entry).
pub open spec fn msb_value(bits: Seq<u8>, lo: int, n: int) -> nat
    decreases n,
{
    if n <= 0 {
        0
    } else {
        2 * msb_value(bits, lo, n - 1) + (bits[lo + n - 1] % 2) as nat
    }
}

proof fn lemma_msb_value_bound(bits: Seq<u8>, lo: int, n: int)
    requires
        0 <= n,
    ensures
        msb_value(bits, lo, n) < vstd::arithmetic::power2::pow2(n as nat),
    decreases n,
{
    vstd::arithmetic::power2::lemma2_to64();
    if n > 0 {
        lemma_msb_value_bound(bits, lo, n - 1);
        vstd::arithmetic::power2::lemma_pow2_unfold(n as nat);
    }
}

/// Read `n` (at most 12) bits most significant first.
fn read_msb_first(bits: &[u8], lo: usize, n: usize) -> (r: u16)
    requires
        n <= 12,
        lo + n <= bits.len(),
    ensures
        r == msb_value(bits@, lo as int, n as int),
{
    let mut r: u16 = 0;
    let mut k: usize = 0;
    while k < n
        invariant
            k <= n <= 12,
            lo + n <= bits.len(),
            r == msb_value(bits@, lo as int, k as int),
        decreases n - k,
    {
        proof {
            lemma_msb_value_bound(bits@, lo as int, k as int);
            vstd::arithmetic::power2::lemma2_to64();
            if k < 12 {
                vstd::arithmetic::power2::lemma_pow2_strictly_increases(k as nat, 12);
            }
        }
        assert(lo + k < bits@.len());
        let bit = bits[lo + k];
        let b: u16 = (bit & 1) as u16;
        assert(b == bit % 2) by (bit_vector)
            requires b == (bit & 1) as u16;
        assert(r < 4096);
        assert((r << 1u16) | b == 2 * r + b) by (bit_vector)
            requires r < 4096, b <= 1;
        r = (r << 1) | b;
        k += 1;
    }
    r
}

/// Outcome of the checks on a decoded frame.
#[derive(Clone, Copy, Debug, PartialEq, Eq, Structural)]
pub struct FrameValidation {
    pub fqi_valid: bool,
    pub tail_valid: bool,
    pub phy_valid: bool,
}

/// Whether the encoder tail of a frame at `rate` is all zero.
pub open spec fn tail_zero(rate: Rc1TrafficRate, bits: Seq<u8>) -> bool {
    forall|k: int|
        rate.spec_frame_bits() - rate.spec_tail_bits() <= k < rate.spec_frame_bits() ==> #[trigger] bits[k] == 0
}

/// Whether the received quality indicator of a frame matches the one computed
/// over its information bits (rates without a quality indicator pass).
pub open spec fn fqi_match(rate: Rc1TrafficRate, bits: Seq<u8>) -> bool {
    let info = bits.subrange(0, rate.spec_info_bits() as int);
    match rate {
        Rc1TrafficRate::Full => spec_crc12(info) as nat == msb_value(bits, 172, 12),
        Rc1TrafficRate::Half => spec_crc8(info) as nat == msb_value(bits, 80, 8),
        _ => true,
    }
}

/// The validation a frame at `rate` receives: tail and quality indicator are
/// checked only on a complete frame, and the quality indicator only when the
/// tail is clean.
pub open spec fn spec_validation(rate: Rc1TrafficRate, bits: Seq<u8>) -> FrameValidation {
    if bits.len() < rate.spec_frame_bits() || !tail_zero(rate, bits) {
        FrameValidation { fqi_valid: false, tail_valid: false, phy_valid: false }
    } else {
        FrameValidation { fqi_valid: fqi_match(rate, bits), tail_valid: true, phy_valid: fqi_match(rate, bits) }
    }
}

impl FrameValidation {
    /// Validate the decoded bits of a frame at `rate`.
    pub fn for_rate(rate: Rc1TrafficRate, bits: &[u8]) -> (v: FrameValidation)
        ensures
            v == spec_validation(rate, bits@),
    {
        let frame_bits = rate.frame_bits();
        if bits.len() < frame_bits {
            return FrameValidation { fqi_valid: false, tail_valid: false, phy_valid: false };
        }
        let tail_start = frame_bits - rate.tail_bits();
        let mut k = tail_start;
        let mut tail_valid = true;
        while k < frame_bits
            invariant
                tail_start <= k <= frame_bits,
                frame_bits == rate.spec_frame_bits(),
                tail_start == frame_bits - rate.spec_tail_bits(),
                frame_bits <= bits@.len(),
                tail_valid == (forall|j: int| tail_start <= j < k ==> #[trigger] bits@[j] == 0),
            decreases frame_bits - k,
        {
            if bits[k] != 0 {
                tail_valid = false;
            }
            k += 1;
        }
        if !tail_valid {
            return FrameValidation { fqi_valid: false, tail_valid: false, phy_valid: false };
        }
        let fqi_valid = match rate {
            Rc1TrafficRate::Full => {
                let computed = crc12(bits, 172);
                let received = read_msb_first(bits, 172, 12);
                computed == received
            },
            Rc1TrafficRate::Half => {
                let computed = crc8(bits, 80);
                let received = read_msb_first(bits, 80, 8);
                computed == received
            },
            Rc1TrafficRate::Quarter | Rc1TrafficRate::Eighth => true,
        };
        FrameValidation { fqi_valid, tail_valid, phy_valid: tail_valid && fqi_valid }
    }
}


/// `w` bits of `v`, most significant first.
pub open spec fn msb_bits(v: nat, w: nat) -> Seq<u8>
    decreases w,
{
    if w == 0 { Seq::empty() } else { msb_bits(v / 2, (w - 1) as nat).push((v % 2) as u8) }
}

/// The frame an encoder sends at `rate` for the information bits `info`:
/// the bits, their quality indicator most significant bit first, and the
/// eight-bit zero tail.
pub open spec fn framed(rate: Rc1TrafficRate, info: Seq<u8>) -> Seq<u8> {
    let fqi = match rate {
        Rc1TrafficRate::Full => msb_bits(spec_crc12(info) as nat, 12),
        Rc1TrafficRate::Half => msb_bits(spec_crc8(info) as nat, 8),
        _ => Seq::empty(),
    };
    info + fqi + Seq::new(8, |k: int| 0u8)
}

proof fn lemma_msb_bits_len(v: nat, w: nat)
    ensures
        msb_bits(v, w).len() == w,
    decreases w,
{
    if w > 0 {
        lemma_msb_bits_len(v / 2, (w - 1) as nat);
    }
}

proof fn lemma_msb_value_prefix(a: Seq<u8>, b: Seq<u8>, lo: int, n: int)
    requires
        0 <= lo,
        0 <= n,
        lo + n <= a.len(),
        lo + n <= b.len(),
        a.subrange(lo, lo + n) == b.subrange(lo, lo + n),
    ensures
        msb_value(a, lo, n) == msb_value(b, lo, n),
    decreases n,
{
    if n > 0 {
        assert(a[lo + n - 1] == a.subrange(lo, lo + n)[n - 1]);
        assert(b[lo + n - 1] == b.subrange(lo, lo + n)[n - 1]);
        assert(a.subrange(lo, lo + n - 1) =~= a.subrange(lo, lo + n).subrange(0, n - 1));
        assert(b.subrange(lo, lo + n - 1) =~= b.subrange(lo, lo + n).subrange(0, n - 1));
        lemma_msb_value_prefix(a, b, lo, n - 1);
    }
}

proof fn lemma_msb_value_of_bits(v: nat, w: nat)
    ensures
        msb_value(msb_bits(v, w), 0, w as int) == v % vstd::arithmetic::power2::pow2(w),
    decreases w,
{
    vstd::arithmetic::power2::lemma2_to64();
    if w == 0 {
        vstd::arithmetic::power2::lemma_pow2(0);
        assert(vstd::arithmetic::power::pow(2, 0) == 1) by {
            vstd::arithmetic::power::lemma_pow0(2);
        }
        assert(v % 1 == 0);
    } else {
        let s = msb_bits(v, w);
        let p = msb_bits(v / 2, (w - 1) as nat);
        lemma_msb_bits_len(v / 2, (w - 1) as nat);
        lemma_msb_value_of_bits(v / 2, (w - 1) as nat);
        assert(s =~= p.push((v % 2) as u8));
        assert(s.subrange(0, w - 1) =~= p.subrange(0, w - 1));
        lemma_msb_value_prefix(s, p, 0, w - 1);
        assert(s[w - 1] == (v % 2) as u8);
        let q = vstd::arithmetic::power2::pow2((w - 1) as nat);
        vstd::arithmetic::power2::lemma_pow2_unfold(w);
        vstd::arithmetic::power2::lemma_pow2_pos((w - 1) as nat);
        assert(2 * ((v / 2) % q) + v % 2 == v % (2 * q)) by {
            vstd::arithmetic::div_mod::lemma_mod_breakdown(v as int, 2, q as int);
            vstd::arithmetic::mul::lemma_mul_is_commutative(2, q as int);
        }
    }
}

proof fn lemma_msb_value_shift(a: Seq<u8>, b: Seq<u8>, c: Seq<u8>, n: int)
    requires
        0 <= n <= b.len(),
    ensures
        msb_value(a + b + c, a.len() as int, n) == msb_value(b, 0, n),
    decreases n,
{
    if n > 0 {
        lemma_msb_value_shift(a, b, c, n - 1);
        assert((a + b + c)[a.len() + n - 1] == b[n - 1]);
    }
}

/// A frame carrying the quality indicator of its own information bits and
/// a zero tail passes every check, at every rate.
pub proof fn lemma_framed_frames_validate(rate: Rc1TrafficRate, info: Seq<u8>)
    requires
        info.len() == rate.spec_info_bits(),
    ensures
        spec_validation(rate, framed(rate, info)) == (FrameValidation { fqi_valid: true, tail_valid: true, phy_valid: true }),
{
    crate::rc1_rate::lemma_rate_fills_frame(rate);
    let bits = framed(rate, info);
    let zeros = Seq::new(8, |k: int| 0u8);
    match rate {
        Rc1TrafficRate::Full => {
            let v = spec_crc12(info) as nat;
            let fqi = msb_bits(v, 12);
            lemma_msb_bits_len(v, 12);
            assert(bits.subrange(0, 172) =~= info);
            lemma_msb_value_shift(info, fqi, zeros, 12);
            lemma_msb_value_of_bits(v, 12);
            vstd::arithmetic::power2::lemma2_to64();
            assert(spec_crc12(info) <= 0xFFF) by { lemma_crc_after_bound(info, info.len() as int, CRC12_POLY, 12); }
            vstd::arithmetic::div_mod::lemma_small_mod(v, 4096);
        },
        Rc1TrafficRate::Half => {
            let v = spec_crc8(info) as nat;
            let fqi = msb_bits(v, 8);
            lemma_msb_bits_len(v, 8);
            assert(bits.subrange(0, 80) =~= info);
            lemma_msb_value_shift(info, fqi, zeros, 8);
            lemma_msb_value_of_bits(v, 8);
            vstd::arithmetic::power2::lemma2_to64();
            assert(spec_crc8(info) <= 0xFF) by { lemma_crc_after_bound(info, info.len() as int, CRC8_POLY, 8); }
            vstd::arithmetic::div_mod::lemma_small_mod(v, 256);
        },
        _ => {},
    }
    assert(bits.len() == rate.spec_frame_bits());
    assert forall|k: int| rate.spec_frame_bits() - rate.spec_tail_bits() <= k < rate.spec_frame_bits()
        implies #[trigger] bits[k] == 0 by {
        assert(bits[k] == zeros[k - (rate.spec_frame_bits() - 8)]);
    }
}

proof fn lemma_crc_after_bound(bits: Seq<u8>, n: int, poly: u16, width: u16)
    requires
        width == 8 || width == 12,
        poly <= reg_mask(width),
    ensures
        crc_after(bits, n, poly, width) <= reg_mask(width),
    decreases n,
{
    if n > 0 {
        lemma_crc_after_bound(bits, n - 1, poly, width);
        let reg = crc_after(bits, n - 1, poly, width);
        let mask = reg_mask(width);
        let shifted = (reg << 1u16) & mask;
        assert(shifted <= mask) by (bit_vector)
            requires shifted == (reg << 1u16) & mask;
        assert((shifted ^ poly) <= mask) by (bit_vector)
            requires shifted <= mask, poly <= mask, mask == 0xFFF || mask == 0xFF;
    }
}

/// One register clock separates what differs: equal registers fed bits of
/// different value, or different registers fed bits of the same value, come
/// out different (both generators have the constant term).
proof fn lemma_crc_step_distinct(r1: u16, r2: u16, b1: u8, b2: u8, poly: u16, width: u16)
    requires
        (width == 8 && poly == CRC8_POLY) || (width == 12 && poly == CRC12_POLY),
        r1 <= reg_mask(width),
        r2 <= reg_mask(width),
        (r1 == r2 && (b1 & 1) != (b2 & 1)) || (r1 != r2 && (b1 & 1) == (b2 & 1)),
    ensures
        crc_step(r1, b1, poly, width) != crc_step(r2, b2, poly, width),
{
    let c1 = (b1 & 1) as u16;
    let c2 = (b2 & 1) as u16;
    assert(c1 <= 1 && c2 <= 1 && ((b1 & 1) != (b2 & 1) <==> c1 != c2)) by (bit_vector)
        requires c1 == (b1 & 1) as u16, c2 == (b2 & 1) as u16;
    if width == 8 {
        let s1 = if ((r1 >> 7u16) & 1) ^ c1 == 1 { ((r1 << 1u16) & 0xFF) ^ 0x9B } else { (r1 << 1u16) & 0xFF };
        let s2 = if ((r2 >> 7u16) & 1) ^ c2 == 1 { ((r2 << 1u16) & 0xFF) ^ 0x9B } else { (r2 << 1u16) & 0xFF };
        assert(s1 != s2) by (bit_vector)
            requires
                r1 <= 0xFF, r2 <= 0xFF, c1 <= 1, c2 <= 1,
                (r1 == r2 && c1 != c2) || (r1 != r2 && c1 == c2),
                s1 == if ((r1 >> 7u16) & 1) ^ c1 == 1 { ((r1 << 1u16) & 0xFF) ^ 0x9B } else { (r1 << 1u16) & 0xFF },
                s2 == if ((r2 >> 7u16) & 1) ^ c2 == 1 { ((r2 << 1u16) & 0xFF) ^ 0x9B } else { (r2 << 1u16) & 0xFF };
        assert(crc_step(r1, b1, poly, width) == s1);
        assert(crc_step(r2, b2, poly, width) == s2);
    } else {
        let s1 = if ((r1 >> 11u16) & 1) ^ c1 == 1 { ((r1 << 1u16) & 0xFFF) ^ 0xF13 } else { (r1 << 1u16) & 0xFFF };
        let s2 = if ((r2 >> 11u16) & 1) ^ c2 == 1 { ((r2 << 1u16) & 0xFFF) ^ 0xF13 } else { (r2 << 1u16) & 0xFFF };
        assert(s1 != s2) by (bit_vector)
            requires
                r1 <= 0xFFF, r2 <= 0xFFF, c1 <= 1, c2 <= 1,
                (r1 == r2 && c1 != c2) || (r1 != r2 && c1 == c2),
                s1 == if ((r1 >> 11u16) & 1) ^ c1 == 1 { ((r1 << 1u16) & 0xFFF) ^ 0xF13 } else { (r1 << 1u16) & 0xFFF },
                s2 == if ((r2 >> 11u16) & 1) ^ c2 == 1 { ((r2 << 1u16) & 0xFFF) ^ 0xF13 } else { (r2 << 1u16) & 0xFFF };
        assert(crc_step(r1, b1, poly, width) == s1);
        assert(crc_step(r2, b2, poly, width) == s2);
    }
}

proof fn lemma_crc_after_same_prefix(s1: Seq<u8>, s2: Seq<u8>, n: int, poly: u16, width: u16)
    requires
        0 <= n <= s1.len(),
        n <= s2.len(),
        forall|k: int| 0 <= k < n ==> s1[k] == s2[k],
    ensures
        crc_after(s1, n, poly, width) == crc_after(s2, n, poly, width),
    decreases n,
{
    if n > 0 {
        lemma_crc_after_same_prefix(s1, s2, n - 1, poly, width);
    }
}

/// Two bit sequences that differ in the value of exactly one bit, at `i`,
/// leave different quality-indicator registers after any prefix that holds `i`.
proof fn lemma_crc_after_single_change(s1: Seq<u8>, s2: Seq<u8>, i: int, n: int, poly: u16, width: u16)
    requires
        (width == 8 && poly == CRC8_POLY) || (width == 12 && poly == CRC12_POLY),
        0 <= i < n <= s1.len(),
        s1.len() == s2.len(),
        forall|k: int| 0 <= k < s1.len() && k != i ==> s1[k] == s2[k],
        (s1[i] & 1) != (s2[i] & 1),
    ensures
        crc_after(s1, n, poly, width) != crc_after(s2, n, poly, width),
    decreases n,
{
    let r1 = crc_after(s1, n - 1, poly, width);
    let r2 = crc_after(s2, n - 1, poly, width);
    lemma_crc_after_bound(s1, n - 1, poly, width);
    lemma_crc_after_bound(s2, n - 1, poly, width);
    if n == i + 1 {
        lemma_crc_after_same_prefix(s1, s2, n - 1, poly, width);
        lemma_crc_step_distinct(r1, r2, s1[i], s2[i], poly, width);
    } else {
        lemma_crc_after_single_change(s1, s2, i, n - 1, poly, width);
        assert(s1[n - 1] == s2[n - 1]);
        lemma_crc_step_distinct(r1, r2, s1[n - 1], s2[n - 1], poly, width);
    }
}

/// A full-length frame with a clean tail passes its quality check exactly
/// when the quality indicator computed over its information bits equals the
/// one it carries, read most significant bit first: CRC-12 over 172 bits
/// against bits 172..184 at full rate, CRC-8 over 80 bits against bits 80..88
/// at half rate; the frame is valid exactly when it passes. Quarter- and
/// eighth-rate frames carry no quality indicator and pass on their tail alone.
pub proof fn lemma_validation_checks_quality_indicator(rate: Rc1TrafficRate, bits: Seq<u8>)
    requires
        bits.len() >= rate.spec_frame_bits(),
        tail_zero(rate, bits),
    ensures
        spec_validation(rate, bits).tail_valid,
        spec_validation(rate, bits).phy_valid == spec_validation(rate, bits).fqi_valid,
        rate == Rc1TrafficRate::Full ==> (spec_validation(rate, bits).fqi_valid
            <==> spec_crc12(bits.subrange(0, 172)) as nat == msb_value(bits, 172, 12)),
        rate == Rc1TrafficRate::Half ==> (spec_validation(rate, bits).fqi_valid
            <==> spec_crc8(bits.subrange(0, 80)) as nat == msb_value(bits, 80, 8)),
        (rate == Rc1TrafficRate::Quarter || rate == Rc1TrafficRate::Eighth) ==> spec_validation(rate, bits).fqi_valid,
{
}

/// The quality indicator detects every single-bit error in the information
/// bits: an encoded full- or half-rate frame with any one information bit
/// changed in value fails its quality check and is not valid.
pub proof fn lemma_single_bit_error_detected(rate: Rc1TrafficRate, info: Seq<u8>, i: int, b: u8)
    requires
        rate == Rc1TrafficRate::Full || rate == Rc1TrafficRate::Half,
        info.len() == rate.spec_info_bits(),
        0 <= i < info.len(),
        b % 2 != info[i] % 2,
    ensures
        !spec_validation(rate, framed(rate, info).update(i, b)).fqi_valid,
        !spec_validation(rate, framed(rate, info).update(i, b)).phy_valid,
{
    crate::rc1_rate::lemma_rate_fills_frame(rate);
    let bits = framed(rate, info);
    let bad = bits.update(i, b);
    let info2 = info.update(i, b);
    let zeros = Seq::new(8, |k: int| 0u8);
    let x = info[i];
    assert((x & 1) != (b & 1)) by (bit_vector)
        requires x % 2 != b % 2;
    vstd::arithmetic::power2::lemma2_to64();
    let ilen = rate.spec_info_bits() as int;
    let qlen = rate.spec_fqi_bits() as int;
    let (v, fqi) = if rate == Rc1TrafficRate::Full {
        (spec_crc12(info) as nat, msb_bits(spec_crc12(info) as nat, 12))
    } else {
        (spec_crc8(info) as nat, msb_bits(spec_crc8(info) as nat, 8))
    };
    lemma_msb_bits_len(v, qlen as nat);
    assert(bits == info + fqi + zeros);
    assert(bits.len() == rate.spec_frame_bits());
    assert(bad.subrange(0, ilen) =~= info2);
    assert(bad.subrange(ilen, ilen + qlen) =~= bits.subrange(ilen, ilen + qlen));
    lemma_msb_value_prefix(bad, bits, ilen, qlen);
    lemma_msb_value_shift(info, fqi, zeros, qlen);
    lemma_msb_value_of_bits(v, qlen as nat);
    assert forall|k: int| rate.spec_frame_bits() - rate.spec_tail_bits() <= k < rate.spec_frame_bits()
        implies #[trigger] bad[k] == 0 by {
        assert(bad[k] == bits[k]);
        assert(bits[k] == zeros[k - (rate.spec_frame_bits() - 8)]);
    }
    assert(info2[i] == b);
    if rate == Rc1TrafficRate::Full {
        lemma_crc_after_bound(info, info.len() as int, CRC12_POLY, 12);
        vstd::arithmetic::div_mod::lemma_small_mod(v, 4096);
        lemma_crc_after_single_change(info, info2, i, 172, CRC12_POLY, 12);
    } else {
        lemma_crc_after_bound(info, info.len() as int, CRC8_POLY, 8);
        vstd::arithmetic::div_mod::lemma_small_mod(v, 256);
        lemma_crc_after_single_change(info, info2, i, 80, CRC8_POLY, 8);
    }
}

} // verus!
