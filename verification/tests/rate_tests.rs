use cdma_bts::fqi::{crc12, crc8, FrameValidation};
use cdma_bts::rate_decision::{
    choose_best_frame, choose_best_rate, is_null_frame, is_preamble_frame, no_fqi_candidate_acceptable,
    DecodedTrafficFrame,
};
use cdma_bts::rate_order::{adaptive_order_from_window, AlignerRateHistory, DecoderRateHistory};
use cdma_bts::rc1_rate::{randomizer_advance_chips, search_order, Rc12ReverseTrafficRate, Rc1TrafficRate};

use Rc1TrafficRate::{Eighth, Full, Half, Quarter};

fn no_fqi_frame(phy_valid: bool, ml_terminal_matches_zero: bool) -> DecodedTrafficFrame {
    DecodedTrafficFrame {
        rate: Eighth,
        bits: vec![0; Eighth.frame_bits()],
        validation: FrameValidation { fqi_valid: true, tail_valid: phy_valid, phy_valid },
        ml_terminal_matches_zero,
    }
}

#[test]
fn no_fqi_candidate_requires_phy_valid_and_ml_terminal_zero() {
    assert!(no_fqi_candidate_acceptable(&no_fqi_frame(true, true)));
    assert!(!no_fqi_candidate_acceptable(&no_fqi_frame(true, false)));
    assert!(!no_fqi_candidate_acceptable(&no_fqi_frame(false, true)));
}

/// Bitwise CRC with all-ones initial state, written out independently.
fn reference_crc(bits: &[u8], poly: u16, width: u32) -> u16 {
    let mask: u16 = ((1u32 << width) - 1) as u16;
    let top: u16 = 1 << (width - 1);
    let mut reg: u16 = mask;
    for &b in bits {
        let fb = ((reg & top) != 0) ^ (b & 1 == 1);
        reg = (reg << 1) & mask;
        if fb {
            reg ^= poly & mask;
        }
    }
    reg
}

fn bits_of(seed: u32, n: usize) -> Vec<u8> {
    let mut x = seed;
    (0..n)
        .map(|_| {
            x = x.wrapping_mul(1_103_515_245).wrapping_add(12_345);
            ((x >> 16) & 1) as u8
        })
        .collect()
}

fn frame_with_fqi(rate: Rc1TrafficRate, seed: u32) -> Vec<u8> {
    let info = bits_of(seed, rate.info_bits());
    let mut bits = info.clone();
    let fqi_bits = rate.fqi_bits();
    if fqi_bits > 0 {
        let crc = if fqi_bits == 12 { crc12(&info, info.len()) } else { crc8(&info, info.len()) };
        for k in (0..fqi_bits).rev() {
            bits.push(((crc >> k) & 1) as u8);
        }
    }
    bits.extend(std::iter::repeat(0).take(rate.tail_bits()));
    bits
}

#[test]
fn crc_matches_an_independent_bitwise_register() {
    for seed in 0..20 {
        let bits = bits_of(seed, 172);
        assert_eq!(crc12(&bits, 172), reference_crc(&bits, 0xF13, 12));
        assert_eq!(crc8(&bits, 80), reference_crc(&bits[..80], 0x9B, 8));
    }
    assert_eq!(crc12(&[], 0), 0xFFF);
    assert_eq!(crc8(&[], 0), 0xFF);
}

#[test]
fn frame_validation_accepts_clean_frames_and_rejects_corruption() {
    for rate in [Full, Half, Quarter, Eighth] {
        let bits = frame_with_fqi(rate, 7);
        assert_eq!(bits.len(), rate.frame_bits());
        let v = FrameValidation::for_rate(rate, &bits);
        assert!(v.tail_valid && v.phy_valid, "{:?}", rate);

        let mut tail_hit = bits.clone();
        let last = tail_hit.len() - 1;
        tail_hit[last] = 1;
        let v = FrameValidation::for_rate(rate, &tail_hit);
        assert!(!v.tail_valid && !v.phy_valid);

        assert!(!FrameValidation::for_rate(rate, &bits[..bits.len() - 1]).phy_valid);
    }
    let mut info_hit = frame_with_fqi(Full, 3);
    info_hit[5] ^= 1;
    let v = FrameValidation::for_rate(Full, &info_hit);
    assert!(v.tail_valid && !v.fqi_valid && !v.phy_valid);
}

#[test]
fn rate_tables_fill_the_frame() {
    assert_eq!(search_order(), [Full, Half, Quarter, Eighth]);
    for (rate, frame, info, fqi, bps, pcgs, rep) in [
        (Full, 192, 172, 12, 9600, 16, 1),
        (Half, 96, 80, 8, 4800, 8, 2),
        (Quarter, 48, 40, 0, 2400, 4, 4),
        (Eighth, 24, 16, 0, 1200, 2, 8),
    ] {
        assert_eq!(rate.frame_bits(), frame);
        assert_eq!(rate.info_bits(), info);
        assert_eq!(rate.fqi_bits(), fqi);
        assert_eq!(rate.tail_bits(), 8);
        assert_eq!(rate.rate_bps(), bps);
        assert_eq!(rate.active_pcg_count(), pcgs);
        assert_eq!(rate.repetition_factor(), rep);
        assert_eq!(3 * frame * rep, 576);
    }
    assert_eq!(Full.to_interleaver_rate(), Rc12ReverseTrafficRate::Full);
    assert_eq!(Rc12ReverseTrafficRate::Eighth.repetition_factor(), 8);
    assert_eq!(randomizer_advance_chips(24_576), 24_576 - 1550);
    assert_eq!(randomizer_advance_chips(100), 0);
}

#[test]
fn data_burst_randomizer_masks_nest() {
    let b: [u8; 14] = [1, 0, 1, 1, 0, 0, 1, 0, 1, 0, 0, 1, 0, 1];
    let full = Full.exact_active_pcgs(&b);
    let half = Half.exact_active_pcgs(&b);
    let quarter = Quarter.exact_active_pcgs(&b);
    let eighth = Eighth.exact_active_pcgs(&b);
    assert_eq!(full, [true; 16]);
    assert_eq!(half.iter().filter(|&&a| a).count(), 8);
    assert_eq!(quarter.iter().filter(|&&a| a).count(), 4);
    assert_eq!(eighth.iter().filter(|&&a| a).count(), 2);
    for i in 0..16 {
        assert!(!eighth[i] || quarter[i]);
        assert!(!quarter[i] || half[i]);
        assert_eq!(half[i], (i % 2) as u8 == b[i / 2]);
    }
    // Pair 8 + j picks pair 2j + b[8 + j]; quadruple 12 + g picks half of frame.
    let on = |idx: &[usize]| {
        let mut m = [false; 16];
        for &i in idx {
            m[i] = true;
        }
        m
    };
    assert_eq!(half, on(&[1, 2, 5, 7, 8, 10, 13, 14]));
    assert_eq!(quarter, on(&[2, 5, 8, 14]));
    assert_eq!(eighth, on(&[2, 14]));
}

#[test]
fn adaptive_order_puts_frequent_rates_first_keeping_ties() {
    assert_eq!(adaptive_order_from_window(&[]), [Full, Half, Quarter, Eighth]);
    assert_eq!(adaptive_order_from_window(&[Eighth, Eighth, Half]), [Eighth, Half, Full, Quarter]);
    assert_eq!(adaptive_order_from_window(&[Quarter, Half, Half, Quarter]), [Half, Quarter, Full, Eighth]);
}

#[test]
fn rate_histories_remember_the_last_eight_frames() {
    let mut a = AlignerRateHistory::new();
    for _ in 0..8 {
        a.record_rate(Quarter);
    }
    for _ in 0..5 {
        a.record_rate(Eighth);
    }
    assert_eq!(a.count, 8);
    assert_eq!(a.adaptive_search_order(), [Eighth, Quarter, Full, Half]);

    let mut d = DecoderRateHistory::new();
    assert_eq!(d.adaptive_search_order(), [Full, Half, Quarter, Eighth]);
    d.record_rate(Half);
    d.record_rate(Half);
    d.record_rate(Full);
    assert_eq!(d.adaptive_search_order(), [Half, Full, Quarter, Eighth]);
}

fn candidates(valid: [bool; 4], ml_zero: [bool; 4], full_zero: bool) -> Vec<DecodedTrafficFrame> {
    [Full, Half, Quarter, Eighth]
        .iter()
        .enumerate()
        .map(|(k, &rate)| DecodedTrafficFrame {
            rate,
            bits: if rate == Full && !full_zero { vec![1; 192] } else { vec![0; rate.frame_bits()] },
            validation: FrameValidation { fqi_valid: valid[k], tail_valid: valid[k], phy_valid: valid[k] },
            ml_terminal_matches_zero: ml_zero[k],
        })
        .collect()
}

#[test]
fn decoder_prefers_crc_rates_in_search_order() {
    let order = [Half, Full, Quarter, Eighth];
    let c = candidates([true, true, true, true], [true; 4], false);
    assert_eq!(choose_best_rate(&order, None, &c), Some(Half));
    assert_eq!(choose_best_rate(&[Full, Half, Quarter, Eighth], None, &c), Some(Full));
    let c = candidates([false, false, true, true], [true, true, true, true], false);
    assert_eq!(choose_best_rate(&order, None, &c), Some(Quarter));
    assert_eq!(choose_best_rate(&order, Some(Eighth), &c), Some(Eighth));
    let c = candidates([false, false, false, false], [true; 4], false);
    assert_eq!(choose_best_rate(&order, None, &c), None);
    let c = candidates([false, false, true, false], [true, true, false, true], false);
    assert_eq!(choose_best_rate(&order, None, &c), None);
    let c = candidates([false, false, false, true], [true; 4], false);
    assert_eq!(choose_best_rate(&order, Some(Eighth), &c), Some(Eighth));
    let c = candidates([true, false, false, false], [true; 4], false);
    assert_eq!(choose_best_frame(&[Full, Half, Quarter, Eighth], None, &c), Some(Full));
}

#[test]
fn null_and_preamble_frames() {
    let c = candidates([false, false, false, true], [true; 4], false);
    assert!(is_null_frame(&c));
    let c = candidates([true, false, false, false], [true; 4], true);
    assert!(is_null_frame(&c));
    let c = candidates([true, false, false, false], [true; 4], false);
    assert!(!is_null_frame(&c));
    assert!(is_preamble_frame(&candidates([true; 4], [true; 4], true)[0]));
    assert!(!is_preamble_frame(&candidates([true; 4], [true; 4], false)[0]));
    assert!(!is_preamble_frame(&candidates([true; 4], [true; 4], true)[3]));
}

#[test]
fn modulo_is_euclidean() {
    assert_eq!(cdma_bts::modulo(-1, 5), 4);
    assert_eq!(cdma_bts::modulo(-10, 5), 0);
    assert_eq!(cdma_bts::modulo(7, 5), 2);
    assert_eq!(cdma_bts::modulo(0, 3), 0);
}
