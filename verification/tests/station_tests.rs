use cdma_bts::mobile_station::{LcCheck, MobileStation, MsState, PagingRate, PagingStart, SyncEvent};
use cdma_bts::paging::{
    chosen_frames, count_ones, half_frame_bits, invert_bits, safe_switch_boundary, validate_half_frame,
    HalfFrameInput, HalfFrameStats, PagingChannelProcessor, Polarity, PolarityTracker,
};
use cdma_bts::peak_decimator::PeakSampleDecimator;
use cdma_bts::pn_reference::{oqpsk_pairs, ShortCodeReferenceKind};
use cdma_bts::epl_fer::{EplFerWindow, PhyEvent};

fn sync(pilot_pn: u16, lc_state: u64, prat: u8, end: usize) -> SyncEvent {
    SyncEvent { pilot_pn, lc_state, prat, last_superframe_end_chip: end }
}

#[test]
fn paging_starts_at_the_advertised_chip_with_the_latched_state() {
    let mut ms = MobileStation::new();
    assert_eq!(ms.state, MsState::Acquiring);
    let check = ms.handle_sync_event(sync(10, 0xABC, 1, 1_000_000));
    assert_eq!(check, LcCheck::Seed { lc_state: 0xABC });
    assert_eq!(ms.state, MsState::SyncLocked);
    let start_chip = 1_000_000 + 393_216 - 640;
    assert_eq!(ms.sync_info.unwrap().paging_start_chip, start_chip);

    // A later sync event is cross-checked but not latched.
    let check = ms.handle_sync_event(sync(10, 0xDEF, 0, 1_100_000));
    assert_eq!(check, LcCheck::Advance { delta_chips: 100_000, lc_state: 0xDEF });
    assert_eq!(ms.sync_info.unwrap().lc_state, 0xABC);

    assert_eq!(ms.try_start_paging(start_chip - 1), None);
    assert_eq!(ms.paging_checkpoint(), None);
    let start = ms.try_start_paging(start_chip + 500);
    assert_eq!(
        start,
        Some(PagingStart { pilot_pn: 10, lc_state: 0xABC, lc_gap_chips: 500, rate: PagingRate::Rate4800 })
    );
    assert_eq!(ms.state, MsState::PagingActive);
    assert_eq!(ms.paging_checkpoint(), Some((0xABC, start_chip)));
    assert_eq!(ms.try_start_paging(start_chip + 1000), None);
}

#[test]
fn forced_paging_starts_at_sync_lock_and_reserved_prat_is_9600() {
    let mut ms = MobileStation::new().with_force_start_paging_on_sync_lock(true);
    assert!(ms.force_start_paging_on_sync_lock);
    assert_eq!(ms.try_start_paging(5), None);
    ms.handle_sync_event(sync(0, 7, 3, 0));
    let start = ms.try_start_paging(5).unwrap();
    assert_eq!(start.rate, PagingRate::Rate9600);
    assert_eq!(start.lc_gap_chips, 0);
}

#[test]
fn lc_check_delta_saturates_at_zero() {
    let mut ms = MobileStation::new();
    ms.handle_sync_event(sync(0, 1, 0, 2_000_000));
    let check = ms.handle_sync_event(sync(0, 2, 0, 1_000_000));
    assert_eq!(check, LcCheck::Advance { delta_chips: 0, lc_state: 2 });
}

#[test]
fn test_peak_sample_decimator_passthrough_rate_1() {
    let p = PeakSampleDecimator::new(1);
    assert!(p.is_passthrough());
    let samples = vec![7u16; 8];
    let out = p.decimate(&samples, 0);
    assert_eq!(8, out.len());
}

#[test]
fn decimator_keeps_one_phase_per_chip() {
    let p = PeakSampleDecimator::new(4);
    assert!(!p.is_passthrough());
    let samples: Vec<i32> = (0..12).collect();
    assert_eq!(p.decimate(&samples, 1), vec![1, 5, 9]);
    assert_eq!(p.output_chip_start(10), 2);
    assert_eq!(PeakSampleDecimator::new(0).rate, 1);
}

#[test]
fn oqpsk_q_branch_is_half_a_chip_late() {
    let i: Vec<i8> = vec![1, 2, 3, 4, 5, 6];
    let q: Vec<i8> = vec![10, 20, 30, 40, 50, 60];
    let pairs = oqpsk_pairs(&i, &q, 4);
    assert_eq!(pairs, vec![(1, 10), (2, 10), (3, 10), (4, 20), (5, 30), (6, 40)]);
    assert_ne!(ShortCodeReferenceKind::Cdma2000, ShortCodeReferenceKind::HrpdAccessTerminal);
}

#[test]
fn rc1_epl_fer_ignores_unclassified_phy_status_events() {
    let mut w = EplFerWindow::new();
    let status = PhyEvent { phy_frame: None, phy_status: Some(1), phy_valid: None };
    let invalid = PhyEvent { phy_frame: None, phy_status: Some(1), phy_valid: Some(0) };
    let valid = PhyEvent { phy_frame: Some(1), phy_status: None, phy_valid: Some(1) };

    w.observe(true, &[status, invalid, valid]);

    assert_eq!(w.phy_frames, 2);
    assert_eq!(w.phy_invalid, 1);
    assert_eq!(w.fer_frames, 2);
    assert_eq!(w.fer_bits, 0b10);
}

#[test]
fn epl_fer_window_freezes_above_five_of_fifty() {
    let mut w = EplFerWindow::new();
    let bad = PhyEvent { phy_frame: Some(1), phy_status: None, phy_valid: Some(0) };
    let good = PhyEvent { phy_frame: Some(1), phy_status: None, phy_valid: Some(1) };
    w.observe(false, &[bad; 3]);
    assert_eq!(w.phy_frames, 0);
    for _ in 0..6 {
        w.record_frame(true);
    }
    assert!(!w.slew_frozen());
    for _ in 0..44 {
        w.observe(true, &[good]);
    }
    assert_eq!(w.fer_frames, 50);
    assert!(w.slew_frozen());
    w.observe(true, &[good]);
    assert_eq!(w.fer_frames, 50);
    assert_eq!(w.fer_bits.count_ones(), 5);
    assert!(!w.slew_frozen());
    assert!(w.fer_bits < (1u64 << 50));
}

#[test]
fn polarity_switches_once_then_holds_off() {
    let mut t = PolarityTracker::new();
    assert!(!t.maybe_switch_active_polarity(true, true, true, true));
    t.set_active_polarity(Polarity::Normal);
    // Target CRC invalid: no switch, pending cleared.
    assert!(!t.maybe_switch_active_polarity(true, true, false, true));
    // Not ahead by the threshold.
    assert!(!t.maybe_switch_active_polarity(true, false, true, false));
    // Not a safe boundary.
    assert!(!t.maybe_switch_active_polarity(false, false, true, true));
    assert!(t.maybe_switch_active_polarity(true, false, true, true));
    assert_eq!(t.active_polarity, Some(Polarity::Inverted));
    assert_eq!(t.polarity_switches, 1);
    for _ in 0..12 {
        assert!(!t.maybe_switch_active_polarity(true, true, false, true));
    }
    assert_eq!(t.switch_holdoff, 0);
    assert!(t.maybe_switch_active_polarity(true, true, false, true));
    assert_eq!(t.active_polarity, Some(Polarity::Normal));
    assert_eq!(t.polarity_switches, 2);
}

#[test]
fn idle_half_frames_count_bit_errors() {
    assert_eq!(half_frame_bits(PagingRate::Rate4800), 48);
    assert_eq!(half_frame_bits(PagingRate::Rate9600), 96);
    let mut bits = vec![0u8; 96];
    bits[10] = 1;
    bits[20] = 1;
    assert_eq!(validate_half_frame(&bits, false), 2);
    assert_eq!(validate_half_frame(&bits, true), 0);
    bits[0] = 1;
    assert_eq!(validate_half_frame(&bits, false), 0);
    assert_eq!(count_ones(&bits), 3);
    assert_eq!(invert_bits(&[0, 1, 1, 0]), vec![1, 0, 0, 1]);
}


fn half(normal_frames: usize, inverted_frames: usize, normal_crc_valid: bool, inverted_crc_valid: bool) -> HalfFrameInput {
    HalfFrameInput {
        normal_sci: 0,
        inverted_sci: 1,
        normal_in_msg: false,
        inverted_in_msg: false,
        normal_frames,
        inverted_frames,
        normal_crc_valid,
        inverted_crc_valid,
        inverted_scores_higher: false,
        normal_leads: false,
        inverted_leads: false,
    }
}

#[test]
fn first_crc_valid_polarity_becomes_active() {
    let mut t = PolarityTracker::new();
    let (chosen, switched) = t.half_frame_step(half(1, 1, false, true));
    assert_eq!(t.active_polarity, Some(Polarity::Inverted));
    assert_eq!(chosen, Some(Polarity::Inverted));
    assert!(!switched);
    // Both readers completed bad messages: nothing is emitted.
    let (chosen, _) = t.half_frame_step(half(1, 1, false, false));
    assert_eq!(chosen, None);
    // The other polarity is CRC-valid and far ahead at a safe boundary: switch.
    let mut h = half(1, 0, true, false);
    h.normal_leads = true;
    let (chosen, switched) = t.half_frame_step(h);
    assert!(switched);
    assert_eq!(t.active_polarity, Some(Polarity::Normal));
    assert_eq!(chosen, Some(Polarity::Normal));
}

#[test]
fn emitted_messages_follow_crc_then_preference() {
    assert_eq!(chosen_frames(Polarity::Normal, half(1, 1, false, true)), Some(Polarity::Inverted));
    assert_eq!(chosen_frames(Polarity::Normal, half(1, 0, false, false)), Some(Polarity::Normal));
    assert_eq!(chosen_frames(Polarity::Inverted, half(1, 0, false, false)), Some(Polarity::Normal));
    assert_eq!(chosen_frames(Polarity::Inverted, half(0, 0, false, false)), None);
    let mut h = half(0, 0, false, false);
    h.normal_in_msg = true;
    assert!(!safe_switch_boundary(Some(Polarity::Normal), h));
    assert!(safe_switch_boundary(Some(Polarity::Inverted), h));
    assert!(safe_switch_boundary(None, h));
}

#[test]
fn half_frame_stats_count_the_cleaner_polarity() {
    let mut s = HalfFrameStats::new();
    assert_eq!(s.record(0, 95), 1);
    assert_eq!(s.record(3, 92), 2);
    assert_eq!(s.good_half_frames, 1);
    assert_eq!(s.bad_half_frames, 1);
    assert_eq!(s.total_bit_errors, 3);
}


#[test]
fn paging_half_frame_timeline() {
    let mut p = PagingChannelProcessor::new();
    assert_eq!(p.half_frame_bits, 96);
    assert_eq!(PagingChannelProcessor::new_with_rate(PagingRate::Rate4800).half_frame_bits, 48);
    p.begin_block(1000, 0);
    assert_eq!(p.chips_per_bit, 1);
    p.begin_block(5000, 128);
    assert_eq!(p.next_chip, 1000);
    assert!(!p.half_frame_ready(96, 95));
    assert!(p.half_frame_ready(96, 96));
    assert_eq!(p.next_half_frame_chip(), 1000);
    assert_eq!(p.next_half_frame_chip(), 1000 + 96 * 128);
    p.count_messages(2, 1);
    assert_eq!(p.count_event(), 1);
    assert_eq!(p.completed_messages, 2);
    assert_eq!(p.crc_valid_messages, 1);
}

#[test]
fn candidate_alignment_cuts_whole_half_frames_after_the_shift() {
    let bits: Vec<u8> = (0..100u32).map(|i| (i % 3 == 0) as u8).collect();
    let frames = PagingChannelProcessor::alignment_half_frames(&bits, 3, false, PagingRate::Rate4800);
    assert_eq!(frames.len(), 2);
    assert_eq!(frames[0], bits[3..51].to_vec());
    assert_eq!(frames[1], bits[51..99].to_vec());
    let flipped = PagingChannelProcessor::alignment_half_frames(&bits, 3, true, PagingRate::Rate4800);
    assert_eq!(flipped[1], invert_bits(&bits[51..99]));
    assert_eq!(PagingChannelProcessor::alignment_half_frames(&bits, 10, false, PagingRate::Rate9600).len(), 0);
    assert_eq!(PagingChannelProcessor::alignment_half_frames(&bits, 4, false, PagingRate::Rate9600).len(), 1);
    assert!(PagingChannelProcessor::alignment_half_frames(&bits, 100, false, PagingRate::Rate4800).is_empty());
    assert_eq!(PagingChannelProcessor::evaluate_alignment(&[true, false, true]), (3, 2));
    assert_eq!(PagingChannelProcessor::evaluate_alignment(&[]), (0, 0));
}

#[test]
fn lost_upstream_lock_tears_down_and_paging_is_rebuilt_after_the_next_sync() {
    let mut ms = MobileStation::new();
    ms.handle_sync_event(sync(10, 0xABC, 1, 1_000_000));
    let start_chip = 1_000_000 + 393_216 - 640;
    assert!(ms.try_start_paging(start_chip).is_some());
    assert_eq!(ms.state, MsState::PagingActive);

    assert!(ms.lock_lost());
    assert_eq!(ms.state, MsState::Acquiring);
    assert_eq!(ms.sync_info, None);
    assert_eq!(ms.lc_verify_prev_chip, None);
    assert_eq!(ms.paging_checkpoint(), None);
    assert_eq!(ms.try_start_paging(start_chip + 10_000_000), None);

    // The next sync event is latched afresh and seeds a new check.
    let check = ms.handle_sync_event(sync(12, 0x123, 0, 5_000_000));
    assert_eq!(check, LcCheck::Seed { lc_state: 0x123 });
    assert_eq!(ms.state, MsState::SyncLocked);
    let new_start = 5_000_000 + 393_216 - 12 * 64;
    let start = ms.try_start_paging(new_start);
    assert_eq!(
        start,
        Some(PagingStart { pilot_pn: 12, lc_state: 0x123, lc_gap_chips: 0, rate: PagingRate::Rate9600 })
    );
    // Losing lock before paging starts reports no paging chain to tear down.
    assert!(ms.lock_lost());
    ms.handle_sync_event(sync(12, 0x123, 0, 5_000_000));
    assert!(!ms.lock_lost());
}

#[test]
fn rc1_epl_freezes_when_recent_fer_exceeds_ten_percent() {
    // A full window of fifty frames with six failures: the early/late slew
    // loop holds its fraction and commands no slew.
    let mut w = EplFerWindow::new();
    w.fer_frames = 50;
    w.fer_bits = 0b11_1111;
    assert!(w.slew_frozen());
    // Five failures are tolerated.
    w.fer_bits = 0b1_1111;
    assert!(!w.slew_frozen());
}
