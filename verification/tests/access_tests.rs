use cdma_bts::access::{
    bin_delay, lc_start_chip_for_window, suppress_peaks, AccessChainTags, AccessFinger, AccessSpawn, CandidateState,
    DetectionEvent, RakeAccessSearcher, RakeAcquisitionConfig,
};

#[test]
fn peaks_within_the_suppression_radius_merge() {
    assert_eq!(suppress_peaks(&[10, 12, -3, 14, 15, 100], 4, 32), vec![10, -3, 15, 100]);
    assert_eq!(suppress_peaks(&[1, 20, 40, 60], 4, 2), vec![1, 20]);
    assert_eq!(bin_delay(10, 1024), 10);
    assert_eq!(bin_delay(512, 1024), 512);
    assert_eq!(bin_delay(1000, 1024), -24);
}

#[test]
fn candidates_persist_move_to_stage2_and_detect() {
    let mut s = RakeAccessSearcher::new(4);
    assert_eq!(s.composite_filter_delay, 94);
    assert_eq!(s.cfg, RakeAcquisitionConfig::default_4x());
    s.take_peak(100);
    s.take_peak(300);
    assert_eq!(s.candidates.len(), 2);
    assert_eq!(s.candidates[0].id, 1);
    // Within one chip (four samples): the first candidate follows the peak.
    s.block_counter = 5;
    s.take_peak(103);
    assert_eq!(s.candidates.len(), 2);
    assert_eq!(s.candidates[0].coarse_delay_samples, 103);
    assert_eq!(s.candidates[0].persistence, 2);
    assert_eq!(s.candidates[0].last_seen_block, 5);
    assert_eq!(s.active_candidate_count(), 2);

    s.prune_candidates();
    assert!(s.candidates.iter().all(|c| c.state == CandidateState::Stage2SearchingLc));

    let ev = s.record_stage2(0, 1, 7, true, 1000, 0);
    assert_eq!(ev, None);
    assert_eq!(s.candidates[0].state, CandidateState::VerifyingPreamble);
    assert_eq!(s.candidates[0].first_preamble_tx_chip, Some(1007));
    let ev = s.record_stage2(0, 1, 9, true, 2000, 0).expect("second hit detects");
    assert_eq!(ev.candidate_id, 1);
    assert_eq!(ev.delay_samples, 104);
    assert_eq!(ev.tx_chip_at_despread_origin, 2009);
    assert_eq!(ev.first_preamble_tx_chip, 1007);
    assert_eq!(s.candidates[0].state, CandidateState::PreambleDetected);
    // Detected candidates no longer follow peaks.
    s.take_peak(104);
    assert_eq!(s.candidates.len(), 3);
    assert_eq!(s.active_candidate_count(), 2);
}

#[test]
fn fruitless_candidates_are_rejected_after_sixteen_searches() {
    let mut s = RakeAccessSearcher::new(4);
    s.take_peak(50);
    s.prune_candidates();
    for _ in 0..16 {
        assert_eq!(s.record_stage2(0, 0, 0, false, 10, 0), None);
    }
    s.prune_candidates();
    assert!(s.candidates.is_empty());
}

#[test]
fn live_candidates_are_capped() {
    let mut s = RakeAccessSearcher::new(4);
    for k in 0..10 {
        s.take_peak(k * 100);
    }
    assert_eq!(s.candidates.len(), 8);
    assert_eq!(s.next_candidate_id, 9);
}

#[test]
fn access_timing_helpers() {
    let mut s = RakeAccessSearcher::new(4);
    s.absolute_origin_sample = Some(1000);
    assert_eq!(s.base_phase(0), (1000 % 131_072 + 131_072 - 94) % 131_072);
    assert_eq!(s.abs_chip_at(50), (1050 - 94) / 4);
    assert_eq!(s.tx_chip_at_sample(50), 262);
    assert_eq!(s.despread_phase_at(0), 906);
    let s = s.with_composite_filter_delay(2000);
    assert_eq!(s.despread_phase_at(0), 131_072 - 1000);
    assert_eq!(lc_start_chip_for_window(1000, 94, 4, 0, 6, -10), (1006 - 94) / 4 - 10);
    assert_eq!(lc_start_chip_for_window(0, 94, 4, 0, -6, -10), 0);
}

#[test]
fn fingers_need_validation_within_128_windows() {
    let mut s = RakeAccessSearcher::new(4);
    let f = AccessFinger { id: 1, sample_delay: 0, lc_phase_chips: 0, despread_phase: 500, blocks_fed: 129, hard_validated: false };
    s.fingers.push(f);
    s.fingers.push(AccessFinger { id: 2, blocks_fed: 128, despread_phase: 900, ..f });
    s.fingers.push(AccessFinger { id: 3, hard_validated: true, despread_phase: 2000, ..f });
    assert!(s.finger_near(502));
    assert!(!s.finger_near(504));
    s.retain_fingers();
    assert_eq!(s.fingers.iter().map(|f| f.id).collect::<Vec<_>>(), vec![2, 3]);
    assert_eq!(s.schedule(), (false, true));
    s.fingers.clear();
    s.block_counter = 16;
    assert_eq!(s.schedule(), (true, true));
    s.block_counter = 0;
    assert_eq!(s.schedule(), (false, true));
}

#[test]
fn spawned_finger_geometry_moves_chips_to_the_chip_center() {
    let mut s = RakeAccessSearcher::new(4);
    let det = DetectionEvent {
        candidate_id: 7,
        delay_samples: -3,
        finger_delay_samples: -3,
        lc_phase_chips: 2,
        tx_chip_at_despread_origin: 100,
        first_preamble_tx_chip: 90,
    };
    let sp = s.spawn_finger(det, 1000, 500, -3, 2).unwrap();
    assert_eq!(
        sp,
        AccessSpawn {
            despread_phase: 906,
            replay_despread_phase: 406,
            center_offset: 1,
            first_tx_chip: 101,
            first_preamble_chip: 91,
            chain_start_chip: 125,
        }
    );
    assert_eq!(
        s.fingers,
        vec![AccessFinger {
            id: 7,
            sample_delay: -3,
            lc_phase_chips: 2,
            despread_phase: 406,
            blocks_fed: 0,
            hard_validated: false,
        }]
    );
    // Within one chip of the finger just started: nothing new.
    let mut near = RakeAccessSearcher::new(4);
    near.fingers.push(AccessFinger { despread_phase: 908, ..s.fingers[0] });
    assert_eq!(near.spawn_finger(det, 1001, 500, -3, 2), None);
    // A later delay lands one chip earlier and clamps at zero.
    let mut t = RakeAccessSearcher::new(4);
    let early = DetectionEvent { tx_chip_at_despread_origin: 0, ..det };
    let sp = t.spawn_finger(early, 1000, 1000, 5, 0).unwrap();
    assert_eq!(sp.center_offset, 1);
    assert_eq!(sp.first_tx_chip, 0);
    assert_eq!(sp.first_preamble_chip, 89);
}

#[test]
fn access_windows_and_finger_outputs() {
    let mut s = RakeAccessSearcher::new(4);
    s.note_block_origin(Some(-5));
    assert_eq!(s.absolute_origin_sample, Some(0));
    s.note_block_origin(Some(900));
    assert_eq!(s.absolute_origin_sample, Some(0));
    let mut t = RakeAccessSearcher::new(4);
    t.note_block_origin(None);
    assert_eq!(t.absolute_origin_sample, None);
    t.note_block_origin(Some(900));
    assert_eq!(t.absolute_origin_sample, Some(900));

    assert_eq!(s.take_window(1023), None);
    assert_eq!(s.take_window(1024), Some(0));
    assert_eq!(s.take_window(5000), Some(1024));
    assert_eq!(s.samples_consumed, 2048);
    s.finish_window();
    assert_eq!(s.block_counter, 1);

    s.fingers.push(AccessFinger {
        id: 3,
        sample_delay: 0,
        lc_phase_chips: 0,
        despread_phase: 0,
        blocks_fed: 0,
        hard_validated: false,
    });
    let plain = AccessChainTags { access_event: None, access_crc_valid: None };
    let bad = AccessChainTags { access_event: Some(1), access_crc_valid: Some(0) };
    let good = AccessChainTags { access_event: Some(1), access_crc_valid: Some(1) };
    assert_eq!(s.finger_window_done(0, &[plain, bad]), vec![true, false]);
    assert_eq!((s.fingers[0].blocks_fed, s.fingers[0].hard_validated), (1, false));
    assert_eq!(s.finger_window_done(0, &[good, plain]), vec![true, true]);
    assert_eq!((s.fingers[0].blocks_fed, s.fingers[0].hard_validated), (2, true));
    assert_eq!(s.finger_window_done(0, &[]), Vec::<bool>::new());
    assert_eq!((s.fingers[0].blocks_fed, s.fingers[0].hard_validated), (3, true));
}
