use cdma_bts::fqi::FrameValidation;
use cdma_bts::rate_decision::DecodedTrafficFrame;
use cdma_bts::rc1_aligner::{
    absolute_frame_chip_start, better_preamble, chip_phase_candidates, frame_phase_candidates,
    lock_timing_metrics, longest_null_run, predicted_chip_phase, predicted_frame_phase, search_frame_count,
    AlignerPcgMeasurement, FrameAlignerState, LockCandidate, LockTiming, PreambleHypothesis, Rc1TrafficFrameAligner, SearchOutcome,
};
use cdma_bts::rc1_aligner::FRAME_CHIPS;
use cdma_bts::rc1_decoder::{DecoderState, Rc1ReverseTrafficDecoder, SymbolStep, PCG_CHIPS};
use cdma_bts::rc1_rate::Rc1TrafficRate;

#[test]
fn predicted_phases_follow_system_time() {
    assert_eq!(predicted_chip_phase(None), None);
    assert_eq!(predicted_chip_phase(Some(0)), Some(0));
    assert_eq!(predicted_chip_phase(Some(1000)), Some(24));
    assert_eq!(predicted_frame_phase(Some(0), 0), Some(0));
    // 100 chips past a boundary: 24476 chips to the next, rounded to 96 symbols -> 0.
    assert_eq!(predicted_frame_phase(Some(100), 0), Some(0));
    assert_eq!(predicted_frame_phase(Some(24_576 - 512), 0), Some(2));
    assert_eq!(predicted_frame_phase(None, 0), None);
}

#[test]
fn candidate_phases_by_timing_source() {
    let pre = Some(PreambleHypothesis { chip_phase: 2, frame_phase: 40, null_frames: 16 });
    assert_eq!(chip_phase_candidates(Some(1000), FrameAlignerState::Locking, pre, vec![9]), vec![24]);
    assert_eq!(
        chip_phase_candidates(None, FrameAlignerState::Locking, pre, vec![9]),
        vec![2, 3, 1, 4, 0, 5, 255, 6, 254]
    );
    assert_eq!(chip_phase_candidates(None, FrameAlignerState::SearchingPreamble, pre, vec![9, 8]), vec![9, 8]);
    assert_eq!(frame_phase_candidates(None, 0, FrameAlignerState::Locking, pre), vec![8, 40, 72]);
    assert_eq!(frame_phase_candidates(None, 0, FrameAlignerState::SearchingPreamble, pre), (0..96).collect::<Vec<_>>());
    assert_eq!(frame_phase_candidates(Some(0), 0, FrameAlignerState::Locking, pre), vec![0]);
}

#[test]
fn lock_timing_reports_system_time_coordinates() {
    assert_eq!(search_frame_count(24_576 * 3 + 5), 3);
    assert_eq!(search_frame_count(24_576 * 200), 128);
    assert_eq!(absolute_frame_chip_start(Some(-1), 5), None);
    assert_eq!(absolute_frame_chip_start(Some(10), 5), Some(15));
    let t = lock_timing_metrics(Some(24_576 * 10), 3, 2, 1).unwrap();
    let abs = 24_576 * 10 + 3 + (2 + 96) * 256;
    assert_eq!(
        t,
        LockTiming {
            abs_chip: abs,
            chip_mod_frame: abs % 24_576,
            chip_mod_symbol: 3,
            chip_mod_pn: abs % 32_768,
            symbol_mod_frame: 2,
        }
    );
    assert_eq!(lock_timing_metrics(None, 3, 2, 1), None);
}

#[test]
fn null_runs_and_best_hypothesis() {
    assert_eq!(longest_null_run(&[]), 0);
    assert_eq!(longest_null_run(&[true, true, false, true, true, true, false]), 3);
    let a = PreambleHypothesis { chip_phase: 1, frame_phase: 2, null_frames: 3 };
    let b = PreambleHypothesis { chip_phase: 4, frame_phase: 5, null_frames: 3 };
    let z = PreambleHypothesis { chip_phase: 0, frame_phase: 0, null_frames: 0 };
    assert_eq!(better_preamble(None, z), None);
    assert_eq!(better_preamble(None, a), Some(a));
    assert_eq!(better_preamble(Some(a), b), Some(a));
    let c = PreambleHypothesis { null_frames: 4, ..b };
    assert_eq!(better_preamble(Some(a), c), Some(c));
}

#[test]
fn aligner_search_preamble_then_lock_then_emit() {
    let mut a = Rc1TrafficFrameAligner::new(0x1234_5678);
    a.on_block(0, 24_576, Some(24_576 * 1000));
    assert!(!a.begin_search());
    a.on_block(24_576, 24_576, Some(24_576 * 1001));
    // Two to seven frames fall in the first bucket of eight: no search yet.
    assert!(!a.begin_search());
    a.on_block(2 * 24_576, 6 * 24_576, Some(24_576 * 1002));
    assert_eq!(a.absolute_chip_start, Some(24_576 * 1000));
    assert_eq!(a.last_processing_absolute_chip_end, Some(24_576 * 1008));
    assert!(a.begin_search());
    assert_eq!(a.search_attempts, 1);
    assert!(!a.begin_search());

    let best = Some(PreambleHypothesis { chip_phase: 0, frame_phase: 0, null_frames: 16 });
    assert_eq!(a.finish_preamble_search(best), SearchOutcome::PreambleDetected { null_frames: 16 });
    assert_eq!(a.state, FrameAlignerState::Locking);
    assert!(a.preamble_event_sent);
    assert_eq!(a.search_attempts, 0);

    let lock = LockCandidate { chip_phase: 0, frame_phase: 1, rate: Rc1TrafficRate::Full, lock_frame_index: 0 };
    match a.finish_lock_search(Some(lock)) {
        SearchOutcome::Locked { timing } => assert_eq!(timing.unwrap().abs_chip, 24_576 * 1000 + 256),
        other => panic!("unexpected {:?}", other),
    }
    assert_eq!(a.state, FrameAlignerState::Locked);
    assert_eq!(a.buffered_chips, 8 * 24_576 - 256);
    assert_eq!(a.chip_start, 256);
    assert_eq!(a.absolute_chip_start, Some(24_576 * 1000 + 256));
    assert_eq!(a.next_measurement_abs_pcg, Some(((24_576 * 1000 + 256) / 1536) as u64));

    assert!(a.frame_ready());
    assert!(a.frame_emitted(Some((Rc1TrafficRate::Half, true))));
    assert_eq!(a.pcg_measurement_rate, Some(Rc1TrafficRate::Half));
    assert_eq!(a.buffered_chips, 7 * 24_576 - 256);
    assert_eq!(a.rates.count, 1);
    assert!(a.frame_ready());
}

#[test]
fn aligner_loses_lock_and_gives_up_after_thirty_two_searches() {
    let mut a = Rc1TrafficFrameAligner::new(1);
    a.state = FrameAlignerState::Locked;
    a.on_block(0, 30_000, None);
    assert!(!a.frame_emitted(None));
    assert_eq!(a.state, FrameAlignerState::Locking);
    assert_eq!(a.buffered_chips, 29_999);
    assert_eq!(a.chip_start, 1);
    assert_eq!(a.locked_rate, None);

    a.search_attempts = 32;
    assert_eq!(a.finish_lock_search(None), SearchOutcome::GaveUp);
    assert_eq!(a.state, FrameAlignerState::GaveUp);
    assert_eq!(a.buffered_chips, 0);
}

#[test]
fn overfull_search_buffer_slides_by_one_frame() {
    let mut a = Rc1TrafficFrameAligner::new(1);
    a.on_block(0, 3_219_456 + 10, Some(5));
    assert!(a.begin_search());
    assert_eq!(a.finish_preamble_search(None), SearchOutcome::Continue);
    assert_eq!(a.buffered_chips, 3_219_456 + 10 - 24_576);
    assert_eq!(a.absolute_chip_start, Some(5 + 24_576));
    // Still overfull: the same bucket searches again.
    assert!(a.begin_search());
}

fn decoded(rate: Rc1TrafficRate, valid: bool) -> DecodedTrafficFrame {
    DecodedTrafficFrame {
        rate,
        bits: vec![0; rate.frame_bits()],
        validation: FrameValidation { fqi_valid: valid, tail_valid: valid, phy_valid: valid },
        ml_terminal_matches_zero: true,
    }
}

#[test]
fn decoder_locks_after_sixteen_null_frames() {
    let mut d = Rc1ReverseTrafficDecoder::new(7);
    d.frame_chip_start = 24_576 * 4;
    for k in 0..15 {
        assert_eq!(d.track_preamble(true), None, "frame {}", k);
    }
    assert_eq!(d.track_preamble(false), None);
    assert_eq!(d.consecutive_null_frames, 0);
    for _ in 0..15 {
        d.track_preamble(true);
    }
    assert_eq!(d.track_preamble(true), Some(16));
    assert_eq!(d.state, DecoderState::Locked);
    assert_eq!(d.next_measurement_abs_pcg, Some(64));
    assert_eq!(d.track_preamble(true), None);
}

#[test]
fn decoder_symbol_grid_and_frame_boundaries() {
    let mut d = Rc1ReverseTrafficDecoder::new(7);
    d.note_block(100, Some(100), 1000);
    assert_eq!(d.last_processing_absolute_chip_end, Some(1100));
    assert_eq!(d.align_to_symbol_grid(100), None);
    assert_eq!(d.align_to_symbol_grid(1000), Some(156));
    assert_eq!(d.pending_chip_start, Some(256));
    assert_eq!(d.next_symbol_step(), SymbolStep::Skip);
    d.pending_chip_start = Some(24_576);
    assert_eq!(d.next_symbol_step(), SymbolStep::Take);
    d.frame_symbol_count = 96;
    assert_eq!(d.next_symbol_step(), SymbolStep::CloseFrame { complete: true });
    d.frame_symbol_count = 40;
    assert_eq!(d.next_symbol_step(), SymbolStep::CloseFrame { complete: false });
}

#[test]
fn decoder_measures_only_transmitted_groups() {
    let mut d = Rc1ReverseTrafficDecoder::new(7);
    d.state = DecoderState::Locked;
    d.frame_chip_start = 0;
    d.last_processing_absolute_chip_end = Some(24_576);
    d.next_measurement_abs_pcg = Some(0);
    d.record_decoded_frame(&decoded(Rc1TrafficRate::Half, true));
    assert_eq!(d.pcg_measurement_rate, Some(Rc1TrafficRate::Half));
    let b: [u8; 14] = [0; 14];
    let out = d.emit_pcg_measurements(96, &b);
    assert_eq!(out.iter().map(|m| m.pcg_in_frame).collect::<Vec<_>>(), vec![0, 2, 4, 6, 8, 10, 12, 14]);
    assert_eq!(out[1].measurement_abs_chip, 3072);
    assert_eq!(out[1].age_chips, 24_576 - 3072);
    assert_eq!(d.next_measurement_abs_pcg, Some(16));
    assert!(d.emit_pcg_measurements(96, &b).is_empty());

    let report = d.build_failed_locked_frame();
    assert_eq!(report.chip_start, 0);
    assert_eq!(report.rate_bps, 0);
    assert!(!report.phy_valid && !report.fqi_valid && !report.tail_valid);
    assert_eq!(report.active_pcg_mask, [true; 16]);
}

#[test]
fn locked_aligner_measures_the_transmitted_groups_it_has_buffered() {
    let mut a = Rc1TrafficFrameAligner::new(0x1234);
    a.state = FrameAlignerState::Locked;
    a.absolute_chip_start = Some(3072 + 100);
    a.buffered_chips = 1536 * 5 + 10;
    a.locked_rate = Some(Rc1TrafficRate::Half);
    a.last_processing_absolute_chip_end = Some(9000);
    assert_eq!(a.pcg_measurement_frame_chip(), Some(0));
    let mut b = [0u8; 14];
    b[1] = 1;
    b[2] = 1;
    let out = a.emit_ready_pcg_measurements(&b);
    assert_eq!(
        out,
        vec![
            AlignerPcgMeasurement { abs_pcg: 3, chip_offset: 1536, measurement_abs_chip: 4708, age_chips: 4292 },
            AlignerPcgMeasurement { abs_pcg: 5, chip_offset: 4608, measurement_abs_chip: 7780, age_chips: 1220 },
            AlignerPcgMeasurement { abs_pcg: 6, chip_offset: 6144, measurement_abs_chip: 9316, age_chips: 0 },
        ]
    );
    assert_eq!(a.next_measurement_abs_pcg, Some(7));
    assert_eq!(a.pcg_measurement_frame_chip(), None);
    assert!(a.emit_ready_pcg_measurements(&b).is_empty());
    // A full-rate lock measures every group; measurement resumes at the
    // frame boundary of the next group.
    a.buffered_chips = 1536 * 20;
    a.locked_rate = Some(Rc1TrafficRate::Full);
    let out = a.emit_ready_pcg_measurements(&b);
    assert_eq!(out.iter().map(|m| m.abs_pcg).collect::<Vec<_>>(), (7..16).collect::<Vec<u64>>());
    assert_eq!(a.pcg_measurement_frame_chip(), Some(16 * 1536));
    let out = a.emit_ready_pcg_measurements(&b);
    assert_eq!(out.iter().map(|m| m.abs_pcg).collect::<Vec<_>>(), (16..22).collect::<Vec<u64>>());
    // Unlocked: nothing is due.
    let idle = Rc1TrafficFrameAligner::new(1);
    assert_eq!(idle.pcg_measurement_frame_chip(), None);
}

#[test]
fn rc1_per_pcg_measurements_skip_inactive_pcgs_and_tag_age() {
    let frame_abs_chip = FRAME_CHIPS * 1_000;
    let frame_abs_pcg = (frame_abs_chip / PCG_CHIPS) as u64;

    let mut aligner = Rc1TrafficFrameAligner::new(0x1234_5678);
    aligner.state = FrameAlignerState::Locked;
    aligner.buffered_chips = FRAME_CHIPS;
    aligner.chip_start = 0;
    aligner.absolute_chip_start = Some(frame_abs_chip as i64);
    aligner.pcg_measurement_rate = Some(Rc1TrafficRate::Eighth);
    aligner.next_measurement_abs_pcg = Some(frame_abs_pcg);
    aligner.last_processing_absolute_chip_end = Some((frame_abs_chip + FRAME_CHIPS) as u64);

    // The randomizer bits of the frame the aligner asks about.
    assert_eq!(aligner.pcg_measurement_frame_chip(), Some(frame_abs_chip as u64));
    let randomizer: [u8; 14] = [1, 0, 1, 1, 0, 0, 1, 0, 1, 0, 0, 1, 1, 0];
    let expected_mask = Rc1TrafficRate::Eighth.exact_active_pcgs(&randomizer);
    let expected_count = expected_mask.iter().filter(|&&active| active).count();

    let out = aligner.emit_ready_pcg_measurements(&randomizer);

    assert_eq!(out.len(), expected_count);
    assert_eq!(aligner.next_measurement_abs_pcg, Some(frame_abs_pcg + 16));
    for m in out {
        let measurement_abs_chip = m.measurement_abs_chip;
        let pcg_in_frame = ((measurement_abs_chip - frame_abs_chip as u64) / PCG_CHIPS as u64) as usize;
        assert!(expected_mask[pcg_in_frame]);
        let expected_age = (frame_abs_chip + FRAME_CHIPS) as u64 - measurement_abs_chip;
        assert_eq!(m.age_chips, expected_age);
    }
}

#[test]
fn failed_locked_frame_emits_invalid_decoded_frame_for_fer_counting() {
    let mut decoder = Rc1ReverseTrafficDecoder::new(0x1234_5678);
    decoder.frame_chip_start = 24_576;

    let report = decoder.build_failed_locked_frame();

    assert_eq!(report.chip_start, 24_576);
    assert!(!report.phy_valid);
    assert!(!report.tail_valid);
    assert!(!report.fqi_valid);
    assert_eq!(report.fqi_bits, 0);
    assert_eq!(report.rate_bps, 0);
    assert_eq!(report.payload_bits, 0);
    assert_eq!(report.active_pcg_mask, [true; 16]);
}

#[test]
fn production_rc1_pcg_measurement_includes_mobile_power() {
    // One full power control group (six symbols) of a full-rate lock is due
    // for a measurement; its mobile power is computed from the group's
    // symbol energies by the caller.
    let mut decoder = Rc1ReverseTrafficDecoder::new(0x1234_5678);
    decoder.state = DecoderState::Locked;
    decoder.frame_chip_start = 0;
    decoder.last_processing_absolute_chip_end = Some(PCG_CHIPS as u64);
    decoder.next_measurement_abs_pcg = Some(0);
    decoder.pcg_measurement_rate = Some(Rc1TrafficRate::Full);

    let measurements = decoder.emit_pcg_measurements(6, &[0; 14]);

    assert_eq!(measurements.len(), 1);
    assert_eq!(measurements[0].pcg_in_frame, 0);
    assert_eq!(measurements[0].measurement_abs_chip, 0);
    assert_eq!(measurements[0].age_chips, PCG_CHIPS as u64);
}
