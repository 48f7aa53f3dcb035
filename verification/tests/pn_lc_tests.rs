use cdma_bts::pn_lc::{drain_plan, output_oversample, SignalLossCounter};
use cdma_bts::pn_lc::{
    RoundOutcome,
    align_up_to_residue, candidate_fate, record_verification, signed_delay_bin, ActiveFingerState,
    CandidateFate, CandidateProgress, PnLcConfig, PnLcCorrelator,
};

fn finger(id: u64, delay: i32, hard_validated: bool) -> ActiveFingerState {
    ActiveFingerState {
        id,
        delay_samples: delay,
        hard_validated,
        idle_chips: 0,
        signal_lost_chips: 0,
        crc_miss_count: 0,
        post_walsh_no_event_ms: 0,
    }
}

#[test]
fn helper_base_phase_accounts_for_filter_delay() {
    let mut cfg = PnLcConfig::default_4x();
    cfg.composite_filter_delay = 47;
    let mut correlator = PnLcCorrelator::new(cfg);
    correlator.absolute_origin_sample = Some(1000);

    let os = 4;
    let pp = 32768 * os;

    let bp = correlator.base_phase(0);
    assert_eq!(bp, (1000 + pp - 47) % pp);

    let bp2 = correlator.base_phase(2048);
    assert_eq!(bp2, (1000 + 2048 + pp - 47) % pp);
}

#[test]
fn helper_abs_chip_at_divides_by_oversample() {
    let mut cfg = PnLcConfig::default_4x();
    cfg.composite_filter_delay = 47;
    let mut correlator = PnLcCorrelator::new(cfg);
    correlator.absolute_origin_sample = Some(400);

    assert_eq!(correlator.abs_chip_at(0), (400usize - 47) / 4);
    assert_eq!(correlator.abs_chip_at(100), (400usize + 100usize - 47) / 4);
}

#[test]
fn helper_center_offset_is_delay_mod_oversample() {
    let mut cfg = PnLcConfig::default_4x();
    cfg.composite_filter_delay = 47;
    let correlator = PnLcCorrelator::new(cfg);
    assert_eq!(correlator.center_offset(), 47 % 4);
}

#[test]
fn suppresses_spawn_when_active_finger_delay_overlaps() {
    let mut cfg = PnLcConfig::default_4x();
    cfg = cfg.with_active_finger_delay_suppression(true, 8);
    let mut correlator = PnLcCorrelator::new(cfg);

    correlator.active_fingers.push(finger(1, 654, false));

    assert!(correlator.has_overlapping_active_finger(654));
    assert!(correlator.has_overlapping_active_finger(646));
    assert!(correlator.has_overlapping_active_finger(662));
    assert!(!correlator.has_overlapping_active_finger(663));
}

#[test]
fn active_finger_delay_overlap_suppression_defaults_off() {
    let cfg = PnLcConfig::default_4x();
    let mut correlator = PnLcCorrelator::new(cfg);
    correlator.active_fingers.push(finger(1, 654, false));
    assert!(!correlator.has_overlapping_active_finger(654));
}

#[test]
fn validated_finger_signal_loss_resumes_suppressed_search() {
    let cfg = PnLcConfig::default_4x().with_suppress_search_when_locked(true);
    let mut correlator = PnLcCorrelator::new(cfg);
    correlator.active_fingers.push(finger(1, 654, true));

    assert!(correlator.search_suppressed());

    correlator.active_fingers[0].signal_lost_chips = correlator.reacquire_signal_lost_chips;

    assert!(!correlator.search_suppressed());
    assert!(correlator.can_reacquire_over_active(654));
}

fn seeded_for_reanchor(search_paused: bool) -> PnLcCorrelator {
    let mut cfg = PnLcConfig::default_4x();
    cfg.reanchor_origin = true;
    let mut correlator = PnLcCorrelator::new(cfg);
    correlator.absolute_origin_sample = Some(1000);
    correlator.samples_consumed = 2048;
    correlator.buffered_samples = 32;
    correlator.recent_len = 16;
    correlator.recent_start_offset = 2000;
    correlator.search_paused = search_paused;
    correlator.pending_candidates.push(CandidateProgress {
        id: 7,
        delay_samples: 8,
        lc_phase_hint: 0,
        preamble_hits: 1,
        attempts: 1,
        first_verified_tx_chip: Some(300),
        first_verified_sample_offset: Some(1200),
    });
    correlator.active_fingers.push(finger(9, 8, true));
    correlator
}

#[test]
fn reanchor_ignores_small_forward_jitter() {
    let mut correlator = seeded_for_reanchor(false);
    let entry = correlator.take_block(8, Some((1000 + 2048 + 32 + 4) as i64));
    let window = correlator.next_window();

    assert!(window.is_none());
    assert!(!entry.flushed);
    assert_eq!(correlator.absolute_origin_sample, Some(1000));
    assert_eq!(correlator.buffered_samples, 40);
    assert_eq!(correlator.recent_len, 24);
    assert_eq!(correlator.pending_candidates.len(), 1);
    assert_eq!(correlator.active_fingers.len(), 1);
}

#[test]
fn reanchor_flushes_seam_state_on_forward_gap() {
    let mut correlator = seeded_for_reanchor(true);
    let entry = correlator.take_block(8, Some((1000 + 2048 + 32 + 20) as i64));
    let window = correlator.next_window();

    assert!(window.is_none());
    assert!(entry.flushed);
    assert_eq!(correlator.absolute_origin_sample, Some(1020));
    assert_eq!(correlator.samples_consumed, 2080);
    assert_eq!(correlator.buffered_samples, 8);
    assert_eq!(correlator.recent_len, 8);
    assert_eq!(correlator.recent_start_offset, 2080);
    assert!(correlator.pending_candidates.is_empty());
    assert!(correlator.active_fingers.is_empty());
    assert!(!correlator.search_paused);
    assert_eq!(correlator.window_counter, 1);
}

#[test]
fn reanchor_follows_backward_jump_without_flushing() {
    let mut correlator = seeded_for_reanchor(false);
    let entry = correlator.take_block(8, Some((990 + 2048 + 32) as i64));
    assert!(!entry.flushed);
    assert_eq!(correlator.absolute_origin_sample, Some(990));
    assert_eq!(correlator.buffered_samples, 40);
    assert_eq!(correlator.active_fingers.len(), 1);
}

#[test]
fn reanchor_ignores_tags_behind_the_stream() {
    let mut correlator = seeded_for_reanchor(false);
    let entry = correlator.take_block(8, Some(100));
    assert!(!entry.flushed);
    assert_eq!(correlator.absolute_origin_sample, Some(1000));
    assert_eq!(entry.block_sample_offset, 2080);
}

#[test]
fn first_block_latches_origin_clamped_at_zero() {
    let mut correlator = PnLcCorrelator::new(PnLcConfig::default_4x());
    let entry = correlator.take_block(16, Some(-5));
    assert_eq!(correlator.absolute_origin_sample, Some(0));
    assert_eq!(entry.block_sample_offset, 0);
    assert_eq!(correlator.recent_start_offset, 0);
    assert_eq!(correlator.recent_len, 16);
}

#[test]
fn search_runs_every_interval_after_the_first_window() {
    let cfg = PnLcConfig::default_4x().with_search_interval_windows(2);
    let mut correlator = PnLcCorrelator::new(cfg);
    let window_len = 2048 * 4;
    correlator.take_block(window_len * 5, None);
    let mut searches = Vec::new();
    while let Some((offset, search)) = correlator.next_window() {
        searches.push((offset, search));
    }
    assert_eq!(
        searches,
        vec![
            (0, false),
            (window_len, false),
            (2 * window_len, true),
            (3 * window_len, false),
            (4 * window_len, true),
        ]
    );
    assert_eq!(correlator.buffered_samples, 0);
}

#[test]
fn recent_history_is_trimmed_to_sixty_four_windows() {
    let mut cfg = PnLcConfig::default_4x();
    cfg.coherent_chips = 16;
    cfg.oversample = 1;
    let mut correlator = PnLcCorrelator::new(cfg);
    correlator.take_block(1000, None);
    assert_eq!(correlator.recent_len, 1000);
    correlator.take_block(100, None);
    assert_eq!(correlator.recent_len, 1024);
    assert_eq!(correlator.recent_start_offset, 76);
    assert_eq!(correlator.replay_range(76, 100), Some((0, 24)));
    assert_eq!(correlator.replay_range(70, 100), None);
    assert_eq!(correlator.replay_range(100, 100), None);
    assert_eq!(correlator.replay_range(1000, 1101), None);
}

#[test]
fn reacquisition_needs_every_overlapping_finger_released() {
    let mut correlator = PnLcCorrelator::new(PnLcConfig::default_4x());
    correlator.active_fingers.push(finger(1, 100, true));
    correlator.active_fingers.push(finger(2, 300, false));
    assert!(!correlator.can_reacquire_over_active(110));
    assert!(correlator.can_reacquire_over_active(200));
    correlator.notify_finger_state(1, true, 0, 0, 8, 0);
    assert!(correlator.can_reacquire_over_active(110));
    correlator.notify_finger_state(1, false, 0, 0, 8, 0);
    assert!(!correlator.can_reacquire_over_active(110));
    correlator.notify_finger_state(1, false, 196_608, 0, 0, 0);
    assert!(correlator.can_reacquire_over_active(110));
}

#[test]
fn removed_fingers_release_their_delay() {
    let cfg = PnLcConfig::default_4x().with_active_finger_delay_suppression(true, 8);
    let mut correlator = PnLcCorrelator::new(cfg);
    correlator.add_active_finger(finger(3, 50, false));
    correlator.add_active_finger(finger(4, 90, false));
    assert!(correlator.has_overlapping_active_finger(52));
    correlator.notify_finger_removed(3);
    assert!(!correlator.has_overlapping_active_finger(52));
    assert_eq!(correlator.active_fingers.len(), 1);
    correlator.notify_hard_validated(4);
    assert!(correlator.active_fingers[0].hard_validated);
    assert!(correlator.has_overlapping_active_finger(90));
    assert!(!correlator.has_overlapping_active_finger(91));
}

#[test]
fn config_builders_clamp_their_inputs() {
    let cfg = PnLcConfig::default_4x()
        .with_lc_decimation(0)
        .with_noncoherent_segments(0)
        .with_search_interval_windows(0)
        .with_active_finger_delay_suppression(true, -3)
        .with_center_offset_override(7)
        .with_epl_slew(true);
    assert_eq!(cfg.lc_decimation, 1);
    assert_eq!(cfg.noncoherent_segments, 1);
    assert_eq!(cfg.search_interval_windows, 1);
    assert_eq!(cfg.active_finger_delay_suppress_samples, 0);
    assert_eq!(cfg.center_offset_override, Some(3));
    assert!(cfg.enable_epl_slew);
    assert!(cfg.enable_epl_tracking);
    let cfg = cfg.with_epl_slew(false);
    assert!(cfg.enable_epl_tracking);
    assert!(!cfg.enable_epl_slew);
}

#[test]
fn signed_delay_bins_wrap_past_midpoint() {
    assert_eq!(signed_delay_bin(0, 8192), 0);
    assert_eq!(signed_delay_bin(4096, 8192), 4096);
    assert_eq!(signed_delay_bin(4097, 8192), -4095);
    assert_eq!(signed_delay_bin(8191, 8192), -1);
}

#[test]
fn align_up_reaches_the_next_residue() {
    assert_eq!(align_up_to_residue(10, 3, 4), 11);
    assert_eq!(align_up_to_residue(11, 3, 4), 11);
    assert_eq!(align_up_to_residue(12, 7, 4), 15);
    assert_eq!(align_up_to_residue(9, 5, 1), 9);
    assert_eq!(align_up_to_residue(9, 5, 0), 9);
}

#[test]
fn verification_point_reduces_delay_into_the_first_chip() {
    let mut correlator = PnLcCorrelator::new(PnLcConfig::default_4x());
    correlator.absolute_origin_sample = Some(1000);
    let g = correlator.verify_geometry(-5, 8192);
    assert_eq!(g.verify_delay, 3);
    assert_eq!(g.verify_sample_offset, 8195);
    assert_eq!(g.expected_chip, 2288);
    assert_eq!(g.verify_base_phase, 9153);
    assert_eq!(g.center_offset, 3);
}

#[test]
fn promoted_candidate_seeds_its_finger_from_history() {
    let mut correlator = PnLcCorrelator::new(PnLcConfig::default_4x());
    correlator.absolute_origin_sample = Some(1000);
    correlator.recent_start_offset = 2000;
    let g = correlator.verify_geometry(-5, 8192);
    let fresh = CandidateProgress {
        id: 1,
        delay_samples: -5,
        lc_phase_hint: 0,
        preamble_hits: 0,
        attempts: 0,
        first_verified_tx_chip: None,
        first_verified_sample_offset: None,
    };
    let c = record_verification(fresh, Some((true, 10)), g.expected_chip, g.verify_sample_offset);
    assert_eq!(c.preamble_hits, 1);
    assert_eq!(c.attempts, 1);
    assert_eq!(c.first_verified_tx_chip, Some(2298));
    assert_eq!(c.first_verified_sample_offset, Some(8195));
    assert_eq!(candidate_fate(c, true, 1), CandidateFate::Promote);

    let seed = correlator.finger_seed(c, g, 8192, 10, 4000);
    assert_eq!(seed.center_offset, 3);
    assert_eq!(seed.finger_start_sample, 2000);
    assert_eq!(seed.tx_chip, 750);
    assert_eq!(seed.samples_to_skip, 0);
    assert_eq!(seed.despread_phase, 2958);

    // A later, earlier-sample hit keeps the first TX chip but the earliest sample.
    let c2 = record_verification(c, Some((true, 99)), 5000, 8000);
    assert_eq!(c2.first_verified_tx_chip, Some(2298));
    assert_eq!(c2.first_verified_sample_offset, Some(8000));
    let c3 = record_verification(c2, Some((false, 99)), 5000, 7000);
    assert_eq!(c3.preamble_hits, 2);
    assert_eq!(c3.attempts, 3);
    assert_eq!(c3.first_verified_sample_offset, Some(8000));
}

#[test]
fn candidates_run_out_of_attempts() {
    let mut c = CandidateProgress {
        id: 1,
        delay_samples: 0,
        lc_phase_hint: 0,
        preamble_hits: 0,
        attempts: 9,
        first_verified_tx_chip: None,
        first_verified_sample_offset: None,
    };
    assert_eq!(candidate_fate(c, true, 1), CandidateFate::Keep);
    c.attempts = 10;
    assert_eq!(candidate_fate(c, true, 1), CandidateFate::Drop);
    assert_eq!(candidate_fate(c, false, 1), CandidateFate::Keep);
    c.preamble_hits = 1;
    assert_eq!(candidate_fate(c, true, 2), CandidateFate::Drop);
    assert_eq!(candidate_fate(c, true, 1), CandidateFate::Promote);
}

#[test]
fn nearby_detections_update_an_unverified_candidate() {
    let mut correlator = PnLcCorrelator::new(PnLcConfig::default_4x());
    assert_eq!(correlator.upsert_candidate(100, 3, false), 0);
    assert_eq!(correlator.pending_candidates[0].id, 1);
    assert_eq!(correlator.next_finger_id, 2);
    // Within the 16-sample radius, at another delay: follows it.
    assert_eq!(correlator.upsert_candidate(110, 4, false), 0);
    assert_eq!(correlator.pending_candidates[0].delay_samples, 110);
    assert_eq!(correlator.pending_candidates[0].lc_phase_hint, 4);
    // Same delay, not stronger: unchanged.
    assert_eq!(correlator.upsert_candidate(110, 9, false), 0);
    assert_eq!(correlator.pending_candidates[0].lc_phase_hint, 4);
    // Once it has a hit it stays put.
    correlator.pending_candidates[0].preamble_hits = 1;
    correlator.upsert_candidate(105, 7, true);
    assert_eq!(correlator.pending_candidates[0].delay_samples, 110);
    // Far away: a new candidate.
    assert_eq!(correlator.upsert_candidate(500, 0, true), 1);
    assert_eq!(correlator.pending_candidates[1].id, 2);
    assert_eq!(correlator.matching_candidate(130), None);
    assert_eq!(correlator.matching_candidate(126), Some(0));
}


#[test]
fn finger_output_blocks_and_signal_loss() {
    assert_eq!(output_oversample(true, 4), 4);
    assert_eq!(output_oversample(true, 0), 1);
    assert_eq!(output_oversample(false, 4), 1);
    assert_eq!(drain_plan(1000, 256, 1, 5000), Some((3, 768, 4000)));
    assert_eq!(drain_plan(1000, 256, 4, 5000), None);
    assert_eq!(drain_plan(2048, 256, 4, 100), Some((2, 2048, 0)));
    let mut c = SignalLossCounter::new();
    c.record_block(true, 256);
    c.record_block(true, 256);
    assert_eq!(c.low_energy_chip_count, 512);
    c.record_block(false, 256);
    assert_eq!(c.low_energy_chip_count, 0);
    assert_eq!(c.high_energy_chip_count, 256);
}

fn progress(id: u64, delay: i32) -> CandidateProgress {
    CandidateProgress {
        id,
        delay_samples: delay,
        lc_phase_hint: 0,
        preamble_hits: 1,
        attempts: 1,
        first_verified_tx_chip: None,
        first_verified_sample_offset: None,
    }
}

#[test]
fn verification_round_keeps_drops_and_promotes_in_order() {
    let cfg = PnLcConfig::default_4x().with_active_finger_delay_suppression(true, 2);
    let mut c = PnLcCorrelator::new(cfg);
    c.next_finger_id = 20;
    c.active_fingers.push(finger(1, 100, false));
    let outcomes = [
        RoundOutcome { progress: progress(5, 40), fate: CandidateFate::Keep, timing_hypotheses: 1 },
        RoundOutcome { progress: progress(6, 101), fate: CandidateFate::Promote, timing_hypotheses: 1 },
        RoundOutcome { progress: progress(7, 300), fate: CandidateFate::Promote, timing_hypotheses: 3 },
        RoundOutcome { progress: progress(8, 500), fate: CandidateFate::Drop, timing_hypotheses: 1 },
        RoundOutcome { progress: progress(9, 60), fate: CandidateFate::Keep, timing_hypotheses: 1 },
    ];
    let spawned = c.finish_round(&outcomes);
    // Candidate 6 is blocked by the unvalidated finger at 100; candidate 7's
    // first hypothesis registers under its own id, and the same delay then
    // blocks its other hypotheses.
    assert_eq!(spawned, vec![7]);
    assert_eq!(c.active_fingers, vec![finger(1, 100, false), finger(7, 300, false)]);
    assert_eq!(c.next_finger_id, 20);
    assert_eq!(c.pending_candidates.iter().map(|p| p.id).collect::<Vec<_>>(), vec![5, 9]);

    // Without overlap suppression every hypothesis registers, the extra ones
    // with fresh ids.
    let mut d = PnLcCorrelator::new(PnLcConfig::default_4x());
    d.next_finger_id = 20;
    let spawned = d.finish_round(&outcomes);
    assert_eq!(spawned, vec![6, 7, 20, 21]);
    assert_eq!(d.next_finger_id, 22);
    assert_eq!(d.active_fingers.len(), 4);
}
