use cdma_bts::finger_timing::{is_pilot_symbol, pilot_pcg_transmitted, ChipCursor, PcgChipRole, PcgWindow};
use cdma_bts::delay_track::{DelayDecision, DelayTracker};
use cdma_bts::rake::{
    block_chip_start, finger_absolute_start, separate_peaks, validates_finger, FingerOutputTags, FingerState, RakeReceiver,
};
use cdma_bts::tracker::{
    local_candidates, phase_distance, phase_from_index, MatchedFilterTracker, State, TrackAction, TrackerOutput,
};

#[test]
fn phase_distance_wraps_around_the_period() {
    assert_eq!(phase_distance(5, 3, 100), 2);
    assert_eq!(phase_distance(3, 5, 100), 2);
    assert_eq!(phase_distance(1, 99, 100), 2);
    assert_eq!(phase_distance(0, 50, 100), 50);
    assert_eq!(phase_distance(7, 7, 100), 0);
}

#[test]
fn correlation_index_maps_to_block_start_phase() {
    let period = 131_072;
    let overlap = period - 1;
    assert_eq!(phase_from_index(overlap, overlap, period), 0);
    assert_eq!(phase_from_index(overlap + 10, overlap, period), period - 10);
    let c = local_candidates(5, 2, period, overlap, 2 * period);
    // Phases 3, 4, 5, 6, 7 sit at overlap + period - phase.
    assert_eq!(c, vec![Some(overlap + period - 3), Some(overlap + period - 4), Some(overlap + period - 5), Some(overlap + period - 6), Some(overlap + period - 7)]);
    let c = local_candidates(0, 1, period, overlap, overlap + 1);
    assert_eq!(c, vec![None, Some(overlap), None]);
}

#[test]
fn tracker_confirms_coarse_lock_then_fine_tracks() {
    let mut t = MatchedFilterTracker::new(1);
    let step = t.search_step(false, 0);
    assert_eq!(step.action, TrackAction::Drop);
    assert_eq!(t.state, State::Searching);
    let step = t.search_step(true, 100);
    assert_eq!(step.action, TrackAction::Despread { phase: 100 });
    assert_eq!(t.state, State::CoarseTracking);
    assert_eq!(t.lock_chip_start, 32_769);
    // Each block the PN phase advances by one sample past the period.
    let mut expected = 101;
    for k in 0..6 {
        let step = t.coarse_step(Some(expected), true);
        assert_eq!(step.action, TrackAction::Despread { phase: expected });
        assert_eq!(step.promoted, k == 5);
        expected += 1;
    }
    assert_eq!(t.state, State::FineTracking);
    assert_eq!(t.lock_hits, 0);
    // Weak but on phase: coast without a miss, despread at the expectation.
    let step = t.fine_step(Some(expected + 3), false);
    assert_eq!(step.action, TrackAction::Despread { phase: expected });
    assert_eq!(t.lock_misses, 0);
    expected += 1;
    // Off phase six times: fine lock lost.
    for k in 0..6 {
        let step = t.fine_step(Some(expected + 1000), true);
        assert_eq!(step.lost, k == 5);
        expected += 1;
    }
    assert_eq!(t.state, State::Searching);
    assert!(t.pending_lock_lost_tag);
    let (start, tag) = t.next_block();
    assert_eq!(start, 0);
    assert!(tag);
    let (start, tag) = t.next_block();
    assert_eq!(start, 64);
    assert!(!tag);
}

#[test]
fn coarse_lock_is_lost_after_six_net_misses() {
    let mut t = MatchedFilterTracker::new(2);
    t.search_step(true, 10);
    for k in 0..6 {
        let step = t.coarse_step(None, false);
        assert_eq!(step.lost, k == 5);
    }
    assert_eq!(t.state, State::Searching);
    assert_eq!(t.lock_chip_start, 0);
}

#[test]
fn peaks_closer_than_sixteen_chips_merge() {
    let kept = separate_peaks(&[100, 110, 200, 131_000, 50_000, 60_000, 70_000, 80_000, 90_000], 1, 131_072);
    assert_eq!(kept, vec![100, 200, 131_000, 50_000, 60_000, 70_000]);
    let kept = separate_peaks(&[5, 131_070], 1, 131_072);
    assert_eq!(kept, vec![5]);
}

#[test]
fn rake_spawns_tracks_selects_and_prunes() {
    let mut r = RakeReceiver::new(1);
    r.spawn_for_peaks(&[1000, 1005, 5000, 9000, 13_000]);
    assert_eq!(r.fingers.len(), 3);
    assert_eq!(r.fingers.iter().map(|f| f.phase).collect::<Vec<_>>(), vec![1000, 5000, 9000]);
    assert_eq!(r.fingers.iter().map(|f| f.id).collect::<Vec<_>>(), vec![0, 1, 2]);
    assert_eq!(r.next_finger_id, 3);
    assert_eq!(r.winner(), None);

    // Finger 0 tracks, finger 1 misses, finger 2 moves.
    r.track(&[Some(1001), None, Some(9100)], &[true, false, true]);
    assert_eq!(r.fingers[0].phase, 1001);
    assert_eq!(r.fingers[0].hits, 2);
    assert_eq!(r.fingers[1].phase, 5001);
    assert_eq!(r.fingers[1].misses, 1);
    assert_eq!(r.fingers[1].hits, 0);
    assert_eq!(r.fingers[2].phase, 9100);

    r.mark_validated(1);
    r.mark_validated(2);
    r.fingers[1].hits = 4;
    r.fingers[2].hits = 4;
    assert!(r.has_validated());
    // The last of the equally strong validated fingers wins.
    let w = r.select_and_prune(true, true);
    assert_eq!(w, Some(2));
    assert_eq!(r.fingers.len(), 1);
    assert_eq!(r.fingers[0].id, 2);
    assert!(r.fingers[0].validated);

    // No new fingers while one is validated.
    r.spawn_for_peaks(&[20_000]);
    assert_eq!(r.fingers.len(), 1);
}

#[test]
fn dead_unvalidated_fingers_are_pruned() {
    let mut r = RakeReceiver::new(1);
    r.spawn_for_peaks(&[100, 20_000]);
    r.fingers[0].misses = 9;
    r.fingers[1].misses = 8;
    let w = r.select_and_prune(false, false);
    assert_eq!(w, None);
    assert_eq!(r.fingers.len(), 1);
    assert_eq!(r.fingers[0].id, 1);
    r.advance_phases();
    assert_eq!(r.fingers[0].phase, 20_001);
}

#[test]
fn finger_output_timing() {
    let mut r = RakeReceiver::new(4);
    r.spawn_for_peaks(&[300]);
    assert_eq!(r.despread_phase(0, 48), 252);
    assert_eq!(r.despread_phase(0, 400), 131_072 + 300 - 400);
    r.start_output(0, 5000);
    r.start_output(0, 9000);
    assert_eq!(r.next_block_start(0), 5000);
    assert_eq!(r.next_block_start(0), 5256);
    assert_eq!(block_chip_start(Some(10), 131_073, 131_073), 10);
    assert_eq!(block_chip_start(None, 5, 131_073), 0);
    assert_eq!(finger_absolute_start(Some(1000), 5256, 10, 4), Some((6246, 1561)));
    assert_eq!(finger_absolute_start(None, 5256, 10, 4), None);
}

#[test]
fn rake_despread_offset_follows_reference_choice() {
    let r = RakeReceiver::new(4);
    assert_eq!(r.despread_phase_offset, 48);
    assert_eq!(r.despread_offset(), 0);
    let r = RakeReceiver::new_with_reference_filter_passes(4, 3).with_raw_pn_despreading(true);
    assert_eq!(r.despread_offset(), 72);
    let r = r.with_despread_phase_offset_override(5);
    assert_eq!(r.despread_offset(), 5);
}

#[test]
fn delay_tracker_moves_whole_chips_after_warmup_and_settling() {
    let mut t = DelayTracker::new(true);
    // Warm-up: the first seven groups only count.
    for _ in 0..7 {
        assert_eq!(t.commit_on_pcg(6, true, 4), DelayDecision::Hold);
    }
    assert_eq!(t.pcgs, 7);
    // The eighth decides: two chips late, beyond the margin.
    assert_eq!(t.commit_on_pcg(6, true, 4), DelayDecision::Moved { shift_chips: 2 });
    assert_eq!(t.take_slew(), Some(8));
    assert_eq!(t.total_chips, 2);
    assert_eq!((t.pcgs, t.pcgs_since_move), (0, 0));
    // Settling: no move for sixteen groups, then the prompt peak holds.
    for _ in 0..15 {
        assert_eq!(t.commit_on_pcg(0, true, 4), DelayDecision::Hold);
    }
    assert_eq!(t.commit_on_pcg(4, true, 4), DelayDecision::Hold);
    assert_eq!(t.commit_on_pcg(0, false, 4), DelayDecision::Hold);
    assert_eq!(t.commit_on_pcg(0, true, 4), DelayDecision::Moved { shift_chips: -4 });
    assert_eq!(t.total_chips, -2);
    // Near the excursion limit a move is refused and the profile restarts.
    t.total_chips = 22;
    t.pcgs_since_move = 16;
    assert_eq!(t.decide(8, true, 4), DelayDecision::Refused { shift_chips: 4 });
    assert_eq!(t.total_chips, 22);
    assert_eq!(t.pcgs, 0);
    // Disabled tracking never decides.
    let mut off = DelayTracker::new(false);
    for _ in 0..40 {
        assert_eq!(off.commit_on_pcg(8, true, 4), DelayDecision::Hold);
    }
}

#[test]
fn delay_profile_admits_two_groups_per_frame() {
    let mut t = DelayTracker::new(true);
    t.start_pcg(0);
    assert!(t.frame_quota_available());
    assert!(t.frame_quota_available());
    t.start_pcg(1536);
    assert!(t.frame_quota_available());
    t.start_pcg(3072);
    assert!(!t.frame_quota_available());
    assert_eq!(t.frame_pcgs, 2);
    t.start_pcg(24576);
    assert_eq!((t.frame, t.frame_pcgs), (1, 0));
    assert!(t.frame_quota_available());
    t.reset();
    assert_eq!(t.pcgs, 0);
}

fn next_samples(next: &mut u32, n: usize) -> Vec<u32> {
    let v: Vec<u32> = (*next..*next + n as u32).collect();
    *next += n as u32;
    v
}

#[test]
fn tracker_holds_back_speculative_blocks_until_promotion() {
    let bs = 32769usize;
    let mut t = MatchedFilterTracker::new(1);
    let mut o: TrackerOutput<u32> = TrackerOutput::new();
    let mut next = 0u32;
    let step = t.search_step(true, 5);
    let out = o.take_step(&mut t, step, next_samples(&mut next, bs));
    assert!(out.is_empty());
    assert_eq!(o.held.len(), 512);
    assert_eq!(o.pending.len(), 1);
    assert_eq!((o.held[0].chip_start, o.held[0].pilot_phase, o.held[0].lock_lost), (0, 5, false));
    assert_eq!(o.held[1].chip_start, 64);

    let mut released = Vec::new();
    for _ in 0..6 {
        let exp = t.expected();
        let step = t.coarse_step(Some(exp), true);
        let out = o.take_step(&mut t, step, next_samples(&mut next, bs));
        if step.promoted {
            released = out;
        } else {
            assert!(out.is_empty());
        }
    }
    assert_eq!(t.state, State::FineTracking);
    assert!(o.held.is_empty());
    // Everything despread so far leaves in order, in 64-sample blocks.
    let flat: Vec<u32> = released.iter().flat_map(|b| b.samples.clone()).collect();
    assert_eq!(flat.len(), 7 * bs / 64 * 64);
    assert_eq!(flat, (0..flat.len() as u32).collect::<Vec<_>>());
    assert!(released.iter().all(|b| b.samples.len() == 64));
    assert_eq!(o.pending.len(), 7 * bs % 64);

    // Fine tracking passes blocks straight on.
    let exp = t.expected();
    let step = t.fine_step(Some(exp), true);
    let out = o.take_step(&mut t, step, next_samples(&mut next, bs));
    assert_eq!(out.len(), (7 * bs % 64 + bs) / 64);
    assert_eq!(out[0].samples[0], flat.len() as u32);
}

#[test]
fn tracker_drops_speculative_blocks_on_coarse_loss() {
    let bs = 32769usize;
    let mut t = MatchedFilterTracker::new(1);
    let mut o: TrackerOutput<u32> = TrackerOutput::new();
    let mut next = 0u32;
    let step = t.search_step(true, 0);
    o.take_step(&mut t, step, next_samples(&mut next, bs));
    for _ in 0..5 {
        let step = t.coarse_step(None, false);
        assert!(!step.lost);
        assert!(o.take_step(&mut t, step, next_samples(&mut next, bs)).is_empty());
    }
    assert_eq!(o.held.len(), 6 * bs / 64);
    let step = t.coarse_step(None, false);
    assert!(step.lost);
    assert!(o.take_step(&mut t, step, next_samples(&mut next, bs)).is_empty());
    assert!(o.held.is_empty() && o.pending.is_empty());
    assert_eq!(t.state, State::Searching);
}

#[test]
fn finger_cursor_opens_output_at_the_chain_start_and_wraps_the_pn_phase() {
    let mut c = ChipCursor::new(10, 128, 98, 100);
    assert_eq!(c.enter_chip(), 98);
    assert!(!c.chip_enabled);
    assert_eq!(c.enter_chip(), 99);
    assert!(!c.chip_enabled);
    assert_eq!(c.enter_chip(), 100);
    assert!(c.chip_enabled);
    assert_eq!(c.lc_chip_counter, 101);
    c.step_phase(4);
    assert_eq!(c.despread_phase, 14);
    c.step_phase(-20);
    assert_eq!(c.despread_phase, 122);
    c.step_phase(128);
    assert_eq!(c.despread_phase, 122);
    c.step_phase(-128);
    assert_eq!(c.despread_phase, 122);
    c.step_phase(7);
    assert_eq!(c.despread_phase, 1);
    assert!(is_pilot_symbol(1536 + 1136));
    assert!(!is_pilot_symbol(1536 + 1152));
    assert!(pilot_pcg_transmitted(false, 0));
    assert!(!pilot_pcg_transmitted(true, 5));
    assert!(pilot_pcg_transmitted(true, 6));
}

#[test]
fn pcg_window_measures_whole_groups_from_a_boundary() {
    let mut w = PcgWindow::new();
    assert_eq!(w.on_chip(1535, true), PcgChipRole::Skip);
    let mut pilot_symbols_done = 0;
    let mut traffic_symbols_done = 0;
    let mut last = None;
    for chip in 1536..3072usize {
        match w.on_chip(chip, true) {
            PcgChipRole::Measure { walsh_index, pilot, traffic_symbol_done, pilot_symbol_done, pcg_done, pcg_start, pilot_symbols } => {
                assert_eq!(walsh_index, (chip - 1536) % 16);
                assert_eq!(pilot, chip - 1536 < 1152);
                if pilot_symbol_done {
                    pilot_symbols_done += 1;
                }
                if traffic_symbol_done {
                    traffic_symbols_done += 1;
                }
                assert_eq!(pcg_start, Some(1536));
                assert_eq!(pcg_done, chip == 3071);
                if pcg_done {
                    last = Some(pilot_symbols);
                }
            }
            other => panic!("unexpected {:?}", other),
        }
    }
    assert_eq!(pilot_symbols_done, 72);
    assert_eq!(traffic_symbols_done, 96);
    assert_eq!(last, Some(72));
    assert_eq!(w.chip_count, 0);
    // A closed output restarts the window mid-group.
    w.on_chip(3072, true);
    assert_eq!(w.on_chip(3073, false), PcgChipRole::Reset);
    assert_eq!(w.on_chip(3074, true), PcgChipRole::Skip);
}

fn rake_finger(id: usize, hits: usize, misses: usize, validated: bool) -> FingerState {
    FingerState { id, phase: 100 * id, hits, misses, validated, chip_start: 0, started: false }
}

#[test]
fn rake_keeps_only_the_winner_once_a_finger_is_validated() {
    let mut r = RakeReceiver::new(1);
    r.fingers = vec![rake_finger(0, 3, 9, false), rake_finger(1, 2, 0, false), rake_finger(2, 5, 1, false)];
    r.next_finger_id = 3;
    // No validated finger: only the one past the miss limit goes.
    assert_eq!(r.finish_window(), None);
    assert_eq!(r.fingers.iter().map(|f| f.id).collect::<Vec<_>>(), vec![1, 2]);
    // Two validated fingers: the one with the most hits (the later on a tie)
    // stays alone.
    r.fingers = vec![rake_finger(0, 4, 0, true), rake_finger(1, 2, 0, false), rake_finger(2, 4, 7, true)];
    assert_eq!(r.finish_window(), Some(2));
    assert_eq!(r.fingers, vec![rake_finger(2, 4, 7, true)]);
    assert_eq!(r.finish_window(), Some(2));
    assert_eq!(r.fingers.len(), 1);
}

#[test]
fn finger_validation_tags() {
    let none = FingerOutputTags {
        ms_sync_event: None,
        deinterleaver_lock_crc_valid: None,
        access_crc_valid: None,
        access_preamble_detected: None,
    };
    assert!(!validates_finger(none));
    assert!(validates_finger(FingerOutputTags { ms_sync_event: Some(1), ..none }));
    assert!(!validates_finger(FingerOutputTags { ms_sync_event: Some(2), ..none }));
    assert!(validates_finger(FingerOutputTags { deinterleaver_lock_crc_valid: Some(3), ..none }));
    assert!(!validates_finger(FingerOutputTags { deinterleaver_lock_crc_valid: Some(0), ..none }));
    assert!(validates_finger(FingerOutputTags { access_crc_valid: Some(1), ..none }));
    assert!(validates_finger(FingerOutputTags { access_preamble_detected: Some(1), ..none }));
    assert!(!validates_finger(FingerOutputTags { access_preamble_detected: Some(-1), ..none }));
}
