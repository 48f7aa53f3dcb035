use cdma_bts::pn_align::{AlignInput, AlignTags, PnAlignProcessor};

fn no_tags() -> AlignTags {
    AlignTags { absolute_sample_start: None, absolute_chip_start: None, pn_epoch_sample: None, absolute_pn_epoch_sample: None }
}

fn block(len: usize, chip_start: usize, pilot_phase: Option<i64>, reset: bool) -> AlignInput<u32> {
    AlignInput {
        samples: (0..len as u32).collect(),
        chip_start,
        tags: no_tags(),
        pilot_phase,
        reset,
    }
}

#[test]
fn test_pn_align_processor_aligns_to_pilot_phase_tag() {
    let mut p = PnAlignProcessor::<u32>::new(1);
    let phase = 32768 - 10;
    let step = p.process(block(128, 0, Some(phase as i64), false));
    let out = step.output.expect("one block");
    assert_eq!(64, out.samples.len());
    assert_eq!(0, out.chip_start);
}

#[test]
fn test_pn_align_processor_passes_through_without_tag() {
    let mut p = PnAlignProcessor::<u32>::new(1);
    let step = p.process(block(128, 63, None, false));
    let out = step.output.expect("one block");
    assert_eq!(128, out.samples.len());
    assert_eq!(63, out.chip_start);
}

#[test]
fn test_pn_align_processor_reset_rearms_alignment() {
    let mut p = PnAlignProcessor::<u32>::new(1).with_reset_on_tag("upstream_lock_lost");
    assert_eq!(p.reset_on_tag, Some("upstream_lock_lost"));

    let out1 = p.process(block(128, 0, Some(0), false)).output.expect("first block");
    assert_eq!(128, out1.samples.len());
    assert_eq!(0, out1.chip_start);

    let out2 = p.process(block(256, 100, Some((32768 - 5) as i64), true)).output.expect("second block");
    assert_eq!(192, out2.samples.len());
    assert_eq!(0, out2.chip_start);
}

#[test]
fn aligned_samples_keep_their_order_across_blocks() {
    let mut p = PnAlignProcessor::<u32>::new(1);
    let first = p.process(AlignInput {
        samples: (0..100).collect(),
        chip_start: 0,
        tags: no_tags(),
        pilot_phase: Some(32768 - 3),
        reset: false,
    });
    let out = first.output.expect("64 samples");
    assert_eq!(out.samples, (3..67).collect::<Vec<u32>>());
    assert_eq!(p.buffer, (67..100).collect::<Vec<u32>>());
    let second = p.process(AlignInput {
        samples: (100..131).collect(),
        chip_start: 100,
        tags: no_tags(),
        pilot_phase: None,
        reset: false,
    });
    let out = second.output.expect("64 more samples");
    assert_eq!(out.samples, (67..131).collect::<Vec<u32>>());
    assert_eq!(out.chip_start, 64);
    assert!(p.buffer.is_empty());
}

#[test]
fn drop_spanning_blocks_and_absolute_tags_rebase() {
    let mut p = PnAlignProcessor::<u32>::new(2).with_additional_drop_samples(3);
    let mut tags = no_tags();
    tags.absolute_sample_start = Some(5000);
    tags.absolute_chip_start = Some(2500);
    // Pilot phase 65530 of a 65536-sample period: 6 samples to the epoch plus 3.
    let step = p.process(AlignInput { samples: vec![0; 4], chip_start: 10, tags, pilot_phase: Some(65530), reset: false });
    assert!(step.output.is_none());
    assert_eq!(p.pending_drop, 5);
    assert!(p.pn_epoch_sample.is_none());

    let mut tags = no_tags();
    tags.absolute_sample_start = Some(5004);
    let step = p.process(AlignInput { samples: vec![1; 200], chip_start: 14, tags, pilot_phase: None, reset: false });
    assert_eq!(p.pn_epoch_sample, Some(19));
    assert!(step.tags_taken_before);
    let out = step.output.expect("128 samples");
    assert_eq!(out.samples.len(), 128);
    assert_eq!(out.chip_start, 0);
    assert_eq!(out.pn_phase_samples, 0);
    assert_eq!(out.tags.pn_epoch_sample, Some(19));
    assert_eq!(out.tags.absolute_pn_epoch_sample, Some(5009));
    assert_eq!(out.tags.absolute_sample_start, Some(5009));
    assert_eq!(out.tags.absolute_chip_start, Some(2504));
    assert!(step.tags_taken_after);
    assert_eq!(p.buffer.len(), 195 - 128);
    assert_eq!(p.buffer_chip_start, 128);
}

#[test]
fn zero_oversample_is_taken_as_one() {
    let p = PnAlignProcessor::<u8>::new(0);
    assert_eq!(p.oversample, 1);
    assert_eq!(p.period, 32768);
}

#[test]
fn aligned_stream_passes_samples_through_in_order() {
    // Oversample 2: 64-chip blocks are 128 samples; the pilot phase puts
    // the epoch 300 samples in, plus 5 extra samples dropped.
    let mut p = PnAlignProcessor::<u32>::new(2).with_additional_drop_samples(5);
    let period = 32768 * 2;
    let lens = [100usize, 250, 7, 400, 129, 0, 300];
    let mut stream: Vec<u32> = Vec::new();
    let mut emitted: Vec<u32> = Vec::new();
    let mut next = 0u32;
    for (k, &len) in lens.iter().enumerate() {
        let samples: Vec<u32> = (next..next + len as u32).collect();
        next += len as u32;
        stream.extend(&samples);
        let pilot = if k == 0 { Some((period - 300) as i64) } else { Some(17) };
        let input = AlignInput { samples, chip_start: 0, tags: no_tags(), pilot_phase: pilot, reset: false };
        let step = p.process(input);
        if let Some(out) = step.output {
            assert!(out.samples.len() > 0 && out.samples.len() % 128 == 0);
            emitted.extend(out.samples);
        }
    }
    assert!(p.buffer.len() < 128);
    let mut all = emitted.clone();
    all.extend(&p.buffer);
    assert_eq!(all, stream[305..].to_vec());
    assert_eq!(emitted.len(), (stream.len() - 305) / 128 * 128);
}
