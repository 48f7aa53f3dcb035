//! One-shot PN phase alignment: drop the leading samples up to the next PN
//! epoch named by the first `pilot_phase` tag, then pass samples through in
//! whole 64-chip blocks on a timeline rebased to that epoch.
use vstd::prelude::*;

verus! {

/// Chips in one period of the short PN code.
pub const PN_PERIOD_CHIPS: usize = 32768;
/// Output is emitted in multiples of this many chips.
pub const EMIT_CHIPS: usize = 64;

/// The numeric tags of a block that the aligner reads or rewrites.
#[derive(Clone, Copy, Debug, PartialEq, Eq, Structural)]
pub struct AlignTags {
    pub absolute_sample_start: Option<i64>,
    pub absolute_chip_start: Option<i64>,
    pub pn_epoch_sample: Option<i64>,
    pub absolute_pn_epoch_sample: Option<i64>,
}

/// An incoming block: samples, start index (in samples), the tags above, the
/// `pilot_phase` tag and whether the reset tag was asserted.
pub struct AlignInput<T> {
    pub samples: Vec<T>,
    pub chip_start: usize,
    pub tags: AlignTags,
    pub pilot_phase: Option<i64>,
    pub reset: bool,
}

/// An emitted block.
pub struct AlignOutput<T> {
    pub samples: Vec<T>,
    /// Start index relative to the PN epoch (in samples).
    pub chip_start: usize,
    pub tags: AlignTags,
    /// PN phase of the first sample, in samples.
    pub pn_phase_samples: usize,
}

/// Result of one block: the emitted block, if any, and which incoming block
/// the buffered tags (other than those of `AlignTags`) now come from.
pub struct AlignStep<T> {
    pub output: Option<AlignOutput<T>>,
    /// The buffer was empty: output tags are taken from this block.
    pub tags_taken_before: bool,
    /// Samples stay buffered after the emission: the next output takes this
    /// block's tags.
    pub tags_taken_after: bool,
}

pub struct PnAlignProcessor<T> {
    pub oversample: usize,
    pub period: usize,
    pub aligned: bool,
    pub pending_drop: usize,
    pub additional_drop_samples: usize,
    pub reset_on_tag: Option<&'static str>,
    pub buffer: Vec<T>,
    pub buffer_tags: AlignTags,
    pub buffer_chip_start: usize,
    /// Sample index of the first PN epoch of the current alignment.
    pub pn_epoch_sample: Option<usize>,
}

pub open spec fn sat_add(a: int, b: int, max: int) -> int {
    if a + b > max { max } else { a + b }
}

pub open spec fn sat_sub(a: int, b: int) -> int {
    if a >= b { a - b } else { 0 }
}

pub open spec fn min(a: int, b: int) -> int {
    if a <= b { a } else { b }
}

/// Rust's division of `a` by `b > 0`, rounding toward zero.
pub open spec fn trunc_div(a: int, b: int) -> int {
    if a >= 0 { a / b } else { -((-a) / b) }
}

/// Samples to drop to reach the next PN epoch from `pilot` (a phase in
/// samples), plus the configured extra.
pub open spec fn epoch_drop(period: int, pilot_phase: i64, additional: int) -> int {
    sat_add((period - ((pilot_phase as usize) as int) % period) % period, additional, usize::MAX as int)
}

/// Tags after `drop` leading samples were removed.
pub open spec fn dropped_tags(t: AlignTags, drop: int, oversample: int) -> AlignTags {
    AlignTags {
        absolute_sample_start: match t.absolute_sample_start {
            Some(v) => Some((v + (drop as usize) as i64) as i64),
            None => None,
        },
        absolute_chip_start: match t.absolute_chip_start {
            Some(v) => Some(clamp_i64(v + ((drop / oversample) as usize) as i64) as i64),
            None => None,
        },
        ..t
    }
}

/// `a * b`, saturating at `usize::MAX`.
pub fn sat_mul_usize(a: usize, b: usize) -> (r: usize)
    ensures
        r == sat_add(a as int * b as int, 0, usize::MAX as int),
{
    match a.checked_mul(b) {
        Some(v) => v,
        None => usize::MAX,
    }
}

/// `a + b` clamped to the range of `i64`.
pub open spec fn clamp_i64(v: int) -> int {
    if v > i64::MAX { i64::MAX as int } else if v < i64::MIN { i64::MIN as int } else { v }
}

/// `a + b`, saturating at the bounds of `i64`.
pub fn sat_add_i64(a: i64, b: i64) -> (r: i64)
    ensures
        r == clamp_i64(a + b),
{
    if b >= 0 {
        if a > i64::MAX - b { i64::MAX } else { a + b }
    } else {
        if a < i64::MIN - b { i64::MIN } else { a + b }
    }
}

/// Whole multiples of `g` in `len`: between nothing and `len`, a multiple
/// of `g`, and less than `g` short of `len`.
pub proof fn lemma_emit_len_bounds(len: int, g: int)
    requires
        len >= 0,
        g > 0,
    ensures
        0 <= len / g * g <= len,
        len - len / g * g < g,
        (len / g * g) % g == 0,
{
    vstd::arithmetic::div_mod::lemma_fundamental_div_mod(len, g);
    vstd::arithmetic::div_mod::lemma_div_pos_is_pos(len, g);
    vstd::arithmetic::mul::lemma_mul_is_commutative(len / g, g);
    vstd::arithmetic::div_mod::lemma_mod_multiples_basic(len / g, g);
    assert(0 <= len / g * g) by (nonlinear_arith) requires len / g >= 0, g > 0 {}
}

impl<T> PnAlignProcessor<T> {
    pub open spec fn wf(&self) -> bool {
        &&& 1 <= self.oversample <= i64::MAX
        &&& self.period == sat_add(PN_PERIOD_CHIPS as int * self.oversample, 0, usize::MAX as int)
        &&& self.period >= PN_PERIOD_CHIPS
    }

    /// The alignment flag and pending drop once a block's reset and
    /// `pilot_phase` tags were taken in.
    pub open spec fn armed(&self, reset: bool, pilot_phase: Option<i64>) -> (bool, int) {
        let aligned = if reset { false } else { self.aligned };
        let pending = if reset { 0 } else { self.pending_drop as int };
        if !aligned && pending == 0 && pilot_phase.is_some() {
            (true, epoch_drop(self.period as int, pilot_phase.unwrap(), self.additional_drop_samples as int))
        } else {
            (aligned, pending)
        }
    }

    /// Samples dropped from a block of `len` samples.
    pub open spec fn drop_len(&self, reset: bool, pilot_phase: Option<i64>, len: int) -> int {
        min(self.armed(reset, pilot_phase).1, len)
    }


    /// Samples a block of `len` samples with these reset and `pilot_phase`
    /// tags will lose to the alignment.
    pub fn drop_for_block(&self, reset: bool, pilot_phase: Option<i64>, len: usize) -> (d: usize)
        requires
            self.wf(),
        ensures
            d == self.drop_len(reset, pilot_phase, len as int),
    {
        let aligned = if reset { false } else { self.aligned };
        let pending = if reset { 0 } else { self.pending_drop };
        let armed = if !aligned && pending == 0 && pilot_phase.is_some() {
            let phase = pilot_phase.unwrap();
            let pilot = (phase as usize) % self.period;
            ((self.period - pilot) % self.period).saturating_add(self.additional_drop_samples)
        } else {
            pending
        };
        if armed < len { armed } else { len }
    }

    /// An aligner for streams oversampled by `oversample` (zero taken as one).
    pub fn new(oversample: usize) -> (p: Self)
        requires
            oversample <= i64::MAX,
        ensures
            p.wf(),
            p.oversample == if oversample == 0 { 1 } else { oversample },
            !p.aligned,
            p.pending_drop == 0,
            p.additional_drop_samples == 0,
            p.reset_on_tag.is_none(),
            p.buffer@.len() == 0,
            p.pn_epoch_sample.is_none(),
    {
        let os: usize = if oversample == 0 { 1 } else { oversample };
        let period = sat_mul_usize(PN_PERIOD_CHIPS, os);
        PnAlignProcessor {
            oversample: os,
            period,
            aligned: false,
            pending_drop: 0,
            additional_drop_samples: 0,
            reset_on_tag: None,
            buffer: Vec::new(),
            buffer_tags: AlignTags {
                absolute_sample_start: None,
                absolute_chip_start: None,
                pn_epoch_sample: None,
                absolute_pn_epoch_sample: None,
            },
            buffer_chip_start: 0,
            pn_epoch_sample: None,
        }
    }

    /// Re-arm the alignment whenever the named tag is asserted upstream.
    pub fn with_reset_on_tag(self, tag: &'static str) -> (p: Self)
        ensures
            p.reset_on_tag == Some(tag),
            p.oversample == self.oversample,
            p.period == self.period,
            p.aligned == self.aligned,
            p.pending_drop == self.pending_drop,
            p.additional_drop_samples == self.additional_drop_samples,
            p.buffer@ == self.buffer@,
            p.pn_epoch_sample == self.pn_epoch_sample,
    {
        let mut p = self;
        p.reset_on_tag = Some(tag);
        p
    }

    /// Drop this many more samples after the epoch boundary.
    pub fn with_additional_drop_samples(self, samples: usize) -> (p: Self)
        ensures
            p.additional_drop_samples == samples,
            p.oversample == self.oversample,
            p.period == self.period,
            p.aligned == self.aligned,
            p.pending_drop == self.pending_drop,
            p.reset_on_tag == self.reset_on_tag,
            p.buffer@ == self.buffer@,
            p.pn_epoch_sample == self.pn_epoch_sample,
    {
        let mut p = self;
        p.additional_drop_samples = samples;
        p
    }

    /// The tags of a buffer started by a block with tags `tags`, given the
    /// current PN epoch.
    pub open spec fn started_tags(tags: AlignTags, epoch: Option<usize>) -> AlignTags {
        match epoch {
            Some(e) => AlignTags {
                pn_epoch_sample: Some(e as i64),
                absolute_pn_epoch_sample: match tags.absolute_sample_start {
                    Some(a) => Some(a),
                    None => tags.absolute_pn_epoch_sample,
                },
                ..tags
            },
            None => tags,
        }
    }

    /// Start index, relative to the epoch, of a buffer started at `start`.
    pub open spec fn started_chip_start(start: int, epoch: Option<usize>) -> int {
        match epoch {
            Some(e) => sat_sub(start, e as int),
            None => start,
        }
    }

    /// The tags of an emitted block whose buffer had tags `t`.
    pub open spec fn emitted_tags(t: AlignTags, chip_start: int, oversample: int) -> AlignTags {
        match t.absolute_pn_epoch_sample {
            Some(ae) => {
                let abs = clamp_i64(ae + (chip_start as usize) as i64);
                AlignTags {
                    absolute_sample_start: Some(abs as i64),
                    absolute_chip_start: Some(trunc_div(abs, oversample) as i64),
                    ..t
                }
            },
            None => t,
        }
    }

    /// Samples emitted when `len` are buffered: whole multiples of 64 chips.
    pub open spec fn emit_len(&self, len: int) -> int {
        let gran = sat_add(self.oversample as int * EMIT_CHIPS, 0, usize::MAX as int);
        len / gran * gran
    }

    /// Append `kept` (non-empty, starting at sample `start`, with `tags`) to
    /// the buffer and emit what fills whole 64-chip blocks.
    fn buffer_and_emit(&mut self, kept: Vec<T>, start: usize, tags: AlignTags) -> (step: AlignStep<T>)
        requires
            old(self).wf(),
            kept@.len() > 0,
        ensures
            final(self).wf(),
            final(self).aligned == old(self).aligned,
            final(self).pending_drop == old(self).pending_drop,
            final(self).pn_epoch_sample == old(self).pn_epoch_sample,
            final(self).oversample == old(self).oversample,
            final(self).additional_drop_samples == old(self).additional_drop_samples,
            final(self).reset_on_tag == old(self).reset_on_tag,
            ({
                let buffered = old(self).buffer@;
                let all = buffered + kept@;
                let emit = old(self).emit_len(all.len() as int);
                let epoch = old(self).pn_epoch_sample;
                let bstart = if buffered.len() == 0 {
                    Self::started_chip_start(start as int, epoch)
                } else {
                    old(self).buffer_chip_start as int
                };
                let btags = if buffered.len() == 0 {
                    Self::started_tags(tags, epoch)
                } else {
                    old(self).buffer_tags
                };
                &&& step.tags_taken_before == (buffered.len() == 0)
                &&& final(self).buffer@ == all.subrange(emit, all.len() as int)
                &&& (match step.output { Some(o) => o.samples@, None => Seq::<T>::empty() })
                    + final(self).buffer@ == all
                &&& if emit == 0 {
                    &&& step.output.is_none()
                    &&& !step.tags_taken_after
                    &&& final(self).buffer_chip_start == bstart
                    &&& final(self).buffer_tags == btags
                } else {
                    let out = step.output.unwrap();
                    &&& step.output.is_some()
                    &&& out.samples@ == all.subrange(0, emit)
                    &&& out.chip_start == bstart
                    &&& out.pn_phase_samples == bstart % (old(self).period as int)
                    &&& out.tags == Self::emitted_tags(btags, bstart, old(self).oversample as int)
                    &&& final(self).buffer_chip_start == sat_add(bstart, emit, usize::MAX as int)
                    &&& step.tags_taken_after == (emit < all.len())
                    &&& final(self).buffer_tags == if emit < all.len() { tags } else { btags }
                }
            }),
    {
        let os = self.oversample;
        let period = self.period;
        let mut kept = kept;
        let taken_before = self.buffer.len() == 0;
        if taken_before {
            self.buffer_tags = tags;
            match self.pn_epoch_sample {
                Some(epoch) => {
                    self.buffer_chip_start = start.saturating_sub(epoch);
                    self.buffer_tags.pn_epoch_sample = Some(epoch as i64);
                    if let Some(a) = tags.absolute_sample_start {
                        self.buffer_tags.absolute_pn_epoch_sample = Some(a);
                    }
                },
                None => {
                    self.buffer_chip_start = start;
                },
            }
        }
        let ghost all = self.buffer@ + kept@;
        self.buffer.append(&mut kept);
        assert(self.buffer@ == all);
        let gran = sat_mul_usize(os, EMIT_CHIPS);
        let blen = self.buffer.len();
        assert((blen / gran) * gran <= blen) by (nonlinear_arith)
            requires gran > 0 {}
        let emit_len = (blen / gran) * gran;
        if emit_len == 0 {
            assert(Seq::<T>::empty() + self.buffer@ =~= all);
            return AlignStep { output: None, tags_taken_before: taken_before, tags_taken_after: false };
        }
        let mut emitted = self.buffer.split_off(emit_len);
        std::mem::swap(&mut emitted, &mut self.buffer);
        assert(emitted@ + self.buffer@ =~= all);
        let out_start = self.buffer_chip_start;
        let mut out_tags = self.buffer_tags;
        if let Some(ae) = out_tags.absolute_pn_epoch_sample {
            let abs = sat_add_i64(ae, out_start as i64);
            out_tags.absolute_sample_start = Some(abs);
            out_tags.absolute_chip_start = Some(abs / (os as i64));
        }
        let output = AlignOutput {
            samples: emitted,
            chip_start: out_start,
            tags: out_tags,
            pn_phase_samples: out_start % period,
        };
        self.buffer_chip_start = self.buffer_chip_start.saturating_add(emit_len);
        let taken_after = self.buffer.len() > 0;
        if taken_after {
            self.buffer_tags = tags;
        }
        AlignStep { output: Some(output), tags_taken_before: taken_before, tags_taken_after: taken_after }
    }

    /// Output granularity in samples: 64 chips.
    pub open spec fn gran(&self) -> int {
        sat_add(self.oversample as int * EMIT_CHIPS, 0, usize::MAX as int)
    }

    /// `b` is `a` after a block of `samples` with pilot tag `pilot` and no
    /// reset, whose emitted samples are `out`: the leading samples owed to
    /// the alignment are dropped, the rest follow the buffered ones, and the
    /// whole 64-chip blocks among them leave (none when nothing was kept).
    pub open spec fn processed(a: Self, b: Self, pilot: Option<i64>, samples: Seq<T>, out: Seq<T>) -> bool {
        let armed = a.armed(false, pilot);
        let drop = a.drop_len(false, pilot, samples.len() as int);
        let kept = samples.subrange(drop, samples.len() as int);
        let all = a.buffer@ + kept;
        &&& b.wf()
        &&& b.aligned == armed.0
        &&& b.pending_drop == armed.1 - drop
        &&& b.oversample == a.oversample
        &&& b.additional_drop_samples == a.additional_drop_samples
        &&& out + b.buffer@ == all
        &&& out.len() == if kept.len() == 0 { 0 } else { a.emit_len(all.len() as int) }
    }

    /// The samples a step emitted.
    pub open spec fn emitted(step: AlignStep<T>) -> Seq<T> {
        match step.output { Some(o) => o.samples@, None => Seq::<T>::empty() }
    }

    /// Take in one block. Samples are dropped up to the PN epoch, the rest
    /// are appended to the buffer, and whole multiples of 64 chips leave the
    /// buffer as one output block, in order.
    #[verifier::rlimit(50)]
    pub fn process(&mut self, input: AlignInput<T>) -> (step: AlignStep<T>)
        requires
            old(self).wf(),
            match input.tags.absolute_sample_start {
                Some(v) => i64::MIN <= v + ((old(self).drop_len(input.reset, input.pilot_phase, input.samples@.len() as int) as usize) as i64) <= i64::MAX,
                None => true,
            },
        ensures
            final(self).wf(),
            !input.reset ==> Self::processed(*old(self), *final(self), input.pilot_phase, input.samples@, Self::emitted(step)),
            ({
                let armed = old(self).armed(input.reset, input.pilot_phase);
                let drop = old(self).drop_len(input.reset, input.pilot_phase, input.samples@.len() as int);
                let kept = input.samples@.subrange(drop, input.samples@.len() as int);
                let start = sat_add(input.chip_start as int, drop, usize::MAX as int);
                let epoch0 = if input.reset { None } else { old(self).pn_epoch_sample };
                let epoch = if armed.0 && armed.1 - drop == 0 && epoch0.is_none() {
                    Some(start as usize)
                } else {
                    epoch0
                };
                let buffered = if input.reset { Seq::<T>::empty() } else { old(self).buffer@ };
                let all = buffered + kept;
                let emit = old(self).emit_len(all.len() as int);
                let tags = dropped_tags(input.tags, drop, old(self).oversample as int);
                let bstart = if buffered.len() == 0 {
                    Self::started_chip_start(start, epoch)
                } else {
                    old(self).buffer_chip_start as int
                };
                let btags = if buffered.len() == 0 {
                    Self::started_tags(tags, epoch)
                } else {
                    old(self).buffer_tags
                };
                &&& (match step.output { Some(o) => o.samples@, None => Seq::<T>::empty() })
                    + final(self).buffer@ == buffered + kept
                &&& final(self).aligned == armed.0
                &&& final(self).pending_drop == armed.1 - drop
                &&& final(self).pn_epoch_sample == epoch
                &&& final(self).oversample == old(self).oversample
                &&& final(self).additional_drop_samples == old(self).additional_drop_samples
                &&& final(self).reset_on_tag == old(self).reset_on_tag
                &&& if kept.len() == 0 {
                    &&& final(self).buffer@ == buffered
                    &&& step.output.is_none()
                    &&& !step.tags_taken_before
                    &&& !step.tags_taken_after
                } else {
                    &&& step.tags_taken_before == (buffered.len() == 0)
                    &&& final(self).buffer@ == all.subrange(emit, all.len() as int)
                    &&& if emit == 0 {
                        &&& step.output.is_none()
                        &&& !step.tags_taken_after
                        &&& final(self).buffer_chip_start == bstart
                        &&& final(self).buffer_tags == btags
                    } else {
                        let out = step.output.unwrap();
                        &&& step.output.is_some()
                        &&& out.samples@ == all.subrange(0, emit)
                        &&& out.chip_start == bstart
                        &&& out.pn_phase_samples == bstart % (old(self).period as int)
                        &&& out.tags == Self::emitted_tags(btags, bstart, old(self).oversample as int)
                        &&& final(self).buffer_chip_start == sat_add(bstart, emit, usize::MAX as int)
                        &&& step.tags_taken_after == (emit < all.len())
                        &&& final(self).buffer_tags == if emit < all.len() { tags } else { btags }
                    }
                }
            }),
    {
        let os = self.oversample;
        let period = self.period;
        let ghost in_samples = input.samples@;
        let ghost in_pilot = input.pilot_phase;
        let ghost in_reset = input.reset;
        if input.reset {
            self.aligned = false;
            self.pending_drop = 0;
            self.buffer = Vec::new();
            self.pn_epoch_sample = None;
        }
        if !self.aligned && self.pending_drop == 0 {
            if let Some(phase) = input.pilot_phase {
                let pilot = (phase as usize) % period;
                self.pending_drop = ((period - pilot) % period).saturating_add(self.additional_drop_samples);
                self.aligned = true;
            }
        }
        let mut samples = input.samples;
        let mut chip_start = input.chip_start;
        let mut tags = input.tags;
        if self.pending_drop > 0 {
            let drop = if self.pending_drop < samples.len() { self.pending_drop } else { samples.len() };
            assert(drop == old(self).drop_len(input.reset, input.pilot_phase, input.samples@.len() as int));
            samples = samples.split_off(drop);
            chip_start = chip_start.saturating_add(drop);
            if let Some(v) = tags.absolute_sample_start {
                tags.absolute_sample_start = Some(v + drop as i64);
            }
            if let Some(v) = tags.absolute_chip_start {
                tags.absolute_chip_start = Some(sat_add_i64(v, (drop / os) as i64));
            }
            self.pending_drop = self.pending_drop - drop;
        } else {
            assert(samples@.subrange(0, samples@.len() as int) == samples@);
        }
        if self.aligned && self.pending_drop == 0 && self.pn_epoch_sample.is_none() {
            self.pn_epoch_sample = Some(chip_start);
        }
        if samples.len() == 0 {
            assert(Seq::<T>::empty() + self.buffer@ =~= self.buffer@ + samples@);
            return AlignStep { output: None, tags_taken_before: false, tags_taken_after: false };
        }
        let ghost mid = *self;
        let ghost kept = samples@;
        let step = self.buffer_and_emit(samples, chip_start, tags);
        proof {
            let out = Self::emitted(step);
            let all = mid.buffer@ + kept;
            assert(mid.emit_len(all.len() as int) == old(self).emit_len(all.len() as int));
            lemma_emit_len_bounds(all.len() as int, mid.gran());
            if mid.emit_len(all.len() as int) == 0 {
                assert(out.len() == 0);
            } else {
                assert(out =~= all.subrange(0, mid.emit_len(all.len() as int)));
            }
            if !in_reset {
                let a = *old(self);
                let drop = a.drop_len(false, in_pilot, in_samples.len() as int);
                assert(kept == in_samples.subrange(drop, in_samples.len() as int));
                assert(all == a.buffer@ + in_samples.subrange(drop, in_samples.len() as int));
                assert(out + self.buffer@ == all);
                assert(Self::processed(a, *self, in_pilot, in_samples, out));
            }
        }
        step
    }
}

/// The samples of blocks `0..k`, in order.
pub open spec fn concat_blocks<T>(blocks: Seq<Seq<T>>, k: int) -> Seq<T>
    decreases k,
{
    if k <= 0 { Seq::empty() } else { concat_blocks(blocks, k - 1) + blocks[k - 1] }
}

/// What the stream owes the alignment after `k` blocks: the epoch drop less
/// the samples seen so far.
pub open spec fn owed_after<T>(d: int, blocks: Seq<Seq<T>>, k: int) -> int {
    if d - concat_blocks(blocks, k).len() > 0 { d - concat_blocks(blocks, k).len() } else { 0 }
}

/// The first `k` steps of a run: the aligner `states[k]` after `k` blocks
/// keeps its configuration, and what it emitted followed by what it holds is
/// the stream past the epoch drop `d`, in order, in whole 64-chip blocks.
pub open spec fn run_prefix_holds<T>(
    states: Seq<PnAlignProcessor<T>>,
    blocks: Seq<Seq<T>>,
    outs: Seq<Seq<T>>,
    d: int,
    k: int,
) -> bool {
    let s = concat_blocks(blocks, k);
    let g = states[0].gran();
    &&& states[k].wf()
    &&& states[k].oversample == states[0].oversample
    &&& states[k].additional_drop_samples == states[0].additional_drop_samples
    &&& k > 0 ==> states[k].aligned && states[k].pending_drop == owed_after(d, blocks, k)
    &&& concat_blocks(outs, k) + states[k].buffer@ == s.subrange(min(d, s.len() as int), s.len() as int)
    &&& states[k].buffer@.len() < g
    &&& forall|i: int| 0 <= i < k ==> (#[trigger] outs[i]).len() as int % g == 0
}

proof fn lemma_run_prefix<T>(
    states: Seq<PnAlignProcessor<T>>,
    pilots: Seq<Option<i64>>,
    blocks: Seq<Seq<T>>,
    outs: Seq<Seq<T>>,
    k: int,
)
    requires
        blocks.len() >= 1,
        states.len() == blocks.len() + 1,
        pilots.len() == blocks.len(),
        outs.len() == blocks.len(),
        states[0].wf(),
        !states[0].aligned,
        states[0].pending_drop == 0,
        states[0].buffer@.len() == 0,
        pilots[0].is_some(),
        forall|i: int| 0 <= i < blocks.len() ==>
            PnAlignProcessor::processed(states[i], #[trigger] states[i + 1], pilots[i], blocks[i], outs[i]),
        0 <= k <= blocks.len(),
    ensures
        run_prefix_holds(states, blocks, outs,
            epoch_drop(states[0].period as int, pilots[0].unwrap(), states[0].additional_drop_samples as int), k),
    decreases k,
{
    let d = epoch_drop(states[0].period as int, pilots[0].unwrap(), states[0].additional_drop_samples as int);
    let g = states[0].gran();
    if k == 0 {
        assert(concat_blocks(outs, 0) + states[0].buffer@ =~= concat_blocks(blocks, 0).subrange(0, 0));
    } else {
        let j = k - 1;
        lemma_run_prefix(states, pilots, blocks, outs, j);
        let a = states[j];
        let b = states[k];
        assert(PnAlignProcessor::processed(states[j], states[j + 1], pilots[j], blocks[j], outs[j]));
        let blk = blocks[j];
        let sj = concat_blocks(blocks, j);
        let sk = concat_blocks(blocks, k);
        assert(sk == sj + blk);
        let p = owed_after(d, blocks, j);
        assert(a.gran() == g);
        assert(a.period == states[0].period);
        assert(a.armed(false, pilots[j]) == (true, p));
        let drop = a.drop_len(false, pilots[j], blk.len() as int);
        assert(drop == min(p, blk.len() as int));
        let kept = blk.subrange(drop, blk.len() as int);
        let all = a.buffer@ + kept;
        assert(outs[j] + b.buffer@ == all);
        assert(b.pending_drop == owed_after(d, blocks, k));
        // Emitted samples followed by the buffer: the stream past the drop.
        let prev = sj.subrange(min(d, sj.len() as int), sj.len() as int);
        assert(concat_blocks(outs, j) + a.buffer@ == prev);
        assert(concat_blocks(outs, k) == concat_blocks(outs, j) + outs[j]);
        let c = concat_blocks(outs, j);
        assert((c + outs[j]) + b.buffer@ =~= c + (outs[j] + b.buffer@));
        assert(c + (a.buffer@ + kept) =~= (c + a.buffer@) + kept);
        assert(concat_blocks(outs, k) + b.buffer@ =~= prev + kept);
        if p == 0 {
            assert(sk.subrange(min(d, sk.len() as int), sk.len() as int) =~= prev + kept);
        } else {
            assert(prev =~= Seq::<T>::empty());
            assert(sk.subrange(min(d, sk.len() as int), sk.len() as int) =~= prev + kept);
        }
        // Whole 64-chip blocks leave; less than one stays.
        lemma_emit_len_bounds(all.len() as int, g);
        if kept.len() == 0 {
            assert(outs[j].len() == 0);
            assert(b.buffer@ =~= a.buffer@);
        } else {
            assert(outs[j].len() == all.len() as int / g * g);
        }
        assert(outs[j].len() as int % g == 0);
        assert forall|i: int| 0 <= i < k implies (#[trigger] outs[i]).len() as int % g == 0 by {
            if i < j {
                assert(run_prefix_holds(states, blocks, outs, d, j));
            }
        }
    }
}

/// Law: once a stream is aligned on its first `pilot_phase` tag, the samples
/// pass through unchanged and in order. Over any run of blocks without a
/// reset, starting from an unaligned aligner with nothing buffered, what the
/// blocks emitted, followed by what is still buffered, is the concatenated
/// input past the epoch drop; every emission is a whole number of 64-chip
/// blocks and less than one such block stays buffered.
pub proof fn lemma_alignment_passes_samples_through<T>(
    states: Seq<PnAlignProcessor<T>>,
    pilots: Seq<Option<i64>>,
    blocks: Seq<Seq<T>>,
    outs: Seq<Seq<T>>,
)
    requires
        blocks.len() >= 1,
        states.len() == blocks.len() + 1,
        pilots.len() == blocks.len(),
        outs.len() == blocks.len(),
        states[0].wf(),
        !states[0].aligned,
        states[0].pending_drop == 0,
        states[0].buffer@.len() == 0,
        pilots[0].is_some(),
        forall|i: int| 0 <= i < blocks.len() ==>
            PnAlignProcessor::processed(states[i], #[trigger] states[i + 1], pilots[i], blocks[i], outs[i]),
    ensures
        ({
            let n = blocks.len() as int;
            let d = epoch_drop(states[0].period as int, pilots[0].unwrap(), states[0].additional_drop_samples as int);
            let s = concat_blocks(blocks, n);
            let g = states[0].gran();
            &&& concat_blocks(outs, n) + states[n].buffer@ == s.subrange(min(d, s.len() as int), s.len() as int)
            &&& states[n].buffer@.len() < g
            &&& forall|i: int| 0 <= i < n ==> (#[trigger] outs[i]).len() as int % g == 0
        }),
{
    lemma_run_prefix(states, pilots, blocks, outs, blocks.len() as int);
}

} // verus!
