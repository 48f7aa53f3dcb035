//! Finger management of the rake receiver: which correlation peaks become
//! fingers, how fingers track and die, and which single validated finger
//! is forwarded.
//!
//! Correlation, despreading and each finger's decoding chain are the
//! caller's; it reports per finger the tracked peak and whether the chain
//! validated it.
use vstd::prelude::*;
use crate::tracker::{phase_distance, spec_phase_distance};

verus! {

/// Fingers at most.
pub const MAX_FINGERS: usize = 3;
/// Peaks closer than this many chips are one path.
pub const MIN_PEAK_SEPARATION_CHIPS: usize = 16;
/// Net misses after which an unvalidated finger is dropped.
pub const FINGER_DEAD_MISSES: usize = 8;
/// Peaks kept by the peak search at most.
pub const MAX_PEAKS: usize = 6;
/// Chips per finger output block.
pub const FINGER_BLOCK_CHIPS: usize = 64;
/// Group delay of one pass of the 48-tap matched filter (upper midpoint).
pub const REFERENCE_FILTER_GROUP_DELAY: usize = 24;

#[derive(Debug, Clone, Copy, PartialEq, Eq, Structural)]
pub struct FingerState {
    pub id: usize,
    pub phase: usize,
    pub hits: usize,
    pub misses: usize,
    pub validated: bool,
    pub chip_start: usize,
    pub started: bool,
}

pub struct RakeReceiver {
    pub fingers: Vec<FingerState>,
    pub next_finger_id: usize,
    pub oversample: usize,
    /// Group delay of the reference filters, in samples, undone when
    /// despreading against the raw PN reference.
    pub despread_phase_offset: usize,
    pub use_raw_pn_despreading: bool,
}

pub open spec fn dec(n: int) -> int {
    if n > 0 { n - 1 } else { 0 }
}

/// Finger ids increase along the list and stay below `next`.
pub open spec fn ids_ordered(s: Seq<FingerState>, next: int) -> bool {
    &&& forall|i: int, j: int| 0 <= i < j < s.len() ==> s[i].id < s[j].id
    &&& forall|i: int| 0 <= i < s.len() ==> s[i].id < next
}

/// Whether a finger survives pruning: validated fingers always do; others
/// while their net misses stay within the limit, and not at all once a
/// validated finger existed at the start of the block.
pub open spec fn survives(f: FingerState, had_validated: bool) -> bool {
    if had_validated { f.validated } else { f.validated || f.misses <= FINGER_DEAD_MISSES }
}

pub open spec fn pruned(s: Seq<FingerState>, had_validated: bool) -> Seq<FingerState>
    decreases s.len(),
{
    if s.len() == 0 {
        s
    } else {
        let rest = pruned(s.drop_last(), had_validated);
        if survives(s.last(), had_validated) { rest.push(s.last()) } else { rest }
    }
}

proof fn lemma_pruned_subset(s: Seq<FingerState>, had_validated: bool)
    ensures
        pruned(s, had_validated).len() <= s.len(),
        forall|k: int| 0 <= k < pruned(s, had_validated).len() ==>
            s.contains(#[trigger] pruned(s, had_validated)[k]) && survives(pruned(s, had_validated)[k], had_validated),
    decreases s.len(),
{
    if s.len() > 0 {
        lemma_pruned_subset(s.drop_last(), had_validated);
        let rest = pruned(s.drop_last(), had_validated);
        assert forall|k: int| 0 <= k < pruned(s, had_validated).len() implies
            s.contains(#[trigger] pruned(s, had_validated)[k]) && survives(pruned(s, had_validated)[k], had_validated) by {
            if k < rest.len() {
                let x = rest[k];
                assert(s.drop_last().contains(x));
                let w = choose|w: int| 0 <= w < s.drop_last().len() && s.drop_last()[w] == x;
                assert(s[w] == x);
            } else {
                assert(s[s.len() - 1] == s.last());
            }
        }
    }
}

proof fn lemma_pruned_ordered(s: Seq<FingerState>, had_validated: bool, next: int)
    requires
        ids_ordered(s, next),
    ensures
        ids_ordered(pruned(s, had_validated), next),
    decreases s.len(),
{
    if s.len() > 0 {
        let d = s.drop_last();
        assert(ids_ordered(d, next));
        lemma_pruned_ordered(d, had_validated, next);
        lemma_pruned_subset(d, had_validated);
        let rest = pruned(d, had_validated);
        if survives(s.last(), had_validated) {
            assert forall|k: int| 0 <= k < rest.len() implies #[trigger] rest[k].id < s.last().id by {
                assert(d.contains(rest[k]));
                let w = choose|w: int| 0 <= w < d.len() && d[w] == rest[k];
                assert(s[w] == d[w]);
            }
        }
    }
}

/// Which finger is forwarded: the validated finger with the most hits,
/// the last one of those on a tie.
pub open spec fn winner_upto(s: Seq<FingerState>, n: int) -> Option<int>
    decreases n,
{
    if n <= 0 {
        None
    } else {
        let prev = winner_upto(s, n - 1);
        if s[n - 1].validated && (prev.is_none() || s[n - 1].hits >= s[prev.unwrap()].hits) {
            Some(n - 1)
        } else {
            prev
        }
    }
}

proof fn lemma_winner_upto(s: Seq<FingerState>, n: int)
    requires
        0 <= n <= s.len(),
    ensures
        match winner_upto(s, n) {
            Some(w) => 0 <= w < n && s[w].validated
                && forall|k: int| 0 <= k < n && #[trigger] s[k].validated ==> s[k].hits <= s[w].hits,
            None => forall|k: int| 0 <= k < n ==> !#[trigger] s[k].validated,
        },
    decreases n,
{
    if n > 0 {
        lemma_winner_upto(s, n - 1);
    }
}

/// The fingers with validation taken from all validated fingers but the
/// winner `wid`.
pub open spec fn demoted(s: Seq<FingerState>, wid: usize) -> Seq<FingerState> {
    Seq::new(s.len(), |k: int| if s[k].validated && s[k].id != wid {
        FingerState { validated: false, ..s[k] }
    } else {
        s[k]
    })
}

/// Peaks kept from `phases` (strongest first): each that is not within
/// `min_sep` of an already kept one, until six are kept.
pub open spec fn separated_peaks(phases: Seq<usize>, n: int, min_sep: int, period: int) -> Seq<usize>
    decreases n,
{
    if n <= 0 {
        Seq::empty()
    } else {
        let kept = separated_peaks(phases, n - 1, min_sep, period);
        if kept.len() >= MAX_PEAKS {
            kept
        } else if exists|k: int| 0 <= k < kept.len()
            && #[trigger] spec_phase_distance(phases[n - 1] as int, kept[k] as int, period) < min_sep {
            kept
        } else {
            kept.push(phases[n - 1])
        }
    }
}

proof fn lemma_separated_len(phases: Seq<usize>, n: int, min_sep: int, period: int)
    ensures
        separated_peaks(phases, n, min_sep, period).len() <= MAX_PEAKS,
        n >= 0 ==> separated_peaks(phases, n, min_sep, period).len() <= n,
    decreases n,
{
    if n > 0 {
        lemma_separated_len(phases, n - 1, min_sep, period);
    }
}

/// Keep the correlation peaks (phases, strongest first) that are at least
/// `16 * oversample` apart from every stronger kept peak, at most six.
pub fn separate_peaks(phases: &[usize], oversample: usize, period: usize) -> (kept: Vec<usize>)
    requires
        1 <= oversample <= 32768,
        0 < period <= isize::MAX,
        forall|i: int| 0 <= i < phases@.len() ==> #[trigger] phases@[i] < period,
    ensures
        kept@ == separated_peaks(phases@, phases@.len() as int, MIN_PEAK_SEPARATION_CHIPS * oversample, period as int),
{
    let min_sep = MIN_PEAK_SEPARATION_CHIPS * oversample;
    let mut kept: Vec<usize> = Vec::new();
    let mut i: usize = 0;
    while i < phases.len()
        invariant
            0 < period <= isize::MAX,
            min_sep == MIN_PEAK_SEPARATION_CHIPS * oversample,
            forall|j: int| 0 <= j < phases@.len() ==> #[trigger] phases@[j] < period,
            i <= phases@.len(),
            kept@ == separated_peaks(phases@, i as int, min_sep as int, period as int),
            kept@.len() <= MAX_PEAKS,
            forall|j: int| 0 <= j < kept@.len() ==> #[trigger] kept@[j] < period,
        decreases phases@.len() - i,
    {
        proof { lemma_separated_len(phases@, i as int, min_sep as int, period as int); }
        if kept.len() >= MAX_PEAKS {
            proof { lemma_separated_len(phases@, i as int + 1, min_sep as int, period as int); }
            i += 1;
            continue;
        }
        let phase = phases[i];
        let mut too_close = false;
        let mut k: usize = 0;
        while k < kept.len()
            invariant
                0 < period <= isize::MAX,
                phase < period,
                forall|j: int| 0 <= j < kept@.len() ==> #[trigger] kept@[j] < period,
                k <= kept@.len(),
                too_close == exists|j: int| 0 <= j < k
                    && #[trigger] spec_phase_distance(phase as int, kept@[j] as int, period as int) < min_sep,
            decreases kept@.len() - k,
        {
            if phase_distance(phase, kept[k], period) < min_sep {
                too_close = true;
            }
            k += 1;
        }
        if !too_close {
            kept.push(phase);
        }
        i += 1;
    }
    kept
}

/// A new finger at `phase` with id `id`.
pub open spec fn new_finger(id: int, phase: usize) -> FingerState {
    FingerState { id: id as usize, phase, hits: 1, misses: 0, validated: false, chip_start: 0, started: false }
}

/// Whether `phase` lies within the peak separation of a finger in `fs`.
pub open spec fn near_finger(fs: Seq<FingerState>, phase: usize, oversample: int) -> bool {
    exists|i: int| 0 <= i < fs.len()
        && #[trigger] spec_phase_distance(fs[i].phase as int, phase as int, 32768 * oversample)
            < MIN_PEAK_SEPARATION_CHIPS * oversample
}

/// Fingers and next id after considering the first `n` peaks in turn.
pub open spec fn spawned(fs: Seq<FingerState>, next: int, peaks: Seq<usize>, n: int, oversample: int)
    -> (Seq<FingerState>, int)
    decreases n,
{
    if n <= 0 {
        (fs, next)
    } else {
        let prev = spawned(fs, next, peaks, n - 1, oversample);
        let p = peaks[n - 1];
        if !near_finger(prev.0, p, oversample) && prev.0.len() < MAX_FINGERS {
            (prev.0.push(new_finger(prev.1, p)), prev.1 + 1)
        } else {
            prev
        }
    }
}

impl RakeReceiver {
    pub open spec fn period(&self) -> int {
        32768 * self.oversample
    }

    pub open spec fn block_samples(&self) -> int {
        self.period() + 1
    }

    pub open spec fn wf(&self) -> bool {
        &&& 1 <= self.oversample <= 32768
        &&& self.fingers@.len() <= MAX_FINGERS
        &&& ids_ordered(self.fingers@, self.next_finger_id as int)
        &&& forall|i: int| 0 <= i < self.fingers@.len() ==> #[trigger] self.fingers@[i].phase < self.period()
    }

    /// A receiver with two reference filter passes.
    pub fn new(oversample: usize) -> (r: Self)
        requires
            1 <= oversample <= 32768,
        ensures
            r.wf(),
            r.fingers@.len() == 0,
            r.next_finger_id == 0,
            r.oversample == oversample,
            r.despread_phase_offset == REFERENCE_FILTER_GROUP_DELAY * 2,
            !r.use_raw_pn_despreading,
    {
        Self::new_with_reference_filter_passes(oversample, 2)
    }

    /// A receiver whose PN reference went through `passes` matched-filter
    /// passes: the despread offset is their group delay (saturating).
    pub fn new_with_reference_filter_passes(oversample: usize, passes: usize) -> (r: Self)
        requires
            1 <= oversample <= 32768,
        ensures
            r.wf(),
            r.fingers@.len() == 0,
            r.next_finger_id == 0,
            r.oversample == oversample,
            r.despread_phase_offset == if REFERENCE_FILTER_GROUP_DELAY * passes > usize::MAX {
                usize::MAX as int
            } else {
                REFERENCE_FILTER_GROUP_DELAY * passes
            },
            !r.use_raw_pn_despreading,
    {
        let offset = match REFERENCE_FILTER_GROUP_DELAY.checked_mul(passes) {
            Some(v) => v,
            None => usize::MAX,
        };
        RakeReceiver {
            fingers: Vec::new(),
            next_finger_id: 0,
            oversample,
            despread_phase_offset: offset,
            use_raw_pn_despreading: false,
        }
    }

    pub fn with_despread_phase_offset_override(self, offset: usize) -> (r: Self)
        ensures
            r.despread_phase_offset == offset,
            r.fingers@ == self.fingers@ && r.next_finger_id == self.next_finger_id,
            r.oversample == self.oversample && r.use_raw_pn_despreading == self.use_raw_pn_despreading,
    {
        let mut r = self;
        r.despread_phase_offset = offset;
        r
    }

    pub fn with_raw_pn_despreading(self, enabled: bool) -> (r: Self)
        ensures
            r.use_raw_pn_despreading == enabled,
            r.fingers@ == self.fingers@ && r.next_finger_id == self.next_finger_id,
            r.oversample == self.oversample && r.despread_phase_offset == self.despread_phase_offset,
    {
        let mut r = self;
        r.use_raw_pn_despreading = enabled;
        r
    }

    /// The offset undone when despreading: the filter group delay against
    /// the raw PN reference, none against the filtered one.
    pub fn despread_offset(&self) -> (o: usize)
        ensures
            o == if self.use_raw_pn_despreading { self.despread_phase_offset } else { 0 },
    {
        if self.use_raw_pn_despreading { self.despread_phase_offset } else { 0 }
    }

    fn period_exec(&self) -> (p: usize)
        requires
            1 <= self.oversample <= 32768,
        ensures
            p == self.period(),
            p <= 32768 * 32768,
    {
        assert(32768 * self.oversample <= 32768 * 32768) by (nonlinear_arith)
            requires self.oversample <= 32768 {}
        32768 * self.oversample
    }

    /// Whether any finger is validated.
    pub fn has_validated(&self) -> (b: bool)
        ensures
            b == exists|i: int| 0 <= i < self.fingers@.len() && #[trigger] self.fingers@[i].validated,
    {
        let mut i: usize = 0;
        while i < self.fingers.len()
            invariant
                i <= self.fingers@.len(),
                forall|k: int| 0 <= k < i ==> !#[trigger] self.fingers@[k].validated,
            decreases self.fingers@.len() - i,
        {
            if self.fingers[i].validated {
                return true;
            }
            i += 1;
        }
        false
    }

    /// Advance every finger's phase by one block (used once fingers run
    /// without a fresh correlation).
    pub fn advance_phases(&mut self)
        requires
            old(self).wf(),
        ensures
            final(self).wf(),
            final(self).next_finger_id == old(self).next_finger_id,
            final(self).oversample == old(self).oversample,
            final(self).fingers@.len() == old(self).fingers@.len(),
            forall|i: int| 0 <= i < final(self).fingers@.len() ==> #[trigger] final(self).fingers@[i]
                == (FingerState {
                    phase: ((old(self).fingers@[i].phase + old(self).block_samples()) % old(self).period()) as usize,
                    ..old(self).fingers@[i]
                }),
    {
        let period = self.period_exec();
        let n = self.fingers.len();
        let mut i: usize = 0;
        while i < n
            invariant
                n == self.fingers@.len(),
                n == old(self).fingers@.len(),
                period == old(self).period(),
                self.oversample == old(self).oversample,
                self.next_finger_id == old(self).next_finger_id,
                old(self).wf(),
                i <= n,
                forall|k: int| 0 <= k < i ==> #[trigger] self.fingers@[k]
                    == (FingerState {
                        phase: ((old(self).fingers@[k].phase + old(self).block_samples()) % old(self).period()) as usize,
                        ..old(self).fingers@[k]
                    }),
                forall|k: int| i <= k < n ==> #[trigger] self.fingers@[k] == old(self).fingers@[k],
            decreases n - i,
        {
            let mut f = self.fingers[i];
            f.phase = (f.phase + period + 1) % period;
            self.fingers.set(i, f);
            i += 1;
        }
    }

    /// Track every finger with its measured local peak: `measured[i]` is the
    /// phase of finger `i`'s local peak, `strong[i]` whether its power
    /// cleared the tracking threshold. A strong peak moves the finger there
    /// and counts a hit; anything else coasts one block and counts a miss.
    pub fn track(&mut self, measured: &[Option<usize>], strong: &[bool])
        requires
            old(self).wf(),
            measured@.len() == old(self).fingers@.len(),
            strong@.len() == old(self).fingers@.len(),
            forall|i: int| 0 <= i < measured@.len() ==> (#[trigger] measured@[i] matches Some(m) ==> m < old(self).period()),
            forall|i: int| 0 <= i < old(self).fingers@.len() ==>
                #[trigger] old(self).fingers@[i].hits < usize::MAX && old(self).fingers@[i].misses < usize::MAX,
        ensures
            final(self).wf(),
            final(self).next_finger_id == old(self).next_finger_id,
            final(self).oversample == old(self).oversample,
            final(self).fingers@.len() == old(self).fingers@.len(),
            forall|i: int| 0 <= i < final(self).fingers@.len() ==> {
                let f = old(self).fingers@[i];
                let expected = (f.phase + old(self).block_samples()) % old(self).period();
                #[trigger] final(self).fingers@[i] == if measured@[i] is Some && strong@[i] {
                    FingerState { phase: measured@[i].unwrap(), hits: (f.hits + 1) as usize, misses: dec(f.misses as int) as usize, ..f }
                } else {
                    FingerState { phase: expected as usize, hits: dec(f.hits as int) as usize, misses: (f.misses + 1) as usize, ..f }
                }
            },
    {
        let period = self.period_exec();
        let n = self.fingers.len();
        let mut i: usize = 0;
        while i < n
            invariant
                n == self.fingers@.len(),
                n == old(self).fingers@.len(),
                n == measured@.len(),
                n == strong@.len(),
                period == old(self).period(),
                self.oversample == old(self).oversample,
                self.next_finger_id == old(self).next_finger_id,
                old(self).wf(),
                forall|k: int| 0 <= k < measured@.len() ==> (#[trigger] measured@[k] matches Some(m) ==> m < old(self).period()),
                forall|k: int| 0 <= k < n ==>
                    #[trigger] old(self).fingers@[k].hits < usize::MAX && old(self).fingers@[k].misses < usize::MAX,
                i <= n,
                forall|k: int| 0 <= k < i ==> {
                    let f = old(self).fingers@[k];
                    let expected = (f.phase + old(self).block_samples()) % old(self).period();
                    #[trigger] self.fingers@[k] == if measured@[k] is Some && strong@[k] {
                        FingerState { phase: measured@[k].unwrap(), hits: (f.hits + 1) as usize, misses: dec(f.misses as int) as usize, ..f }
                    } else {
                        FingerState { phase: expected as usize, hits: dec(f.hits as int) as usize, misses: (f.misses + 1) as usize, ..f }
                    }
                },
                forall|k: int| i <= k < n ==> #[trigger] self.fingers@[k] == old(self).fingers@[k],
            decreases n - i,
        {
            let mut f = self.fingers[i];
            let expected = (f.phase + period + 1) % period;
            let hit = strong[i] && measured[i].is_some();
            if hit {
                f.phase = measured[i].unwrap();
                f.hits = f.hits + 1;
                if f.misses > 0 {
                    f.misses = f.misses - 1;
                }
            } else {
                f.phase = expected;
                f.misses = f.misses + 1;
                if f.hits > 0 {
                    f.hits = f.hits - 1;
                }
            }
            self.fingers.set(i, f);
            i += 1;
        }
    }

    /// Whether `phase` lies within the peak separation of some finger.
    pub fn too_close(&self, phase: usize) -> (b: bool)
        requires
            self.wf(),
            phase < self.period(),
        ensures
            b == exists|i: int| 0 <= i < self.fingers@.len()
                && #[trigger] spec_phase_distance(self.fingers@[i].phase as int, phase as int, self.period())
                    < MIN_PEAK_SEPARATION_CHIPS * self.oversample,
    {
        let period = self.period_exec();
        let min_sep = MIN_PEAK_SEPARATION_CHIPS * self.oversample;
        let mut i: usize = 0;
        while i < self.fingers.len()
            invariant
                self.wf(),
                period == self.period(),
                min_sep == MIN_PEAK_SEPARATION_CHIPS * self.oversample,
                phase < period,
                i <= self.fingers@.len(),
                forall|k: int| 0 <= k < i ==>
                    !(#[trigger] spec_phase_distance(self.fingers@[k].phase as int, phase as int, period as int) < min_sep),
            decreases self.fingers@.len() - i,
        {
            if phase_distance(self.fingers[i].phase, phase, period) < min_sep {
                return true;
            }
            i += 1;
        }
        false
    }

    /// Add a finger at `phase` with one hit, unvalidated and not started.
    fn spawn_finger(&mut self, phase: usize)
        requires
            old(self).wf(),
            old(self).fingers@.len() < MAX_FINGERS,
            old(self).next_finger_id < usize::MAX,
            phase < old(self).period(),
        ensures
            final(self).wf(),
            final(self).next_finger_id == old(self).next_finger_id + 1,
            final(self).oversample == old(self).oversample,
            final(self).fingers@ == old(self).fingers@.push(FingerState {
                id: old(self).next_finger_id,
                phase,
                hits: 1,
                misses: 0,
                validated: false,
                chip_start: 0,
                started: false,
            }),
    {
        let id = self.next_finger_id;
        self.next_finger_id = id + 1;
        self.fingers.push(FingerState { id, phase, hits: 1, misses: 0, validated: false, chip_start: 0, started: false });
    }

    /// Spawn fingers for the correlation peaks (strongest first) that are
    /// not near an existing finger, while there is room and no finger is
    /// validated.
    pub fn spawn_for_peaks(&mut self, peaks: &[usize])
        requires
            old(self).wf(),
            forall|i: int| 0 <= i < peaks@.len() ==> #[trigger] peaks@[i] < old(self).period(),
            old(self).next_finger_id + peaks@.len() <= usize::MAX,
        ensures
            final(self).wf(),
            final(self).oversample == old(self).oversample,
            if exists|i: int| 0 <= i < old(self).fingers@.len() && #[trigger] old(self).fingers@[i].validated {
                &&& final(self).fingers@ == old(self).fingers@
                &&& final(self).next_finger_id == old(self).next_finger_id
            } else {
                (final(self).fingers@, final(self).next_finger_id as int) == spawned(old(self).fingers@,
                    old(self).next_finger_id as int, peaks@, peaks@.len() as int, old(self).oversample as int)
            },
    {
        if self.has_validated() {
            return;
        }
        let mut j: usize = 0;
        while j < peaks.len()
            invariant
                self.wf(),
                self.oversample == old(self).oversample,
                old(self).wf(),
                forall|i: int| 0 <= i < peaks@.len() ==> #[trigger] peaks@[i] < old(self).period(),
                self.next_finger_id + (peaks@.len() - j) <= usize::MAX,
                j <= peaks@.len(),
                (self.fingers@, self.next_finger_id as int) == spawned(old(self).fingers@,
                    old(self).next_finger_id as int, peaks@, j as int, old(self).oversample as int),
            decreases peaks@.len() - j,
        {
            let p = peaks[j];
            if !self.too_close(p) && self.fingers.len() < MAX_FINGERS {
                self.spawn_finger(p);
            }
            j += 1;
        }
    }

    /// PN phase at which finger `i` despreads, undoing the reference
    /// filter's group delay `offset`.
    pub fn despread_phase(&self, i: usize, offset: usize) -> (p: usize)
        requires
            self.wf(),
            i < self.fingers@.len(),
        ensures
            p == (self.fingers@[i as int].phase + self.period() - (offset as int) % self.period()) % self.period(),
    {
        let period = self.period_exec();
        (self.fingers[i].phase + period - offset % period) % period
    }

    /// Latch finger `i`'s output start at its first despread block.
    pub fn start_output(&mut self, i: usize, block_chip_start: usize)
        requires
            old(self).wf(),
            i < old(self).fingers@.len(),
        ensures
            final(self).wf(),
            final(self).next_finger_id == old(self).next_finger_id,
            final(self).oversample == old(self).oversample,
            final(self).fingers@ == old(self).fingers@.update(i as int, if old(self).fingers@[i as int].started {
                old(self).fingers@[i as int]
            } else {
                FingerState { chip_start: block_chip_start, started: true, ..old(self).fingers@[i as int] }
            }),
    {
        let mut f = self.fingers[i];
        if !f.started {
            f.chip_start = block_chip_start;
            f.started = true;
        }
        self.fingers.set(i, f);
    }

    /// Start of finger `i`'s next 64-chip output block, which moves on.
    pub fn next_block_start(&mut self, i: usize) -> (start: usize)
        requires
            old(self).wf(),
            i < old(self).fingers@.len(),
            old(self).fingers@[i as int].chip_start + FINGER_BLOCK_CHIPS * old(self).oversample <= usize::MAX,
        ensures
            final(self).wf(),
            start == old(self).fingers@[i as int].chip_start,
            final(self).next_finger_id == old(self).next_finger_id,
            final(self).oversample == old(self).oversample,
            final(self).fingers@ == old(self).fingers@.update(i as int, FingerState {
                chip_start: (start + FINGER_BLOCK_CHIPS * old(self).oversample) as usize,
                ..old(self).fingers@[i as int]
            }),
    {
        let mut f = self.fingers[i];
        let start = f.chip_start;
        f.chip_start = start + FINGER_BLOCK_CHIPS * self.oversample;
        self.fingers.set(i, f);
        start
    }

    /// Finger `i`'s chain produced a validating event.
    pub fn mark_validated(&mut self, i: usize)
        requires
            old(self).wf(),
            i < old(self).fingers@.len(),
        ensures
            final(self).wf(),
            final(self).next_finger_id == old(self).next_finger_id,
            final(self).oversample == old(self).oversample,
            final(self).fingers@ == old(self).fingers@.update(i as int, FingerState { validated: true, ..old(self).fingers@[i as int] }),
    {
        let mut f = self.fingers[i];
        f.validated = true;
        self.fingers.set(i, f);
    }

    /// Id of the finger whose output is forwarded: the validated finger with
    /// the most hits (the last of equals); `None` forwards every finger.
    pub fn winner(&self) -> (w: Option<usize>)
        ensures
            w == match winner_upto(self.fingers@, self.fingers@.len() as int) {
                Some(k) => Some(self.fingers@[k].id),
                None => None,
            },
    {
        let mut best: Option<usize> = None;
        let mut i: usize = 0;
        while i < self.fingers.len()
            invariant
                i <= self.fingers@.len(),
                match winner_upto(self.fingers@, i as int) {
                    Some(k) => best == Some(k as usize),
                    None => best.is_none(),
                },
                best matches Some(b) ==> b < i,
            decreases self.fingers@.len() - i,
        {
            let f = self.fingers[i];
            proof { lemma_winner_upto(self.fingers@, i as int); }
            if f.validated {
                let take = if best.is_none() { true } else { f.hits >= self.fingers[best.unwrap()].hits };
                if take {
                    best = Some(i);
                }
            }
            i += 1;
        }
        proof { lemma_winner_upto(self.fingers@, self.fingers@.len() as int); }
        match best {
            Some(b) => Some(self.fingers[b].id),
            None => None,
        }
    }

    /// Take validation from every validated finger but the winner `wid`.
    pub fn demote_others(&mut self, wid: usize)
        requires
            old(self).wf(),
        ensures
            final(self).wf(),
            final(self).next_finger_id == old(self).next_finger_id,
            final(self).oversample == old(self).oversample,
            final(self).fingers@ == demoted(old(self).fingers@, wid),
    {
        let n = self.fingers.len();
        let mut i: usize = 0;
        while i < n
            invariant
                n == self.fingers@.len(),
                n == old(self).fingers@.len(),
                old(self).wf(),
                self.oversample == old(self).oversample,
                self.next_finger_id == old(self).next_finger_id,
                i <= n,
                forall|k: int| 0 <= k < i ==> #[trigger] self.fingers@[k] == demoted(old(self).fingers@, wid)[k],
                forall|k: int| i <= k < n ==> #[trigger] self.fingers@[k] == old(self).fingers@[k],
            decreases n - i,
        {
            let mut f = self.fingers[i];
            if f.validated && f.id != wid {
                f.validated = false;
            }
            self.fingers.set(i, f);
            i += 1;
        }
        assert(self.fingers@ =~= demoted(old(self).fingers@, wid));
    }

    /// Drop the fingers that do not survive (see `survives`).
    pub fn prune(&mut self, had_validated: bool)
        requires
            old(self).wf(),
        ensures
            final(self).wf(),
            final(self).next_finger_id == old(self).next_finger_id,
            final(self).oversample == old(self).oversample,
            final(self).fingers@ == pruned(old(self).fingers@, had_validated),
            final(self).despread_phase_offset == old(self).despread_phase_offset,
            final(self).use_raw_pn_despreading == old(self).use_raw_pn_despreading,
    {
        let ghost s = self.fingers@;
        let mut kept: Vec<FingerState> = Vec::new();
        let mut i: usize = 0;
        while i < self.fingers.len()
            invariant
                s == self.fingers@,
                i <= s.len(),
                kept@ == pruned(s.subrange(0, i as int), had_validated),
            decreases s.len() - i,
        {
            let f = self.fingers[i];
            assert(s.subrange(0, i as int + 1).drop_last() =~= s.subrange(0, i as int));
            if f.validated || (!had_validated && f.misses <= FINGER_DEAD_MISSES) {
                kept.push(f);
            }
            i += 1;
        }
        assert(s.subrange(0, s.len() as int) =~= s);
        proof {
            lemma_pruned_subset(s, had_validated);
            lemma_pruned_ordered(s, had_validated, self.next_finger_id as int);
            assert forall|k: int| 0 <= k < kept@.len() implies #[trigger] kept@[k].phase < old(self).period() by {
                assert(s.contains(kept@[k]));
            }
        }
        self.fingers = kept;
    }

    /// End of a block: pick the forwarded finger, demote other validated
    /// fingers when `demote`, and prune. Returns the forwarded finger's id.
    pub fn select_and_prune(&mut self, had_validated: bool, demote: bool) -> (w: Option<usize>)
        requires
            old(self).wf(),
        ensures
            final(self).wf(),
            final(self).next_finger_id == old(self).next_finger_id,
            final(self).oversample == old(self).oversample,
            w == match winner_upto(old(self).fingers@, old(self).fingers@.len() as int) {
                Some(k) => Some(old(self).fingers@[k].id),
                None => None,
            },
            final(self).fingers@ == pruned(
                if demote && w.is_some() { demoted(old(self).fingers@, w.unwrap()) } else { old(self).fingers@ },
                had_validated),
    {
        let w = self.winner();
        if demote {
            if let Some(wid) = w {
                self.demote_others(wid);
            }
        }
        self.prune(had_validated);
        w
    }
}

/// The fingers after a window of the single-user rake: the winner alone
/// once one is validated, else those within the miss limit.
pub open spec fn window_end(s: Seq<FingerState>) -> Seq<FingerState> {
    match winner_upto(s, s.len() as int) {
        Some(k) => seq![s[k]],
        None => pruned(s, false),
    }
}

impl RakeReceiver {
    /// End of a window of the single-user rake: once a finger is validated
    /// the winner (the validated finger with the most hits, the last of
    /// equals) is chosen and every other finger is pruned; until then the
    /// fingers whose net misses passed the limit are pruned. Returns the
    /// winner's id, whose output alone is forwarded.
    pub fn finish_window(&mut self) -> (w: Option<usize>)
        requires
            old(self).wf(),
        ensures
            final(self).wf(),
            final(self).next_finger_id == old(self).next_finger_id,
            final(self).oversample == old(self).oversample,
            final(self).despread_phase_offset == old(self).despread_phase_offset,
            final(self).use_raw_pn_despreading == old(self).use_raw_pn_despreading,
            final(self).fingers@ == window_end(old(self).fingers@),
            w == match winner_upto(old(self).fingers@, old(self).fingers@.len() as int) {
                Some(k) => Some(old(self).fingers@[k].id),
                None => None,
            },
    {
        let mut best: Option<usize> = None;
        let mut i: usize = 0;
        while i < self.fingers.len()
            invariant
                i <= self.fingers@.len(),
                match winner_upto(self.fingers@, i as int) {
                    Some(k) => best == Some(k as usize),
                    None => best.is_none(),
                },
                best matches Some(b) ==> b < i,
                *self == *old(self),
            decreases self.fingers@.len() - i,
        {
            let f = self.fingers[i];
            proof { lemma_winner_upto(self.fingers@, i as int); }
            if f.validated {
                let take = if best.is_none() { true } else { f.hits >= self.fingers[best.unwrap()].hits };
                if take {
                    best = Some(i);
                }
            }
            i += 1;
        }
        proof { lemma_winner_upto(self.fingers@, self.fingers@.len() as int); }
        match best {
            Some(b) => {
                let f = self.fingers[b];
                let mut only: Vec<FingerState> = Vec::new();
                only.push(f);
                proof {
                    assert(only@ =~= seq![old(self).fingers@[b as int]]);
                }
                self.fingers = only;
                Some(f.id)
            },
            None => {
                self.prune(false);
                None
            },
        }
    }
}

/// Tags of a finger chain's output block that validate the finger.
#[derive(Debug, Clone, Copy, PartialEq, Eq, Structural)]
pub struct FingerOutputTags {
    pub ms_sync_event: Option<i64>,
    pub deinterleaver_lock_crc_valid: Option<i64>,
    pub access_crc_valid: Option<i64>,
    pub access_preamble_detected: Option<i64>,
}

/// A finger is validated by a block that reports a sync event, a CRC-valid
/// deinterleaver lock, a valid access CRC or a detected access preamble.
pub fn validates_finger(t: FingerOutputTags) -> (b: bool)
    ensures
        b == (t.ms_sync_event == Some(1i64)
            || (t.deinterleaver_lock_crc_valid matches Some(v) && v > 0)
            || (t.access_crc_valid matches Some(v) && v > 0)
            || (t.access_preamble_detected matches Some(v) && v > 0)),
{
    let pos = |o: Option<i64>| -> (b: bool)
        ensures b == (o matches Some(v) && v > 0)
    {
        match o { Some(v) => v > 0, None => false }
    };
    t.ms_sync_event == Some(1i64)
        || pos(t.deinterleaver_lock_crc_valid)
        || pos(t.access_crc_valid)
        || pos(t.access_preamble_detected)
}

/// Law: the rake ends a window with a validated finger holding that
/// finger alone, the winner; without one it keeps only fingers still
/// within the miss limit.
pub proof fn lemma_winner_alone(s: Seq<FingerState>)
    ensures
        (exists|i: int| 0 <= i < s.len() && #[trigger] s[i].validated) ==> {
            &&& window_end(s).len() == 1
            &&& window_end(s)[0].validated
            &&& s.contains(window_end(s)[0])
        },
        (forall|i: int| 0 <= i < s.len() ==> !#[trigger] s[i].validated) ==>
            forall|k: int| 0 <= k < window_end(s).len() ==>
                s.contains(#[trigger] window_end(s)[k]) && window_end(s)[k].misses <= FINGER_DEAD_MISSES,
{
    lemma_winner_upto(s, s.len() as int);
    lemma_pruned_subset(s, false);
    match winner_upto(s, s.len() as int) {
        Some(k) => {
            assert(s[k] == window_end(s)[0]);
        },
        None => {},
    }
}

/// Input sample index at which the block just consumed began: the stream's
/// origin plus the samples before the block.
pub fn block_chip_start(input_origin: Option<usize>, sample: usize, block_samples: usize) -> (c: usize)
    ensures
        c == ({
            let o = match input_origin { Some(v) => v as int, None => 0 };
            let before = if sample >= block_samples { sample - block_samples } else { 0 };
            if o + before > usize::MAX { usize::MAX as int } else { o + before }
        }),
{
    let o = match input_origin { Some(v) => v, None => 0 };
    o.saturating_add(sample.saturating_sub(block_samples))
}

/// Absolute sample and chip of a finger block starting at `chip_start`, when
/// the stream's absolute origin is known.
pub fn finger_absolute_start(abs_origin: Option<usize>, chip_start: usize, input_origin: usize, oversample: usize)
    -> (r: Option<(usize, usize)>)
    requires
        oversample >= 1,
    ensures
        r == match abs_origin {
            Some(a) => {
                let rel = if chip_start >= input_origin { chip_start - input_origin } else { 0 };
                let s = if a + rel > usize::MAX { usize::MAX as int } else { a + rel };
                Some((s as usize, (s / oversample as int) as usize))
            },
            None => None,
        },
{
    match abs_origin {
        Some(a) => {
            let s = a.saturating_add(chip_start.saturating_sub(input_origin));
            Some((s, s / oversample))
        },
        None => None,
    }
}

/// After a block's selection with demotion, the only validated finger left
/// is the forwarded one.
pub proof fn lemma_single_validated_after_selection(s: Seq<FingerState>, next: int, had_validated: bool, wid: usize)
    requires
        ids_ordered(s, next),
    ensures
        forall|k: int| 0 <= k < pruned(demoted(s, wid), had_validated).len()
            && #[trigger] pruned(demoted(s, wid), had_validated)[k].validated
            ==> pruned(demoted(s, wid), had_validated)[k].id == wid,
        forall|a: int, b: int| 0 <= a < b < pruned(demoted(s, wid), had_validated).len()
            ==> pruned(demoted(s, wid), had_validated)[a].id != pruned(demoted(s, wid), had_validated)[b].id,
{
    let d = demoted(s, wid);
    assert(ids_ordered(d, next));
    lemma_pruned_subset(d, had_validated);
    lemma_pruned_ordered(d, had_validated, next);
    let p = pruned(d, had_validated);
    assert forall|k: int| 0 <= k < p.len() && #[trigger] p[k].validated implies p[k].id == wid by {
        assert(d.contains(p[k]));
        let w = choose|w: int| 0 <= w < d.len() && d[w] == p[k];
    }
}

} // verus!
