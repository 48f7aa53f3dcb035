//! Rate history of recently decoded frames and the search order it suggests.
use vstd::prelude::*;
use crate::rc1_rate::{Rc1TrafficRate, rate_index, rate_at, rate_slot};

verus! {

/// Frames remembered for rate adaptation.
pub const RATE_HISTORY_LEN: usize = 8;

/// Occurrences of `r` in `window`.
pub open spec fn occurrences(window: Seq<Rc1TrafficRate>, r: Rc1TrafficRate) -> nat
    decreases window.len(),
{
    if window.len() == 0 {
        0
    } else {
        occurrences(window.drop_last(), r) + if window.last() == r { 1nat } else { 0nat }
    }
}

/// In the adaptive order, rate `a` goes before rate `b` when it was seen more
/// often, ties keeping the default order.
pub open spec fn precedes(window: Seq<Rc1TrafficRate>, a: Rc1TrafficRate, b: Rc1TrafficRate) -> bool {
    occurrences(window, a) > occurrences(window, b)
        || (occurrences(window, a) == occurrences(window, b) && rate_index(a) < rate_index(b))
}

/// The adaptive order: the four rates, each going before the ones after it.
pub open spec fn is_adaptive_order(window: Seq<Rc1TrafficRate>, order: Seq<Rc1TrafficRate>) -> bool {
    &&& order.len() == 4
    &&& forall|i: int, j: int| 0 <= i < j < 4 ==> precedes(window, #[trigger] order[i], #[trigger] order[j])
}

/// Occurrences of each rate in `window`, by default search position.
pub open spec fn occurrence_counts(window: Seq<Rc1TrafficRate>) -> Seq<u32> {
    seq![
        occurrences(window, rate_at(0)) as u32,
        occurrences(window, rate_at(1)) as u32,
        occurrences(window, rate_at(2)) as u32,
        occurrences(window, rate_at(3)) as u32,
    ]
}

/// Number of rates that go before `rate_at(b)`.
pub open spec fn rank(c: Seq<u32>, b: int) -> int {
    (if c[0] > c[b] || (c[0] == c[b] && 0 < b) { 1int } else { 0int })
        + (if c[1] > c[b] || (c[1] == c[b] && 1 < b) { 1int } else { 0int })
        + (if c[2] > c[b] || (c[2] == c[b] && 2 < b) { 1int } else { 0int })
        + (if c[3] > c[b] || (c[3] == c[b] && 3 < b) { 1int } else { 0int })
}

fn rank_of(c: &[u32; 4], b: usize) -> (r: usize)
    requires
        b < 4,
    ensures
        r == rank(c@, b as int),
        r <= 3,
{
    let mut r: usize = 0;
    if c[0] > c[b] || (c[0] == c[b] && 0 < b) { r += 1; }
    if c[1] > c[b] || (c[1] == c[b] && 1 < b) { r += 1; }
    if c[2] > c[b] || (c[2] == c[b] && 2 < b) { r += 1; }
    if c[3] > c[b] || (c[3] == c[b] && 3 < b) { r += 1; }
    r
}

proof fn lemma_occurrences_push(w: Seq<Rc1TrafficRate>, x: Rc1TrafficRate, r: Rc1TrafficRate)
    ensures
        occurrences(w.push(x), r) == occurrences(w, r) + if x == r { 1nat } else { 0nat },
{
    assert(w.push(x).drop_last() =~= w);
}

/// Count the occurrences of each rate in `window`, indexed by search position.
fn count_rates(window: &[Rc1TrafficRate]) -> (c: [u32; 4])
    requires
        window@.len() <= RATE_HISTORY_LEN,
    ensures
        forall|k: int| 0 <= k < 4 ==> #[trigger] c[k] == occurrences(window@, rate_at(k)),
{
    let mut c: [u32; 4] = [0, 0, 0, 0];
    let mut i: usize = 0;
    while i < window.len()
        invariant
            i <= window@.len() <= RATE_HISTORY_LEN,
            forall|k: int| 0 <= k < 4 ==> #[trigger] c[k] == occurrences(window@.subrange(0, i as int), rate_at(k)),
            forall|k: int| 0 <= k < 4 ==> #[trigger] c[k] <= i,
        decreases window@.len() - i,
    {
        let slot = rate_slot(window[i]);
        proof {
            let w = window@.subrange(0, i as int);
            assert(window@.subrange(0, i + 1) =~= w.push(window@[i as int]));
            assert forall|k: int| 0 <= k < 4 implies occurrences(w.push(window@[i as int]), rate_at(k))
                == occurrences(w, rate_at(k)) + if window@[i as int] == rate_at(k) { 1nat } else { 0nat } by {
                lemma_occurrences_push(w, window@[i as int], rate_at(k));
            }
        }
        c[slot] = c[slot] + 1;
        i += 1;
    }
    assert(window@.subrange(0, window@.len() as int) =~= window@);
    c
}

/// The four rates ordered by how often each occurs in `window` (most frequent
/// first), ties kept in the default order full, half, quarter, eighth.
pub fn adaptive_order_from_window(window: &[Rc1TrafficRate]) -> (order: [Rc1TrafficRate; 4])
    requires
        window@.len() <= RATE_HISTORY_LEN,
    ensures
        is_adaptive_order(window@, order@),
        forall|b: int| 0 <= b < 4 ==> order[#[trigger] rank(occurrence_counts(window@), b)] == rate_at(b),
{
    let c = count_rates(window);
    assert(c@ =~= occurrence_counts(window@));
    let r0 = rank_of(&c, 0);
    let r1 = rank_of(&c, 1);
    let r2 = rank_of(&c, 2);
    let r3 = rank_of(&c, 3);
    let mut order = [Rc1TrafficRate::Full; 4];
    order[r0] = Rc1TrafficRate::Full;
    order[r1] = Rc1TrafficRate::Half;
    order[r2] = Rc1TrafficRate::Quarter;
    order[r3] = Rc1TrafficRate::Eighth;
    proof {
        let cs = c@;
        assert(r0 != r1 && r0 != r2 && r0 != r3 && r1 != r2 && r1 != r3 && r2 != r3);
        assert forall|i: int, j: int| 0 <= i < j < 4 implies precedes(window@, #[trigger] order@[i], #[trigger] order@[j]) by {
            assert(c[0] == occurrences(window@, rate_at(0)));
            assert(c[1] == occurrences(window@, rate_at(1)));
            assert(c[2] == occurrences(window@, rate_at(2)));
            assert(c[3] == occurrences(window@, rate_at(3)));
        }
    }
    order
}

/// Rate history of the boundary-anchored decoder: slot `count % 8` takes the
/// next rate, and `count` counts every recorded frame.
pub struct DecoderRateHistory {
    pub history: [Rc1TrafficRate; 8],
    pub count: usize,
    pub locked_rate: Option<Rc1TrafficRate>,
}

impl DecoderRateHistory {
    /// The slots in use: the first `min(count, 8)`.
    pub open spec fn window(&self) -> Seq<Rc1TrafficRate> {
        self.history@.subrange(0, if self.count < 8 { self.count as int } else { 8 })
    }

    pub fn new() -> (h: Self)
        ensures
            h.count == 0,
            h.locked_rate.is_none(),
            h.window() == Seq::<Rc1TrafficRate>::empty(),
            h.history@ == Seq::new(8, |i: int| Rc1TrafficRate::Full),
    {
        DecoderRateHistory { history: [Rc1TrafficRate::Full; 8], count: 0, locked_rate: None }
    }

    /// `next` is `self` after recording `rate`.
    pub open spec fn records(&self, next: &Self, rate: Rc1TrafficRate) -> bool {
        &&& next.history@ == self.history@.update(self.count as int % 8, rate)
        &&& next.count == if self.count < usize::MAX { self.count + 1 } else { self.count as int }
        &&& next.locked_rate == Some(rate)
    }

    /// Remember the rate of a decoded frame; it also becomes the locked rate.
    pub fn record_rate(&mut self, rate: Rc1TrafficRate)
        ensures
            old(self).records(final(self), rate),
    {
        let idx = self.count % RATE_HISTORY_LEN;
        self.history[idx] = rate;
        self.count = self.count.saturating_add(1);
        self.locked_rate = Some(rate);
    }

    /// Search order adapted to the remembered rates.
    pub fn adaptive_search_order(&self) -> (order: [Rc1TrafficRate; 4])
        ensures
            is_adaptive_order(self.window(), order@),
            forall|b: int| 0 <= b < 4 ==> order[#[trigger] rank(occurrence_counts(self.window()), b)] == rate_at(b),
    {
        let n = if self.count < RATE_HISTORY_LEN { self.count } else { RATE_HISTORY_LEN };
        let window = self.history.as_slice();
        let mut w: Vec<Rc1TrafficRate> = Vec::new();
        let mut i: usize = 0;
        while i < n
            invariant
                i <= n <= 8,
                n == if self.count < 8 { self.count as int } else { 8 },
                window@ == self.history@,
                w@ == self.history@.subrange(0, i as int),
            decreases n - i,
        {
            w.push(window[i]);
            i += 1;
        }
        adaptive_order_from_window(w.as_slice())
    }
}

/// Rate history of the brute-force frame aligner: a ring of eight slots with
/// a write position and a fill count that stops at eight.
pub struct AlignerRateHistory {
    pub history: [Rc1TrafficRate; 8],
    pub idx: usize,
    pub count: usize,
}

impl AlignerRateHistory {
    /// The write position stays below eight, and while the ring is filling
    /// it is the number of slots filled.
    pub open spec fn wf(&self) -> bool {
        &&& self.idx < 8
        &&& self.count <= 8
        &&& self.count < 8 ==> self.idx == self.count
    }

    pub open spec fn window(&self) -> Seq<Rc1TrafficRate> {
        self.history@.subrange(0, self.count as int)
    }

    pub fn new() -> (h: Self)
        ensures
            h.wf(),
            h.count == 0,
            h.idx == 0,
            h.window() == Seq::<Rc1TrafficRate>::empty(),
            h.history@ == Seq::new(8, |i: int| Rc1TrafficRate::Eighth),
    {
        AlignerRateHistory { history: [Rc1TrafficRate::Eighth; 8], idx: 0, count: 0 }
    }

    /// `next` is `self` after recording `rate`.
    pub open spec fn records(&self, next: &Self, rate: Rc1TrafficRate) -> bool {
        &&& next.history@ == self.history@.update(self.idx as int, rate)
        &&& next.idx == (self.idx + 1) % 8
        &&& next.count == if self.count < 8 { self.count + 1 } else { 8 }
    }

    /// Remember the rate of an emitted frame.
    pub fn record_rate(&mut self, rate: Rc1TrafficRate)
        requires
            old(self).wf(),
        ensures
            final(self).wf(),
            old(self).records(final(self), rate),
    {
        self.history[self.idx] = rate;
        self.idx = (self.idx + 1) % RATE_HISTORY_LEN;
        if self.count < RATE_HISTORY_LEN {
            self.count += 1;
        }
    }

    /// Search order adapted to the remembered rates.
    pub fn adaptive_search_order(&self) -> (order: [Rc1TrafficRate; 4])
        requires
            self.wf(),
        ensures
            is_adaptive_order(self.window(), order@),
            forall|b: int| 0 <= b < 4 ==> order[#[trigger] rank(occurrence_counts(self.window()), b)] == rate_at(b),
    {
        let n = self.count;
        let window = self.history.as_slice();
        let mut w: Vec<Rc1TrafficRate> = Vec::new();
        let mut i: usize = 0;
        while i < n
            invariant
                i <= n <= 8,
                n == self.count,
                window@ == self.history@,
                w@ == self.history@.subrange(0, i as int),
            decreases n - i,
        {
            w.push(window[i]);
            i += 1;
        }
        adaptive_order_from_window(w.as_slice())
    }
}

proof fn lemma_occurrences_update(w: Seq<Rc1TrafficRate>, i: int, x: Rc1TrafficRate, r: Rc1TrafficRate)
    requires
        0 <= i < w.len(),
    ensures
        occurrences(w.update(i, x), r) + (if w[i] == r { 1nat } else { 0nat })
            == occurrences(w, r) + (if x == r { 1nat } else { 0nat }),
    decreases w.len(),
{
    let u = w.update(i, x);
    if i == w.len() - 1 {
        assert(u.drop_last() =~= w.drop_last());
    } else {
        assert(u.drop_last() =~= w.drop_last().update(i, x));
        lemma_occurrences_update(w.drop_last(), i, x, r);
    }
}

proof fn lemma_occurrences_prefix_update(h: Seq<Rc1TrafficRate>, n: int, i: int, x: Rc1TrafficRate, r: Rc1TrafficRate)
    requires
        0 <= n <= h.len(),
        0 <= i < h.len(),
    ensures
        i >= n ==> occurrences(h.update(i, x).subrange(0, n), r) == occurrences(h.subrange(0, n), r),
        i < n ==> occurrences(h.update(i, x).subrange(0, n), r) + (if h[i] == r { 1nat } else { 0nat })
            == occurrences(h.subrange(0, n), r) + (if x == r { 1nat } else { 0nat }),
{
    if i >= n {
        assert(h.update(i, x).subrange(0, n) =~= h.subrange(0, n));
    } else {
        assert(h.update(i, x).subrange(0, n) =~= h.subrange(0, n).update(i, x));
        lemma_occurrences_update(h.subrange(0, n), i, x, r);
    }
}

/// Law: recording a rate in the decoder's history never moves that rate
/// behind a rate it preceded in the adaptive search order.
pub proof fn lemma_decoder_record_keeps_precedence(
    h: DecoderRateHistory,
    next: DecoderRateHistory,
    rate: Rc1TrafficRate,
    other: Rc1TrafficRate,
)
    requires
        h.records(&next, rate),
        precedes(h.window(), rate, other),
    ensures
        precedes(next.window(), rate, other),
{
    let i = h.count as int % 8;
    let hs = h.history@;
    if h.count < 8 {
        assert(next.window() =~= hs.update(i, rate).subrange(0, h.count + 1));
        assert(hs.update(i, rate).subrange(0, h.count + 1) =~= hs.update(i, rate).subrange(0, h.count as int).push(rate));
        assert(hs.update(i, rate).subrange(0, h.count as int) =~= hs.subrange(0, h.count as int));
        lemma_occurrences_push(hs.subrange(0, h.count as int), rate, rate);
        lemma_occurrences_push(hs.subrange(0, h.count as int), rate, other);
    } else {
        assert(next.window() =~= hs.update(i, rate).subrange(0, 8));
        lemma_occurrences_prefix_update(hs, 8, i, rate, rate);
        lemma_occurrences_prefix_update(hs, 8, i, rate, other);
    }
}

/// Law: recording a rate in the aligner's history never moves that rate
/// behind a rate it preceded in the adaptive search order.
pub proof fn lemma_aligner_record_keeps_precedence(
    h: AlignerRateHistory,
    next: AlignerRateHistory,
    rate: Rc1TrafficRate,
    other: Rc1TrafficRate,
)
    requires
        h.wf(),
        h.records(&next, rate),
        precedes(h.window(), rate, other),
    ensures
        precedes(next.window(), rate, other),
{
    let hs = h.history@;
    let i = h.idx as int;
    let u = hs.update(i, rate);
    if h.count < 8 {
        assert(next.window() =~= u.subrange(0, h.count + 1));
        assert(u.subrange(0, h.count + 1) =~= hs.subrange(0, h.count as int).push(rate));
        lemma_occurrences_push(hs.subrange(0, h.count as int), rate, rate);
        lemma_occurrences_push(hs.subrange(0, h.count as int), rate, other);
    } else {
        assert(next.window() =~= u.subrange(0, 8));
        assert(h.window() =~= hs.subrange(0, 8));
        lemma_occurrences_prefix_update(hs, 8, i, rate, rate);
        lemma_occurrences_prefix_update(hs, 8, i, rate, other);
    }
}

} // verus!
