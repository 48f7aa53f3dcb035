//! Peak-sample decimation of an oversampled stream: one sample per chip,
//! always at the same phase within the chip.
use vstd::prelude::*;

verus! {

/// Keeps one sample per chip period of `rate` samples.
pub struct PeakSampleDecimator {
    pub rate: usize,
}

/// Sample `i` of the decimated stream.
pub open spec fn decimated_at<T>(samples: Seq<T>, rate: int, offset: int, i: int) -> T {
    samples[i * rate + offset]
}

impl PeakSampleDecimator {
    /// A decimator by `rate`; a rate of zero is taken as one.
    pub fn new(rate: usize) -> (d: Self)
        ensures
            d.rate == if rate == 0 { 1 } else { rate },
            d.rate >= 1,
    {
        PeakSampleDecimator { rate: if rate == 0 { 1 } else { rate } }
    }

    /// Whether blocks pass through unchanged.
    pub fn is_passthrough(&self) -> (b: bool)
        ensures
            b == (self.rate <= 1),
    {
        self.rate <= 1
    }

    /// Chip index of the first output sample for a block starting at sample
    /// `chip_start`.
    pub fn output_chip_start(&self, chip_start: usize) -> (c: usize)
        requires
            self.rate >= 1,
        ensures
            c == chip_start / self.rate,
    {
        chip_start / self.rate
    }

    /// The sample at phase `offset` of every chip period, in order.
    pub fn decimate<T: Copy>(&self, samples: &[T], offset: usize) -> (out: Vec<T>)
        requires
            self.rate >= 1,
            offset < self.rate,
            samples@.len() as int % (self.rate as int) == 0,
        ensures
            out@.len() == samples@.len() as int / (self.rate as int),
            forall|i: int| 0 <= i < out@.len() ==>
                #[trigger] out@[i] == decimated_at(samples@, self.rate as int, offset as int, i),
    {
        let rate = self.rate;
        let len = samples.len();
        let n = len / rate;
        let mut out: Vec<T> = Vec::new();
        let mut i: usize = 0;
        while i < n
            invariant
                rate == self.rate,
                rate >= 1,
                offset < rate,
                len == samples@.len(),
                n == len / rate,
                i <= n,
                out@.len() == i,
                forall|k: int| 0 <= k < i ==>
                    #[trigger] out@[k] == decimated_at(samples@, rate as int, offset as int, k),
            decreases n - i,
        {
            assert(i * rate + offset < len) by (nonlinear_arith)
                requires
                    i < n,
                    n == len / rate,
                    offset < rate,
                    rate >= 1,
            {
                assert(n * rate <= len);
                assert((i + 1) * rate <= n * rate);
            }
            let idx = i * rate + offset;
            out.push(samples[idx]);
            i += 1;
        }
        out
    }
}

} // verus!
