//! Short-code PN references: which code a search uses, and the half-chip
//! offset between the I and Q branches of an OQPSK reference.
use vstd::prelude::*;

verus! {

/// Which short PN code a reference is built from.
#[derive(Debug, Clone, Copy, PartialEq, Eq, Structural)]
pub enum ShortCodeReferenceKind {
    Cdma2000,
    HrpdAccessTerminal,
}

/// Index of the Q sample paired with I sample `k`: half a chip earlier,
/// held at the first sample.
pub open spec fn q_index(k: int, oversample: int) -> int {
    if k >= oversample / 2 { k - oversample / 2 } else { 0 }
}

/// Pair each I sample with the Q sample half a chip (`oversample / 2`
/// samples) before it.
pub fn oqpsk_pairs<T: Copy>(pn_i: &[T], pn_q: &[T], oversample: usize) -> (out: Vec<(T, T)>)
    requires
        oversample % 2 == 0,
        pn_i@.len() == pn_q@.len(),
    ensures
        out@.len() == pn_i@.len(),
        forall|k: int| 0 <= k < out@.len() ==>
            #[trigger] out@[k] == (pn_i@[k], pn_q@[q_index(k, oversample as int)]),
{
    let delay = oversample / 2;
    let mut out: Vec<(T, T)> = Vec::new();
    let mut k: usize = 0;
    while k < pn_i.len()
        invariant
            delay == oversample / 2,
            pn_i@.len() == pn_q@.len(),
            k <= pn_i@.len(),
            out@.len() == k,
            forall|j: int| 0 <= j < k ==>
                #[trigger] out@[j] == (pn_i@[j], pn_q@[q_index(j, oversample as int)]),
        decreases pn_i@.len() - k,
    {
        let qi = k.saturating_sub(delay);
        out.push((pn_i[k], pn_q[qi]));
        k += 1;
    }
    out
}

} // verus!
