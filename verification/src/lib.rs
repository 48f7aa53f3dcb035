use vstd::prelude::*;

pub mod rc1_rate;
pub mod fqi;
pub mod rate_order;
pub mod rate_decision;
pub mod rc1_decoder;
pub mod mobile_station;
pub mod peak_decimator;
pub mod pn_align;
pub mod pn_reference;
pub mod tracker;
pub mod rc1_aligner;
pub mod rake;
pub mod pn_lc;
pub mod epl_fer;
pub mod paging;
pub mod power_reference;
pub mod access;
pub mod delay_track;
pub mod finger_timing;

verus! {

/// Rust's truncating remainder of `x` by `m`.
pub open spec fn trunc_rem(x: int, m: int) -> int {
    if x >= 0 { x % m } else { -((-x) % m) }
}

pub proof fn lemma_trunc_rem_congruent(x: int, m: int)
    requires
        m > 0,
    ensures
        -m < trunc_rem(x, m) < m,
        (trunc_rem(x, m) + m) % m == x % m,
{
    if x >= 0 {
        assert((x % m + m) % m == x % m) by (nonlinear_arith) requires m > 0, x >= 0 {
            vstd::arithmetic::div_mod::lemma_mod_add_multiples_vanish(x % m, m);
            vstd::arithmetic::div_mod::lemma_mod_twice(x, m);
        }
    } else {
        let y = -x;
        let r = y % m;
        assert(0 <= r < m);
        vstd::arithmetic::div_mod::lemma_fundamental_div_mod(y, m);
        let q = y / m;
        assert(x == -(m * q) - r);
        assert((m - r) % m == x % m) by {
            vstd::arithmetic::div_mod::lemma_mod_multiples_vanish(-q - 1, m - r, m);
            assert(m * (-q - 1) + (m - r) == x) by (nonlinear_arith) requires x == -(m * q) - r {}
        }
    }
}

/// Euclidean remainder of `x` modulo `m` (always in `0..m` for `m > 0`).
pub fn modulo(x: i32, m: i32) -> (r: i32)
    requires
        m > 0,
        trunc_rem(x as int, m as int) + m <= i32::MAX,
    ensures
        r == x as int % m as int,
{
    proof { lemma_trunc_rem_congruent(x as int, m as int); }
    ((x % m) + m) % m
}

} // verus!
