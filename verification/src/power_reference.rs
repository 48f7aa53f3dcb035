//! Power levels referenced to the ADC input, in milli-decibels: the
//! receive matched filter's power gain is taken off the level measured at
//! its output.
use vstd::prelude::*;

verus! {

pub open spec fn clamp_i64(v: int) -> int {
    if v > i64::MAX { i64::MAX as int } else if v < i64::MIN { i64::MIN as int } else { v }
}

/// The level at the ADC input of a level measured after the matched
/// filter, both in mdB, given the filter's power gain in mdB (saturating).
pub fn adc_referenced_power_mdb(filter_output_mdb: i64, filter_gain_mdb: i64) -> (r: i64)
    ensures
        r == clamp_i64(filter_output_mdb - filter_gain_mdb),
{
    if filter_gain_mdb >= 0 {
        if filter_output_mdb < i64::MIN + filter_gain_mdb { i64::MIN } else { filter_output_mdb - filter_gain_mdb }
    } else {
        if filter_output_mdb > i64::MAX + filter_gain_mdb { i64::MAX } else { filter_output_mdb - filter_gain_mdb }
    }
}

} // verus!
