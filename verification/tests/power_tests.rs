use cdma_bts::power_reference::adc_referenced_power_mdb;

fn mdb(linear_power: f64) -> i64 {
    (10.0 * linear_power.log10() * 1000.0).round() as i64
}

fn rx_matched_filter_power_gain_mdb() -> i64 {
    4_771
}

#[test]
fn adc_power_reference_removes_matched_filter_gain() {
    let filter_gain = 10f64.powf(rx_matched_filter_power_gain_mdb() as f64 / 10_000.0);

    assert_eq!(adc_referenced_power_mdb(mdb(filter_gain), rx_matched_filter_power_gain_mdb()), 0);
    assert!((adc_referenced_power_mdb(mdb(filter_gain * 0.5), rx_matched_filter_power_gain_mdb()) + 3010).abs() <= 1);
}

#[test]
fn adc_reference_saturates() {
    assert_eq!(adc_referenced_power_mdb(i64::MIN + 5, 10), i64::MIN);
    assert_eq!(adc_referenced_power_mdb(i64::MAX - 5, -10), i64::MAX);
    assert_eq!(adc_referenced_power_mdb(-20_000, -3_000), -17_000);
}
