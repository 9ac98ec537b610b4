use resmon::align::add_whitespace;
use resmon::align::pad_field;
use resmon::rate::to_pretty_bits;
use resmon::rate::to_pretty_bytes;
use resmon::units::DataUnit;

#[test]
fn bytes_two_kib_over_one_second() {
    assert_eq!(to_pretty_bytes(2048, 1000), "2.00 KB");
}

#[test]
fn bytes_below_threshold_floors_to_zero() {
    assert_eq!(to_pretty_bytes(500, 1000), "0 KB");
    assert_eq!(to_pretty_bytes(1023, 1000), "0 KB");
    assert_eq!(to_pretty_bytes(1023, 77), "0 KB");
    assert_eq!(to_pretty_bytes(0, 1), "0 KB");
}

#[test]
fn bytes_one_gib_over_two_seconds() {
    assert_eq!(to_pretty_bytes(1_073_741_824, 2000), "0.50 GB");
}

#[test]
fn bytes_at_threshold_boundary() {
    assert_eq!(to_pretty_bytes(1024, 1000), "1.00 KB");
}

#[test]
fn bytes_magnitude_from_raw_count_not_rate() {
    // A whole mebibyte spread over 1024 seconds flows at one kibibyte per
    // second, but the tier is chosen from the raw count of the window.
    assert_eq!(to_pretty_bytes(1_048_576, 1_024_000), "0.00 MB");
}

#[test]
fn bits_below_threshold_floors_to_zero() {
    assert_eq!(to_pretty_bits(999, 1000), "0 Kb");
    assert_eq!(to_pretty_bits(500, 1), "0 Kb");
    assert_eq!(to_pretty_bits(0, 42), "0 Kb");
}

#[test]
fn bits_kilobit_and_megabit() {
    // 1000 bytes are 8000 bits: 8.00 kilobits per second over one second.
    assert_eq!(to_pretty_bits(1000, 1000), "8.00 Kb");
    // 125000 bytes are exactly one megabit.
    assert_eq!(to_pretty_bits(125_000, 1000), "1.00 Mb");
}

#[test]
fn formatting_is_deterministic() {
    let first = to_pretty_bytes(987_654_321, 3333);
    let second = to_pretty_bytes(987_654_321, 3333);
    assert_eq!(first, second);
    let first_bits = to_pretty_bits(987_654_321, 3333);
    let second_bits = to_pretty_bits(987_654_321, 3333);
    assert_eq!(first_bits, second_bits);
}

#[test]
fn unit_symbols_match_tier_table() {
    let table = ["B", "K", "M", "G", "T", "P", "E", "Z", "Y"];
    let mut m: u32 = 0;
    while m <= 8 {
        let unit = DataUnit::from_magnitude(m).unwrap();
        assert_eq!(unit.symbol(), table[m as usize]);
        m += 1;
    }
}

#[test]
fn unit_scaler_rejects_magnitudes_beyond_largest_tier() {
    assert!(DataUnit::from_magnitude(9).is_none());
    assert!(DataUnit::from_magnitude(100).is_none());
}

#[test]
fn alignment_pads_to_width_and_keeps_content() {
    let aligned = add_whitespace(String::from("abc"), 7);
    assert_eq!(aligned.len(), 7);
    assert_eq!(aligned, "    abc");
    assert!(aligned.ends_with("abc"));
}

#[test]
fn alignment_of_exact_width_is_identity() {
    assert_eq!(add_whitespace(String::from("1234567"), 7), "1234567");
}

#[test]
fn pad_field_keeps_oversized_content_whole() {
    assert_eq!(pad_field(String::from("too wide"), 3), "too wide");
    assert_eq!(pad_field(String::from("ok"), 4), "  ok");
}
