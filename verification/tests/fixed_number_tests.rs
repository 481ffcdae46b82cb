use ledger::fixed_number::FixedNumber;

#[test]
fn new_is_zero_with_four_decimals() {
    let zero = FixedNumber::new();
    assert_eq!(zero.value, 0);
    assert_eq!(zero.decimals, 4);
    assert_eq!(zero.get_displayed_value(), "0.0000");
}

#[test]
fn add_and_subtract_work_on_the_scaled_values() {
    let a = FixedNumber::from_scaled(15000);
    let b = FixedNumber::from_scaled(2500);
    assert_eq!(FixedNumber::add(&a, &b).value, 17500);
    assert_eq!(FixedNumber::subtract(&a, &b).value, 12500);
    assert_eq!(FixedNumber::subtract(&b, &a).value, -12500);
}

#[test]
fn gt_compares_against_a_scaled_value() {
    assert!(FixedNumber::from_scaled(1).gt(0));
    assert!(!FixedNumber::from_scaled(0).gt(0));
    assert!(!FixedNumber::from_scaled(-1).gt(0));
}

#[test]
fn gt_eq_holds_on_equal_amounts() {
    let a = FixedNumber::from_scaled(20000);
    let b = FixedNumber::from_scaled(20000);
    assert!(a.gt_eq(&b));
    assert!(FixedNumber::from_scaled(20001).gt_eq(&b));
    assert!(!FixedNumber::from_scaled(19999).gt_eq(&b));
}

#[test]
fn display_shows_exactly_four_fraction_digits() {
    assert_eq!(FixedNumber::from_scaled(20000).get_displayed_value(), "2.0000");
    assert_eq!(FixedNumber::from_scaled(123456).get_displayed_value(), "12.3456");
    assert_eq!(FixedNumber::from_scaled(5).get_displayed_value(), "0.0005");
    assert_eq!(FixedNumber::from_scaled(250).get_displayed_value(), "0.0250");
    assert_eq!(FixedNumber::from_scaled(1000).get_displayed_value(), "0.1000");
}

#[test]
fn display_of_negative_amounts_keeps_the_sign() {
    assert_eq!(FixedNumber::from_scaled(-20000).get_displayed_value(), "-2.0000");
    assert_eq!(FixedNumber::from_scaled(-5).get_displayed_value(), "-0.0005");
    assert_eq!(FixedNumber::from_scaled(-123456).get_displayed_value(), "-12.3456");
}

#[test]
fn display_round_trips_decimals_with_at_most_four_fraction_digits() {
    let cases: Vec<(f64, &str)> = vec![
        (2.0, "2.0000"),
        (1.5, "1.5000"),
        (0.0001, "0.0001"),
        (12.25, "12.2500"),
        (3.75, "3.7500"),
        (0.0, "0.0000"),
    ];
    for (x, expected) in cases {
        let scaled = (x * 10.0_f64.powi(4)).floor() as i64;
        assert_eq!(FixedNumber::from_scaled(scaled).get_displayed_value(), expected);
    }
}

#[test]
fn truncation_toward_negative_infinity_shows_in_negative_inputs() {
    let scaled = (-2.00005_f64 * 10.0_f64.powi(4)).floor() as i64;
    assert_eq!(scaled, -20001);
    assert_eq!(FixedNumber::from_scaled(scaled).get_displayed_value(), "-2.0001");
}
