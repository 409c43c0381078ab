use openbank::amount::amount_from_decimal_str;
use openbank::amount::MICRO_PER_UNIT;
use openbank::amount::to_micro_units;
use openbank::types::ContractUserBalance;

#[test]
fn whole_units_convert_by_the_documented_factor() {
    assert_eq!(MICRO_PER_UNIT, 1_000_000);
    assert_eq!(to_micro_units(100, 0), Some(100_000_000));
    assert_eq!(to_micro_units(0, 0), Some(0));
    assert_eq!(to_micro_units(0, 5), Some(5));
    assert_eq!(to_micro_units(2, 500_000), Some(2_500_000));
}

#[test]
fn fractional_part_finer_than_a_micro_unit_is_rejected() {
    assert_eq!(to_micro_units(1, 1_000_000), None);
    assert_eq!(to_micro_units(0, u32::MAX), None);
}

#[test]
fn conversion_is_exact_up_to_the_amount_limit() {
    // the largest representable amount, exactly
    assert_eq!(to_micro_units(9_223_372_036_854, 775_807), Some(i64::MAX));
    // one micro-unit more does not fit
    assert_eq!(to_micro_units(9_223_372_036_854, 775_808), None);
    assert_eq!(to_micro_units(u64::MAX, 0), None);
}

#[test]
fn decimal_literals_parse_exactly() {
    assert_eq!(amount_from_decimal_str("100.0"), Some(100_000_000));
    assert_eq!(amount_from_decimal_str("100"), Some(100_000_000));
    assert_eq!(amount_from_decimal_str("0"), Some(0));
    assert_eq!(amount_from_decimal_str("0.000001"), Some(1));
    assert_eq!(amount_from_decimal_str("2.5"), Some(2_500_000));
    assert_eq!(amount_from_decimal_str("19.990000"), Some(19_990_000));
    assert_eq!(amount_from_decimal_str("9223372036854.775807"), Some(i64::MAX));
}

#[test]
fn decimal_literals_finer_than_a_micro_unit_are_rejected() {
    // precision loss is rejected, not rounded away
    assert_eq!(amount_from_decimal_str("1.0000001"), None);
    assert_eq!(amount_from_decimal_str("0.00000009"), None);
}

#[test]
fn malformed_decimal_literals_are_rejected() {
    assert_eq!(amount_from_decimal_str(""), None);
    assert_eq!(amount_from_decimal_str("."), None);
    assert_eq!(amount_from_decimal_str(".5"), None);
    assert_eq!(amount_from_decimal_str("5."), None);
    assert_eq!(amount_from_decimal_str("1..2"), None);
    assert_eq!(amount_from_decimal_str("1.2.3"), None);
    assert_eq!(amount_from_decimal_str("-1"), None);
    assert_eq!(amount_from_decimal_str("1e6"), None);
    assert_eq!(amount_from_decimal_str(" 1"), None);
}

#[test]
fn decimal_literals_beyond_the_amount_limit_are_rejected() {
    assert_eq!(amount_from_decimal_str("9223372036854.775808"), None);
    assert_eq!(amount_from_decimal_str("99999999999999999999"), None);
}

#[test]
fn contract_balance_record_round_trips_by_value() {
    let record = ContractUserBalance {
        deposited: 700,
        withdrawn: 300,
        last_deposit: 1_700_000_000,
        last_withdrawal: 1_700_000_500,
        has_deposited: true,
    };
    let copy = record;
    assert_eq!(copy, record);
    assert_eq!(copy.deposited - copy.withdrawn, 400);
}
