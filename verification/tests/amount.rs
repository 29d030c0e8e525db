use tx_processor::amount::{Amount, MAX_UNITS};

fn parts(a: &Amount) -> (i128, u32, bool) {
    (a.mantissa(), a.scale(), a.is_sign_negative())
}

#[test]
fn parse_keeps_four_decimal_places() {
    assert_eq!(parts(&Amount::parse("10.00").unwrap()), (100000, 4, false));
    assert_eq!(parts(&Amount::parse("3").unwrap()), (30000, 4, false));
    assert_eq!(parts(&Amount::parse("0.0001").unwrap()), (1, 4, false));
}

#[test]
fn parse_drops_extra_decimal_places_toward_zero() {
    assert_eq!(parts(&Amount::parse("3.141592").unwrap()), (31415, 4, false));
    assert_eq!(parts(&Amount::parse("-1.98765").unwrap()), (-19876, 4, true));
    assert_eq!(parts(&Amount::parse("0.00009").unwrap()), (0, 4, false));
}

#[test]
fn negative_zero_keeps_its_sign() {
    assert_eq!(parts(&Amount::parse("-0.00001").unwrap()), (0, 4, true));
}

#[test]
fn parse_refuses_non_numbers() {
    assert!(Amount::parse("abc").is_none());
    assert!(Amount::parse("1.2.3").is_none());
    assert!(Amount::parse("").is_none());
}

#[test]
fn large_values_keep_a_smaller_scale() {
    // 10^25 cannot be kept with four decimal places in a 96-bit mantissa
    assert_eq!(
        parts(&Amount::parse("10000000000000000000000000").unwrap()),
        (10000000000000000000000000000, 3, false)
    );
    assert_eq!(parts(&Amount::parse("79228162514264337593543950335").unwrap()), (MAX_UNITS, 0, false));
}

#[test]
fn from_decimal_parts_truncates_and_scales() {
    assert_eq!(parts(&Amount::from_decimal_parts(1000, 2)), (100000, 4, false));
    assert_eq!(parts(&Amount::from_decimal_parts(123456789, 8)), (12345, 4, false));
    assert_eq!(parts(&Amount::from_decimal_parts(-123456789, 8)), (-12345, 4, true));
    assert_eq!(parts(&Amount::from_decimal_parts(0, 0)), (0, 4, false));
    assert_eq!(parts(&Amount::from_decimal_parts(MAX_UNITS, 4)), (MAX_UNITS, 4, false));
    assert_eq!(parts(&Amount::from_decimal_parts(MAX_UNITS, 0)), (MAX_UNITS, 0, false));
}

#[test]
fn zero_has_no_decimal_places() {
    let z = Amount::zero();
    assert_eq!(parts(&z), (0, 0, false));
    assert_eq!(parts(&z.at_four_places()), (0, 4, false));
}

#[test]
fn checked_arithmetic() {
    let a = Amount::from_decimal_parts(15, 1);
    let b = Amount::from_decimal_parts(25, 2);
    assert_eq!(parts(&a.checked_add(&b).unwrap()), (17500, 4, false));
    assert_eq!(parts(&a.checked_sub(&b).unwrap()), (12500, 4, false));
    assert_eq!(parts(&Amount::zero().checked_add(&Amount::zero()).unwrap()), (0, 0, false));
    assert_eq!(parts(&Amount::zero().checked_add(&b).unwrap()), (2500, 4, false));
    let max = Amount::from_decimal_parts(MAX_UNITS, 4);
    // too large for four places: the sum is kept at a smaller scale
    let big = max.checked_add(&b).unwrap();
    assert!(big.scale() < 4);
    assert!(max.less_than(&big));
    let top = Amount::from_decimal_parts(MAX_UNITS, 0);
    assert!(top.checked_add(&top).is_none());
    assert!(top.checked_sub(&top).unwrap().mantissa() == 0);
    assert!(a.less_than(&max));
    assert!(!max.less_than(&a));
    assert!(!a.less_than(&a));
}

#[test]
fn amounts_compare_by_value() {
    let z = Amount::zero();
    let z4 = Amount::parse("0.0000").unwrap();
    assert_eq!(z, z4);
    assert_eq!(Amount::parse("-0.00001").unwrap(), z);
    assert_eq!(Amount::parse("1.5").unwrap(), Amount::parse("1.50000").unwrap());
    assert_ne!(Amount::parse("1.5").unwrap(), Amount::parse("1.4999").unwrap());
}
