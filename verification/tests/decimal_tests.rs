use ebinterface::decimal::{
    dec_add, dec_div, dec_eq_val, dec_lt, dec_mul, dec_rescale, dec_round, dec_sub,
    dec_to_string, CloneAndRescale, Decimal,
};
use ebinterface::numtext::{i64_to_string, u64_to_string};

#[test]
fn rounds_midpoint_away_from_zero() {
    assert_eq!(dec_round(&Decimal::new(5, 3), 2), Decimal::new(1, 2));
    assert_eq!(dec_round(&Decimal::new(-5, 3), 2), Decimal::new(-1, 2));
}

#[test]
fn rounding_is_idempotent_on_values() {
    let once = dec_round(&Decimal::new(123456, 5), 2);
    let twice = dec_round(&once, 2);
    assert_eq!(once, twice);
    assert_eq!(once, Decimal::new(123, 2));
}

#[test]
fn round_keeps_smaller_scales_unchanged() {
    assert_eq!(dec_round(&Decimal::new(5, 0), 2), Decimal::new(5, 0));
}

#[test]
fn clone_with_scale_rescales_without_mutation() {
    let v = Decimal::new(23399, 4);
    let rescaled = v.clone_with_scale(2);
    assert_eq!(rescaled, Decimal::new(234, 2));
    assert_eq!(v, Decimal::new(23399, 4));
    assert_eq!(Decimal::new(5, 0).clone_with_scale(2), Decimal::new(500, 2));
}

#[test]
fn addition_aligns_scales() {
    assert_eq!(
        dec_add(&Decimal::new(150, 2), &Decimal::new(5, 1)),
        Decimal::new(200, 2)
    );
    assert_eq!(
        dec_sub(&Decimal::new(500, 2), &Decimal::new(2, 0)),
        Decimal::new(300, 2)
    );
}

#[test]
fn multiplication_adds_scales() {
    assert_eq!(
        dec_mul(&Decimal::new(25, 1), &Decimal::new(4, 0)),
        Decimal::new(100, 1)
    );
    assert_eq!(
        dec_mul(&Decimal::from(100), &Decimal::new(1020, 2)),
        Decimal::new(102000, 2)
    );
}

#[test]
fn division_by_one_is_identity() {
    assert_eq!(
        dec_div(&Decimal::new(102000, 2), &Decimal::from(1)),
        Decimal::new(102000, 2)
    );
}

#[test]
fn division_produces_exact_quotients() {
    assert_eq!(dec_div(&Decimal::from(1), &Decimal::from(4)), Decimal::new(25, 2));
    assert_eq!(dec_div(&Decimal::from(20), &Decimal::from(100)), Decimal::new(20, 2));
}

#[test]
fn value_comparison_ignores_scale() {
    assert!(dec_eq_val(&Decimal::from(20), &Decimal::new(2000, 2)));
    assert!(dec_lt(&Decimal::new(199, 2), &Decimal::from(2)));
    assert!(!dec_lt(&Decimal::from(2), &Decimal::new(200, 2)));
}

#[test]
fn renders_plain_decimal_strings() {
    assert_eq!(dec_to_string(&Decimal::new(1020, 2)), "10.20");
    assert_eq!(dec_to_string(&Decimal::new(-5, 3)), "-0.005");
    assert_eq!(dec_to_string(&Decimal::from(20)), "20");
    assert_eq!(dec_to_string(&Decimal::new(0, 2)), "0.00");
    assert_eq!(dec_to_string(&Decimal::from(0)), "0");
}

#[test]
fn renders_integer_strings() {
    assert_eq!(u64_to_string(0), "0");
    assert_eq!(u64_to_string(12345), "12345");
    assert_eq!(i64_to_string(-12345), "-12345");
    assert_eq!(i64_to_string(7), "7");
}
