use galactic::fixed::{fx_add, fx_div, fx_mul, fx_sqrt, fx_sub, FX_MAX, FX_MIN};

#[test]
fn addition_saturates_at_the_range_ends() {
    assert_eq!(fx_add(FX_MAX, 1), FX_MAX);
    assert_eq!(fx_add(FX_MIN, -10), FX_MIN);
    assert_eq!(fx_add(2_500_000, -1_000_000), 1_500_000);
    assert_eq!(fx_sub(FX_MIN, 1), FX_MIN);
    assert_eq!(fx_sub(3_000_000, 5_000_000), -2_000_000);
}

#[test]
fn multiplication_scales_and_rounds_toward_zero() {
    assert_eq!(fx_mul(2_000_000, 3_000_000), 6_000_000);
    assert_eq!(fx_mul(-3_000_000, 2_500_000), -7_500_000);
    assert_eq!(fx_mul(1, 1), 0);
    assert_eq!(fx_mul(-1, 999_999), 0);
    assert_eq!(fx_mul(FX_MAX, FX_MAX), FX_MAX);
    assert_eq!(fx_mul(FX_MAX, -2_000_000), FX_MIN);
}

#[test]
fn division_scales_and_rounds_toward_zero() {
    assert_eq!(fx_div(1_000_000, 3_000_000), 333_333);
    assert_eq!(fx_div(-1_000_000, 3_000_000), -333_333);
    assert_eq!(fx_div(1_000_000, -3_000_000), -333_333);
    assert_eq!(fx_div(-1_000_000, -3_000_000), 333_333);
    assert_eq!(fx_div(FX_MAX, 1), FX_MAX);
}

#[test]
fn square_root_is_exact_on_squares_and_floors_otherwise() {
    assert_eq!(fx_sqrt(4_000_000), 2_000_000);
    assert_eq!(fx_sqrt(1_000_000), 1_000_000);
    assert_eq!(fx_sqrt(2_000_000), 1_414_213);
    assert_eq!(fx_sqrt(0), 0);
    assert_eq!(fx_sqrt(-5_000_000), 0);
}
