use softraster::arith::trunc_quotient;

#[test]
fn quotient_is_rounded_toward_zero() {
    assert_eq!(trunc_quotient(7, 2), 3);
    assert_eq!(trunc_quotient(-7, 2), -3);
    assert_eq!(trunc_quotient(7, -2), -3);
    assert_eq!(trunc_quotient(-7, -2), 3);
    assert_eq!(trunc_quotient(1, 5), 0);
    assert_eq!(trunc_quotient(-1, 5), 0);
    assert_eq!(trunc_quotient(0, -5), 0);
}

#[test]
fn quotient_of_an_exact_multiple_is_the_other_factor() {
    assert_eq!(trunc_quotient(-42, 6), -7);
    assert_eq!(trunc_quotient(42, -6), -7);
    assert_eq!(trunc_quotient(i128::MAX, 1), i128::MAX);
    assert_eq!(trunc_quotient(i128::MAX, -1), -i128::MAX);
    assert_eq!(trunc_quotient(-i128::MAX, i128::MAX), -1);
}
