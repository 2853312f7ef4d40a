use ltrs::float::{is_greater, is_less, is_nan_bits, order_key_of};

#[test]
fn order_follows_ieee_values() {
    let values = [-f32::INFINITY, -7.5, -1.0, -0.0, 0.0, 1e-30, 1.0, 2.5, f32::MAX, f32::INFINITY];
    for (i, a) in values.iter().enumerate() {
        for (j, b) in values.iter().enumerate() {
            assert_eq!(is_greater(a.to_bits(), b.to_bits()), a > b, "{} > {}", i, j);
            assert_eq!(is_less(a.to_bits(), b.to_bits()), a < b, "{} < {}", i, j);
        }
    }
    assert_eq!(order_key_of((-0.0f32).to_bits()), order_key_of(0.0f32.to_bits()));
}

#[test]
fn nan_is_never_greater_or_less() {
    let nan = f32::NAN.to_bits();
    assert!(is_nan_bits(nan));
    assert!(!is_nan_bits(f32::INFINITY.to_bits()));
    assert!(!is_greater(nan, 0.0f32.to_bits()));
    assert!(!is_less(nan, 0.0f32.to_bits()));
    assert!(!is_greater(1.0f32.to_bits(), nan));
}
