use html_to_pdf_service::scale::{default_scale, scale_in_range, DEFAULT_SCALE_BITS, MAX_SCALE_BITS, MIN_SCALE_BITS};

#[test]
fn patterns_of_the_named_scales() {
    assert_eq!(MIN_SCALE_BITS, 0.1f64.to_bits());
    assert_eq!(MAX_SCALE_BITS, 2.0f64.to_bits());
    assert_eq!(DEFAULT_SCALE_BITS, 1.0f64.to_bits());
    assert_eq!(f64::from_bits(default_scale()), 1.0);
}

#[test]
fn range_agrees_with_floating_point() {
    let mut values = vec![
        0.0, -0.0, 0.1, 2.0, 1.0, 0.8, 0.09, 2.01, -1.0, -0.1, -2.0, 1e-300, 1e300, 5e-324, f64::MAX, f64::MIN,
        f64::INFINITY, f64::NEG_INFINITY, f64::NAN, -f64::NAN, f64::MIN_POSITIVE,
    ];
    for end in [0.1f64, 2.0f64] {
        values.push(f64::from_bits(end.to_bits() + 1));
        values.push(f64::from_bits(end.to_bits() - 1));
    }
    for v in values {
        assert_eq!(scale_in_range(v.to_bits()), (0.1..=2.0).contains(&v), "{}", v);
    }
}
