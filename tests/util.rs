use raytracer::text::to_decimal;
use raytracer::util::random_usize;

#[test]
fn test_random_usize_in_range() {
    for _ in 0..100 {
        let result = random_usize();
        assert!(result <= usize::MAX);
    }
}

#[test]
fn decimal_rendering() {
    assert_eq!(to_decimal(0), "0");
    assert_eq!(to_decimal(7), "7");
    assert_eq!(to_decimal(10), "10");
    assert_eq!(to_decimal(255), "255");
    assert_eq!(to_decimal(1234567890), "1234567890");
    assert_eq!(to_decimal(usize::MAX), usize::MAX.to_string());
}

#[test]
fn ids_are_handed_out_in_order() {
    let mut ids = raytracer::ids::IdSource::new();
    assert_eq!(ids.fresh(), Some(0));
    assert_eq!(ids.fresh(), Some(1));
    assert_eq!(ids.fresh(), Some(2));
}
