use glitchup::error::ConfigError;
use glitchup::range::normalize;
use glitchup::range::Range;

#[test]
fn one_value_declares_an_exact_range() {
    let range = normalize(&[5]).unwrap();
    assert_eq!((range.lo(), range.hi()), (5, 6));
}

#[test]
fn two_values_declare_the_range_between_them() {
    let range = normalize(&[2, 5]).unwrap();
    assert_eq!((range.lo(), range.hi()), (2, 6));
}

#[test]
fn two_values_may_come_in_either_order() {
    let range = normalize(&[5, 2]).unwrap();
    assert_eq!((range.lo(), range.hi()), (2, 6));
    assert_eq!(normalize(&[5, 2]), normalize(&[2, 5]));
}

#[test]
fn no_value_declares_no_range() {
    assert_eq!(normalize(&[]), Err(ConfigError::InvalidRangeShape));
}

#[test]
fn three_values_declare_no_range() {
    assert_eq!(normalize(&[1, 2, 3]), Err(ConfigError::InvalidRangeShape));
}

#[test]
fn a_negative_value_bounds_no_range() {
    assert_eq!(normalize(&[-1]), Err(ConfigError::ValueOutOfRange));
    assert_eq!(normalize(&[3, -1]), Err(ConfigError::ValueOutOfRange));
}

#[test]
fn a_sample_lies_in_its_range() {
    let range = Range::new(10, 20).unwrap();
    for _ in 0..200 {
        let picked = range.sample();
        assert!(10 <= picked && picked < 20);
    }
    let exact = normalize(&[7]).unwrap();
    assert_eq!(exact.sample(), 7);
}

#[test]
fn an_empty_range_cannot_be_made() {
    assert!(Range::new(4, 4).is_none());
    assert!(Range::new(5, 4).is_none());
}

#[test]
fn samples_vary() {
    let range = Range::new(0, 1_000_000).unwrap();
    let first = range.sample();
    assert!((0..200).any(|_| range.sample() != first));
    let high = Range::new(500, 1_000_000).unwrap();
    assert!((0..200).any(|_| high.sample() != 500));
}
