use closet_cad::dec::{Dec, MAX_SCALE, MAX_UNITS};

fn round_of(mantissa: i128, scale: u32) -> (i128, u32) {
    let r = Dec::new(mantissa, scale).unwrap().round_unit();
    (r.mantissa(), r.scale())
}

#[test]
fn rounding_ties_away_from_zero() {
    assert_eq!(round_of(5, 1), (1, 0));
    assert_eq!(round_of(-5, 1), (-1, 0));
    assert_eq!(round_of(15, 1), (2, 0));
    assert_eq!(round_of(-15, 1), (-2, 0));
    assert_eq!(round_of(25, 1), (3, 0));
}

#[test]
fn rounding_goes_to_the_nearest_unit() {
    assert_eq!(round_of(44, 2), (0, 0));
    assert_eq!(round_of(56, 2), (1, 0));
    assert_eq!(round_of(-44, 2), (0, 0));
    assert_eq!(round_of(-56, 2), (-1, 0));
    assert_eq!(round_of(123456, 4), (12, 0));
    assert_eq!(round_of(9999999999999999999999999999, 28), (1, 0));
}

#[test]
fn rounding_keeps_whole_numbers() {
    assert_eq!(round_of(42, 0), (42, 0));
    assert_eq!(round_of(-7, 0), (-7, 0));
    assert_eq!(round_of(1300, 2), (13, 0));
}

#[test]
fn new_rejects_unrepresentable_pairs() {
    assert!(Dec::new(1, MAX_SCALE + 1).is_none());
    assert!(Dec::new(MAX_UNITS, 0).is_some());
    assert!(Dec::new(MAX_UNITS + 1, 0).is_none());
    assert!(Dec::new(-MAX_UNITS - 1, 0).is_none());
}

#[test]
fn default_is_zero() {
    let d = Dec::default();
    assert_eq!(d.mantissa(), 0);
    assert_eq!(d.scale(), 0);
}
