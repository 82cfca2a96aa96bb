//! Motion vector component arithmetic, DC codes, and the scan tables
//! over concrete values.

use h263::rle::dezigzag_table;
use h263::deblock::quant_to_strength;
use h263::types::{HalfPel, IntraDc, MotionVector};

#[test]
fn median_is_order_free() {
    let a = HalfPel(6);
    let b = HalfPel(-2);
    let c = HalfPel(10);
    let expected = HalfPel(6);
    assert_eq!(a.median_of(b, c), expected);
    assert_eq!(a.median_of(c, b), expected);
    assert_eq!(b.median_of(a, c), expected);
    assert_eq!(b.median_of(c, a), expected);
    assert_eq!(c.median_of(a, b), expected);
    assert_eq!(c.median_of(b, a), expected);
    assert_eq!(a.median_of(a, b), a);
}

#[test]
fn average_of_four_equal_vectors() {
    // Four equal components sum to four times the value; the rounded
    // average halves the value to chroma scale.
    for v in [-6i16, -3, 0, 1, 2, 5, 12] {
        let sum = HalfPel(4 * v);
        let averaged = sum.average_sum_of_mvs();
        let quarters = if v.rem_euclid(4) == 0 { 0 } else { 1 };
        assert_eq!(averaged, HalfPel(2 * (v.div_euclid(4)) + quarters));
    }
    let mv = MotionVector(HalfPel(8), HalfPel(-8));
    let sum = mv.plus(mv).plus(mv).plus(mv);
    assert_eq!(sum.average_sum_of_mvs(), MotionVector(HalfPel(4), HalfPel(-4)));
}

#[test]
fn halfpel_invert_flips_around_the_range() {
    assert_eq!(HalfPel(10).invert(), HalfPel(-54));
    assert_eq!(HalfPel(-10).invert(), HalfPel(54));
    assert_eq!(HalfPel(0).invert(), HalfPel(0));
    assert!(HalfPel(31).is_mv_within_range(HalfPel(32)));
    assert!(!HalfPel(32).is_mv_within_range(HalfPel(32)));
    assert!(HalfPel(-32).is_mv_within_range(HalfPel(32)));
    assert!(HalfPel(32).is_predictor_within_range(HalfPel(32)));
    assert!(!HalfPel(-32).is_predictor_within_range(HalfPel(32)));
}

#[test]
fn intradc_levels_are_multiples_of_eight() {
    for n in 1u16..=254 {
        if n == 128 {
            assert!(IntraDc::from_u8(n as u8).is_none());
            continue;
        }
        let dc = IntraDc::from_u8(n as u8).unwrap();
        let level = dc.into_level();
        assert_eq!(level % 8, 0);
        assert!((8..=2032).contains(&level));
    }
    assert!(IntraDc::from_u8(0).is_none());
    assert_eq!(IntraDc::from_u8(255).unwrap().into_level(), 1024);
    assert_eq!(IntraDc::from_level(1024).unwrap().into_level(), 1024);
    assert_eq!(IntraDc::from_level(16).unwrap().into_level(), 16);
    assert!(IntraDc::from_level(15).is_none());
    assert!(IntraDc::from_level(2040).is_none());
}

#[test]
fn dezigzag_is_a_bijection() {
    let table = dezigzag_table();
    assert_eq!(table.len(), 64);
    let mut seen = [[false; 8]; 8];
    for &(x, y) in table.iter() {
        assert!(x < 8 && y < 8);
        assert!(!seen[y as usize][x as usize]);
        seen[y as usize][x as usize] = true;
    }
    assert_eq!(table[0], (0, 0));
    assert_eq!(table[1], (1, 0));
    assert_eq!(table[2], (0, 1));
    assert_eq!(table[3], (0, 2));
    assert_eq!(table[4], (1, 1));
    assert_eq!(table[34], (1, 6));
    assert_eq!(table[63], (7, 7));
}

#[test]
fn strength_table_matches_the_quantisers() {
    let table = quant_to_strength();
    assert_eq!(
        table,
        vec![
            0, 1, 1, 2, 2, 3, 3, 4, 4, 4, 5, 5, 6, 6, 7, 7, 7, 8, 8, 8, 9, 9, 9, 10, 10, 10, 11,
            11, 11, 12, 12, 12,
        ]
    );
}
