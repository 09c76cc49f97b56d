use craft_autopilot::compass::{cosine, fine_heading, heading, sine};
use craft_autopilot::numeric::{isqrt, quotient};
use craft_autopilot::vec2::Vec2;

#[test]
fn integer_square_root_rounds_down() {
    assert_eq!(isqrt(0), 0);
    assert_eq!(isqrt(1), 1);
    assert_eq!(isqrt(15), 3);
    assert_eq!(isqrt(16), 4);
    assert_eq!(isqrt(17), 4);
    assert_eq!(isqrt(1_200_000_000_000_000), 34_641_016);
}

#[test]
fn integer_square_root_of_the_largest_number() {
    assert_eq!(isqrt(u128::MAX), u64::MAX);
}

#[test]
fn quotient_rounds_toward_zero() {
    assert_eq!(quotient(7, 2), 3);
    assert_eq!(quotient(-7, 2), -3);
    assert_eq!(quotient(-1, 1000), 0);
    assert_eq!(quotient(0, 5), 0);
}

#[test]
fn sums_and_differences_are_taken_by_component() {
    let a = Vec2::new(3000, -4000);
    let b = Vec2::new(500, 250);
    assert_eq!(a.plus(b), Vec2::new(3500, -3750));
    assert_eq!(a.minus(b), Vec2::new(2500, -4250));
    assert_eq!(a.mirrored(), Vec2::new(3000, 4000));
}

#[test]
fn dot_and_perp_dot() {
    let a = Vec2::new(3000, 4000);
    let b = Vec2::new(-2000, 1000);
    assert_eq!(a.dot(b), -2_000_000);
    assert_eq!(a.perp_dot(b), 11_000_000);
    assert_eq!(b.perp_dot(a), -11_000_000);
    assert_eq!(a.length_squared(), 25_000_000);
}

#[test]
fn length_of_a_three_four_five_triangle() {
    assert_eq!(Vec2::new(3000, 4000).length(), 5000);
    assert_eq!(Vec2::new(-3000, -4000).length(), 5000);
}

#[test]
fn length_is_rounded_down() {
    assert_eq!(Vec2::new(1000, 1000).length(), 1414);
    assert_eq!(Vec2::new(0, 0).length(), 0);
}

#[test]
fn a_normalized_vector_has_unit_length() {
    assert_eq!(Vec2::new(3000, 4000).normalized(), Vec2::new(600, 800));
    assert_eq!(Vec2::new(0, -250).normalized(), Vec2::new(0, -1000));
    assert_eq!(Vec2::new(10_000, -10_000).normalized(), Vec2::new(707, -707));
}

#[test]
fn the_zero_vector_stays_zero_when_normalized() {
    assert_eq!(Vec2::new(0, 0).normalized(), Vec2::new(0, 0));
}

#[test]
fn rotating_by_a_quarter_turn() {
    let quarter = Vec2::new(0, 1000);
    assert_eq!(quarter.rotate(Vec2::new(1000, 0)), Vec2::new(0, 1000));
    assert_eq!(quarter.rotate(Vec2::new(0, 1000)), Vec2::new(-1000, 0));
    assert_eq!(quarter.rotate(Vec2::new(2500, -500)), Vec2::new(500, 2500));
}

#[test]
fn rotating_by_no_turn_changes_nothing() {
    let none = Vec2::new(1000, 0);
    assert_eq!(none.rotate(Vec2::new(-1234, 5678)), Vec2::new(-1234, 5678));
}

#[test]
fn rotating_by_an_eighth_turn() {
    let eighth = Vec2::new(707, 707);
    assert_eq!(eighth.rotate(Vec2::new(1000, 0)), Vec2::new(707, 707));
    assert_eq!(eighth.rotate(Vec2::new(1000, 1000)), Vec2::new(0, 1414));
}

#[test]
fn scaling_a_unit_vector() {
    assert_eq!(Vec2::new(600, 800).scaled(5000), Vec2::new(3000, 4000));
    assert_eq!(Vec2::new(-707, 707).scaled(1500), Vec2::new(-1060, 1060));
    assert_eq!(Vec2::new(600, 800).scaled(0), Vec2::new(0, 0));
}

#[test]
fn fits_tells_whether_both_components_are_in_bounds() {
    assert!(Vec2::new(1000, -1000).fits(1000));
    assert!(!Vec2::new(1001, 0).fits(1000));
    assert!(!Vec2::new(0, -1001).fits(1000));
}

#[test]
fn cosines_of_the_quadrant_corners() {
    assert_eq!(cosine(0), 1_000_000);
    assert_eq!(cosine(90), 0);
    assert_eq!(cosine(180), -1_000_000);
    assert_eq!(cosine(270), 0);
    assert_eq!(sine(0), 0);
    assert_eq!(sine(90), 1_000_000);
    assert_eq!(sine(180), 0);
    assert_eq!(sine(270), -1_000_000);
}

#[test]
fn cosines_and_sines_of_common_angles() {
    assert_eq!(cosine(60), 500_000);
    assert_eq!(sine(30), 500_000);
    assert_eq!(cosine(45), 707_107);
    assert_eq!(sine(45), 707_107);
    assert_eq!(cosine(120), -500_000);
    assert_eq!(sine(210), -500_000);
    assert_eq!(cosine(300), 500_000);
    assert_eq!(sine(300), -866_025);
}

#[test]
fn the_table_agrees_with_the_cosine_to_a_millionth() {
    for degrees in 0..360u32 {
        let angle = (degrees as f64).to_radians();
        let c = (angle.cos() * 1_000_000.0).round() as i64;
        let s = (angle.sin() * 1_000_000.0).round() as i64;
        assert!((cosine(degrees) - c).abs() <= 1);
        assert!((sine(degrees) - s).abs() <= 1);
    }
}

#[test]
fn headings_in_both_precisions() {
    assert_eq!(fine_heading(45), Vec2::new(707_107, 707_107));
    assert_eq!(heading(45), Vec2::new(707, 707));
    assert_eq!(heading(0), Vec2::new(1000, 0));
    assert_eq!(heading(10), Vec2::new(985, 174));
    assert_eq!(heading(190), Vec2::new(-985, -174));
    assert_eq!(heading(359), Vec2::new(1000, -17));
}

#[test]
fn a_vector_times_its_mirror_image_is_no_turn() {
    let turn = Vec2::new(600, 800);
    assert_eq!(turn.mirrored(), Vec2::new(600, -800));
    assert_eq!(turn.mirrored().rotate(turn), Vec2::new(1000, 0));
    assert_eq!(turn.mirrored().rotate(Vec2::new(-800, 600)), Vec2::new(0, 1000));
}

#[test]
fn unit_vectors_are_told_from_others() {
    assert!(Vec2::new(1000, 0).is_unit());
    assert!(Vec2::new(707, 707).is_unit());
    assert!(Vec2::new(-600, 800).is_unit());
    assert!(Vec2::new(999, 0).is_unit());
    assert!(!Vec2::new(998, 0).is_unit());
    assert!(!Vec2::new(1000, 1000).is_unit());
    assert!(!Vec2::new(0, 0).is_unit());
    assert!(!Vec2::new(1001, 0).is_unit());
}

#[test]
fn every_heading_of_the_table_is_a_unit_vector() {
    for degrees in 0..360u32 {
        let fine = fine_heading(degrees);
        let squared = (fine.x as i128) * (fine.x as i128) + (fine.y as i128) * (fine.y as i128);
        assert!((squared - 1_000_000_000_000).abs() <= 1_500_000);
        assert!(heading(degrees).is_unit());
    }
}
