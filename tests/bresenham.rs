use grid_iter::{BresenhamIter, Coord};
use std::fmt::Debug;

fn assert_expected_sequence<C>(it: &mut BresenhamIter<C>, expected_coords: &[(C, C)])
where
    C: Coord + Debug + PartialEq,
{
    for &coords in expected_coords {
        assert_eq!(it.next(), Some(coords), "iterator must yield expected points in correct order");
    }
    assert_eq!(it.next(), None, "iterator must not yield any extraneous points");
}

fn test_coords_sequence<C>(coords_sequence: &[(C, C)])
where
    C: Coord + Debug + PartialEq,
{
    assert!(!coords_sequence.is_empty());

    let start_point = *coords_sequence.first().unwrap();
    let end_point = *coords_sequence.last().unwrap();

    let mut it = BresenhamIter::new(start_point, end_point);

    assert_expected_sequence(&mut it, coords_sequence);
}

fn test_slope(start_point: (isize, isize), end_point: (isize, isize)) {
    assert!(
        start_point.0 != end_point.0 && start_point.1 != end_point.1,
        "expected endpoints for a line that is neither horizontal nor vertical"
    );

    let mut it = BresenhamIter::new(start_point, end_point);

    let mut last_point = it.next().expect("expected at least one point");
    assert_eq!(last_point, start_point);

    let delta_x = end_point.0 - start_point.0;
    let delta_y = end_point.1 - start_point.1;
    let is_line_steep = isize::abs(delta_y) > isize::abs(delta_x);

    while let Some(point) = it.next() {
        let (slower_coord, last_slower_coord, slower_delta, faster_coord, last_faster_coord, faster_delta) =
            if is_line_steep {
                (point.0, last_point.0, delta_x, point.1, last_point.1, delta_y)
            } else {
                (point.1, last_point.1, delta_y, point.0, last_point.0, delta_x)
            };

        assert!(
            (slower_delta > 0 && slower_coord >= last_slower_coord)
                || (slower_delta < 0 && slower_coord <= last_slower_coord),
            "coordinates must change monotonically between points"
        );

        assert_eq!(
            faster_coord - last_faster_coord,
            isize::signum(faster_delta),
            "faster changing coordinate must change monotonically and continuosly between points"
        );

        last_point = point;
    }

    assert_eq!(last_point, end_point);
}

#[test]
fn single_point() {
    test_coords_sequence(&[(4, 6)]);
}

#[test]
fn horizontal_right() {
    test_coords_sequence(&[(-12, 2), (-11, 2), (-10, 2), (-9, 2), (-8, 2), (-7, 2)]);
}

#[test]
fn horizontal_left() {
    test_coords_sequence(&[(20, 8), (19, 8), (18, 8), (17, 8), (16, 8)]);
}

#[test]
fn vertical_up() {
    test_coords_sequence(&[(5, 4), (5, 3), (5, 2)]);
}

#[test]
fn vertical_down() {
    test_coords_sequence(&[(-9, 1), (-9, 2), (-9, 3)]);
}

#[test]
fn diagonal_right_up() {
    test_coords_sequence(&[(1, 5), (2, 4), (3, 3), (4, 2), (5, 1)]);
}

#[test]
fn diagonal_right_down() {
    test_coords_sequence(&[(1, 1), (2, 2), (3, 3), (4, 4), (5, 5)]);
}

#[test]
fn diagonal_left_up() {
    test_coords_sequence(&[(5, 5), (4, 4), (3, 3), (2, 2), (1, 1)]);
}

#[test]
fn diagonal_left_down() {
    test_coords_sequence(&[(5, 1), (4, 2), (3, 3), (2, 4), (1, 5)]);
}

#[test]
fn steep_increase() {
    test_slope((2, 5), (10, 20));
}

#[test]
fn steep_increase_reversed() {
    test_slope((10, 20), (2, 5));
}

#[test]
fn steep_decrease() {
    test_slope((11, 30), (15, -12));
}

#[test]
fn steep_decrease_reversed() {
    test_slope((15, -12), (11, 30));
}

#[test]
fn gentle_increase() {
    test_slope((-20, 5), (-2, 6));
}

#[test]
fn gentle_increase_reversed() {
    test_slope((-2, 6), (-20, 5));
}

#[test]
fn gentle_decrease() {
    test_slope((15, 2), (30, 0));
}

#[test]
fn gentle_decrease_reversed() {
    test_slope((30, 0), (15, 2));
}

#[test]
fn shallow_line_exact_points() {
    // Slope 2/5: following positions 0, 0.4, 0.8, 1.2, 1.6, 2.
    test_coords_sequence(&[(0, 0), (1, 0), (2, 1), (3, 1), (4, 2), (5, 2)]);
}

#[test]
fn steep_line_exact_points() {
    // Slope 1/3 along y: x positions 0, 1/3, 2/3, 1.
    test_coords_sequence(&[(0i16, 0i16), (0, 1), (1, 2), (1, 3)]);
}

#[test]
fn halves_round_away_from_zero() {
    // Following positions 0, 0.5, 1: the half goes up.
    test_coords_sequence(&[(0, 0), (1, 1), (2, 1)]);
    // Following positions -1, -0.5, 0: the half goes down.
    test_coords_sequence(&[(0, -1), (1, -1), (2, 0)]);
}

#[test]
fn unsigned_coordinates() {
    test_coords_sequence(&[(3u8, 7u8), (4, 6), (5, 6), (6, 5)]);
    test_coords_sequence(&[(0u128, 0u128), (1, 0), (2, 1), (3, 1)]);
    test_coords_sequence(&[(9usize, 9usize), (8, 9), (7, 9)]);
}

#[test]
fn none_after_end() {
    let mut it = BresenhamIter::new((2u32, 2u32), (3u32, 2u32));
    assert_eq!(it.next(), Some((2, 2)));
    assert_eq!(it.next(), Some((3, 2)));
    for _ in 0..5 {
        assert_eq!(it.next(), None);
    }
}

#[test]
fn wide_types_far_apart() {
    let big = i128::MAX / 4;
    let mut it = BresenhamIter::new((0i128, 0i128), (big, 1i128));
    assert_eq!(it.next(), Some((0, 0)));
    assert_eq!(it.next(), Some((1, 0)));
    let mut it = BresenhamIter::new((i64::MIN + 1, 0i64), (0i64, 0i64));
    assert_eq!(it.next(), Some((i64::MIN + 1, 0)));
    assert_eq!(it.next(), Some((i64::MIN + 2, 0)));
}
