use grid_iter::{Coord, PerimeterIter};
use std::fmt::Debug;

fn assert_expected_sequence<C>(it: &mut PerimeterIter<C>, expected_coords: &[(C, C)])
where
    C: Coord + Debug + PartialEq,
{
    for &coords in expected_coords {
        assert_eq!(it.next(), Some(coords), "iterator must yield expected points in correct order");
    }
    assert_eq!(it.next(), None, "iterator must not yield any extraneous points");
}

fn count_points<C: Coord>(mut it: PerimeterIter<C>) -> usize {
    let mut n: usize = 0;
    while it.next().is_some() {
        n += 1;
    }
    n
}

#[test]
fn always_none_for_empty() {
    let mut it_0 = PerimeterIter::with_dimensions((8, -20), (0, 0));
    let mut it_1 = PerimeterIter::with_dimensions((-5, 91), (9, 0));
    let mut it_2 = PerimeterIter::with_dimensions((88, 72), (0, 34));

    for _ in 0..10 {
        assert!(it_0.next().is_none());
        assert!(it_1.next().is_none());
        assert!(it_2.next().is_none());
    }
}

#[test]
fn only_initial_for_unit() {
    let mut it = PerimeterIter::with_corners((5, 9), (5, 9));

    let initial_point = it
        .next()
        .expect("expected PerimeterIter to return a point on first iteration");

    assert_eq!(initial_point.0, 5);
    assert_eq!(initial_point.1, 9);

    for _ in 0..10 {
        assert!(it.next().is_none());
    }
}

#[test]
fn row() {
    let mut it = PerimeterIter::with_dimensions((9u32, 1u32), (5u32, 1u32));
    let expected_coords = [(9, 1), (10, 1), (11, 1), (12, 1), (13, 1)];
    assert_expected_sequence(&mut it, &expected_coords);
}

#[test]
fn column() {
    let mut it = PerimeterIter::with_corners((5i8, 20i8), (5i8, 25i8));
    let expected_coords = [(5, 20), (5, 21), (5, 22), (5, 23), (5, 24), (5, 25)];
    assert_expected_sequence(&mut it, &expected_coords);
}

#[test]
fn rect() {
    let mut it = PerimeterIter::with_dimensions((0, 0), (2, 3));
    let expected_coords = [(0, 0), (1, 0), (1, 1), (1, 2), (0, 2), (0, 1)];
    assert_expected_sequence(&mut it, &expected_coords);
}

#[test]
fn only_perimeter_points() {
    let left = -98i16;
    let top = 55i16;
    let right = 95i16;
    let bottom = 101i16;

    let mut it = PerimeterIter::with_corners((left, top), (right, bottom));

    while let Some(point) = it.next() {
        assert!(
            point.0 == left || point.0 == right || point.1 == top || point.1 == bottom,
            "iterator must only yield points on perimeter"
        );
    }
}

#[test]
fn point_counts_by_shape() {
    assert_eq!(count_points(PerimeterIter::with_dimensions((3, 4), (0, 7))), 0);
    assert_eq!(count_points(PerimeterIter::with_dimensions((3, 4), (7, 0))), 0);
    assert_eq!(count_points(PerimeterIter::with_dimensions((3, 4), (1, 1))), 1);
    assert_eq!(count_points(PerimeterIter::with_dimensions((3, 4), (6, 1))), 6);
    assert_eq!(count_points(PerimeterIter::with_dimensions((3, 4), (1, 6))), 6);
    assert_eq!(count_points(PerimeterIter::with_dimensions((3, 4), (5, 7))), 20);
    assert_eq!(count_points(PerimeterIter::with_dimensions((0u64, 0u64), (2, 2))), 4);
}

#[test]
fn corners_match_dimensions() {
    let mut by_corners = PerimeterIter::with_corners((-3i64, 2i64), (1i64, 5i64));
    let mut by_dimensions = PerimeterIter::with_dimensions((-3i64, 2i64), (5i64, 4i64));
    loop {
        let a = by_corners.next();
        let b = by_dimensions.next();
        assert_eq!(a, b);
        if a.is_none() {
            break;
        }
    }
}

#[test]
fn larger_rect_clockwise() {
    let mut it = PerimeterIter::with_dimensions((10u8, 20u8), (3u8, 3u8));
    let expected_coords = [
        (10, 20),
        (11, 20),
        (12, 20),
        (12, 21),
        (12, 22),
        (11, 22),
        (10, 22),
        (10, 21),
    ];
    assert_expected_sequence(&mut it, &expected_coords);
}

#[test]
fn rect_at_type_maximum() {
    let mut it = PerimeterIter::with_corners((254u8, 254u8), (255u8, 255u8));
    let expected_coords = [(254, 254), (255, 254), (255, 255), (254, 255)];
    assert_expected_sequence(&mut it, &expected_coords);
}

#[test]
fn no_point_repeats() {
    let mut it = PerimeterIter::with_dimensions((-4i32, -4i32), (4i32, 3i32));
    let mut seen: Vec<(i32, i32)> = Vec::new();
    while let Some(p) = it.next() {
        assert!(!seen.contains(&p));
        seen.push(p);
    }
    assert_eq!(seen.len(), 10);
}
