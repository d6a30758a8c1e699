use grid_iter::coord::{abs_diff, signum};
use grid_iter::Coord;

#[test]
fn arithmetic_on_each_type() {
    assert_eq!(u8::zero().add(u8::one()), 1u8);
    assert_eq!(i8::from_diff(-5), -5i8);
    assert_eq!(u16::from_diff(300), 300u16);
    assert_eq!(i16::one().sub(3), -2i16);
    assert_eq!(u32::from_diff(7).rem(4), 3u32);
    assert_eq!(i32::from_diff(9).rem(9), 0i32);
    assert_eq!(200u64.into_diff(), 200i128);
    assert!(i64::from_diff(-1).lt(0));
    assert!(u128::from_diff(5).eq(5));
    assert_eq!(i128::from_diff(i128::MIN), i128::MIN);
    assert_eq!(usize::one().add(1), 2usize);
    assert_eq!((-7isize).into_diff(), -7i128);
}

#[test]
fn sign_and_magnitude() {
    assert_eq!(signum(-42), -1);
    assert_eq!(signum(0), 0);
    assert_eq!(signum(17), 1);
    assert_eq!(abs_diff(-42), 42);
    assert_eq!(abs_diff(i128::MAX), i128::MAX);
}
