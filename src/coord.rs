//! Integer types usable as grid coordinates.
use vstd::prelude::*;

verus! {

/// An integer type that can serve as a grid coordinate.
///
/// Every coordinate value also has a "difference" form: the signed integer of
/// the same width, carried here in an `i128`. Unsigned values above the signed
/// range of their width have no difference form.
pub trait Coord: Copy + Sized {
    /// The mathematical value of a coordinate.
    spec fn spec_value(self) -> int;

    /// Smallest value of the coordinate type.
    spec fn min_value() -> int;

    /// Largest value of the coordinate type.
    spec fn max_value() -> int;

    /// Smallest value of the signed difference type of the same width.
    spec fn diff_min() -> int;

    /// Largest value of the signed difference type of the same width.
    spec fn diff_max() -> int;

    proof fn lemma_value_range(self)
        ensures
            Self::min_value() <= self.spec_value() <= Self::max_value(),
    ;

    proof fn lemma_type_ranges()
        ensures
            i128::MIN <= Self::diff_min() < 0 < Self::diff_max() <= i128::MAX,
            Self::diff_max() <= Self::max_value(),
            Self::min_value() <= 0 < Self::max_value(),
            Self::diff_min() <= Self::min_value(),
    ;

    fn zero() -> (r: Self)
        ensures
            r.spec_value() == 0,
    ;

    fn one() -> (r: Self)
        ensures
            r.spec_value() == 1,
    ;

    fn add(self, rhs: Self) -> (r: Self)
        requires
            Self::min_value() <= self.spec_value() + rhs.spec_value() <= Self::max_value(),
        ensures
            r.spec_value() == self.spec_value() + rhs.spec_value(),
    ;

    fn sub(self, rhs: Self) -> (r: Self)
        requires
            Self::min_value() <= self.spec_value() - rhs.spec_value() <= Self::max_value(),
        ensures
            r.spec_value() == self.spec_value() - rhs.spec_value(),
    ;

    fn eq(self, rhs: Self) -> (r: bool)
        ensures
            r == (self.spec_value() == rhs.spec_value()),
    ;

    fn lt(self, rhs: Self) -> (r: bool)
        ensures
            r == (self.spec_value() < rhs.spec_value()),
    ;

    /// Remainder of a non-negative value by a positive one.
    fn rem(self, rhs: Self) -> (r: Self)
        requires
            self.spec_value() >= 0,
            rhs.spec_value() > 0,
        ensures
            r.spec_value() == self.spec_value() % rhs.spec_value(),
    ;

    /// The difference form of a coordinate.
    fn into_diff(self) -> (r: i128)
        requires
            self.spec_value() <= Self::diff_max(),
        ensures
            r as int == self.spec_value(),
    ;

    /// The coordinate whose value is `d`.
    fn from_diff(d: i128) -> (r: Self)
        requires
            Self::min_value() <= d <= Self::max_value(),
        ensures
            r.spec_value() == d as int,
    ;
}

/// The mathematical values of a point's two coordinates.
pub open spec fn point_value<C: Coord>(p: (C, C)) -> (int, int) {
    (p.0.spec_value(), p.1.spec_value())
}

/// Sign of a difference: -1, 0 or 1.
pub open spec fn spec_sign(d: int) -> int {
    if d > 0 {
        1
    } else if d < 0 {
        -1
    } else {
        0
    }
}

/// Magnitude of a difference.
pub open spec fn spec_abs(d: int) -> int {
    if d < 0 {
        -d
    } else {
        d
    }
}

/// Sign of a difference.
pub fn signum(d: i128) -> (r: i128)
    ensures
        r as int == spec_sign(d as int),
{
    if d > 0 {
        1
    } else if d < 0 {
        -1
    } else {
        0
    }
}

/// Magnitude of a difference; the most negative `i128` has none.
pub fn abs_diff(d: i128) -> (r: i128)
    requires
        d > i128::MIN,
    ensures
        r as int == spec_abs(d as int),
{
    if d < 0 {
        -d
    } else {
        d
    }
}

impl Coord for u8 {
    open spec fn spec_value(self) -> int {
        self as int
    }

    open spec fn min_value() -> int {
        0
    }

    open spec fn max_value() -> int {
        u8::MAX as int
    }

    open spec fn diff_min() -> int {
        i8::MIN as int
    }

    open spec fn diff_max() -> int {
        i8::MAX as int
    }

    proof fn lemma_value_range(self) {
    }

    proof fn lemma_type_ranges() {
    }

    fn zero() -> (r: Self) {
        0
    }

    fn one() -> (r: Self) {
        1
    }

    fn add(self, rhs: Self) -> (r: Self) {
        self + rhs
    }

    fn sub(self, rhs: Self) -> (r: Self) {
        self - rhs
    }

    fn eq(self, rhs: Self) -> (r: bool) {
        self == rhs
    }

    fn lt(self, rhs: Self) -> (r: bool) {
        self < rhs
    }

    fn rem(self, rhs: Self) -> (r: Self) {
        self % rhs
    }

    fn into_diff(self) -> (r: i128) {
        self as i128
    }

    fn from_diff(d: i128) -> (r: Self) {
        d as u8
    }
}

impl Coord for i8 {
    open spec fn spec_value(self) -> int {
        self as int
    }

    open spec fn min_value() -> int {
        i8::MIN as int
    }

    open spec fn max_value() -> int {
        i8::MAX as int
    }

    open spec fn diff_min() -> int {
        i8::MIN as int
    }

    open spec fn diff_max() -> int {
        i8::MAX as int
    }

    proof fn lemma_value_range(self) {
    }

    proof fn lemma_type_ranges() {
    }

    fn zero() -> (r: Self) {
        0
    }

    fn one() -> (r: Self) {
        1
    }

    fn add(self, rhs: Self) -> (r: Self) {
        self + rhs
    }

    fn sub(self, rhs: Self) -> (r: Self) {
        self - rhs
    }

    fn eq(self, rhs: Self) -> (r: bool) {
        self == rhs
    }

    fn lt(self, rhs: Self) -> (r: bool) {
        self < rhs
    }

    fn rem(self, rhs: Self) -> (r: Self) {
        self % rhs
    }

    fn into_diff(self) -> (r: i128) {
        self as i128
    }

    fn from_diff(d: i128) -> (r: Self) {
        d as i8
    }
}

impl Coord for u16 {
    open spec fn spec_value(self) -> int {
        self as int
    }

    open spec fn min_value() -> int {
        0
    }

    open spec fn max_value() -> int {
        u16::MAX as int
    }

    open spec fn diff_min() -> int {
        i16::MIN as int
    }

    open spec fn diff_max() -> int {
        i16::MAX as int
    }

    proof fn lemma_value_range(self) {
    }

    proof fn lemma_type_ranges() {
    }

    fn zero() -> (r: Self) {
        0
    }

    fn one() -> (r: Self) {
        1
    }

    fn add(self, rhs: Self) -> (r: Self) {
        self + rhs
    }

    fn sub(self, rhs: Self) -> (r: Self) {
        self - rhs
    }

    fn eq(self, rhs: Self) -> (r: bool) {
        self == rhs
    }

    fn lt(self, rhs: Self) -> (r: bool) {
        self < rhs
    }

    fn rem(self, rhs: Self) -> (r: Self) {
        self % rhs
    }

    fn into_diff(self) -> (r: i128) {
        self as i128
    }

    fn from_diff(d: i128) -> (r: Self) {
        d as u16
    }
}

impl Coord for i16 {
    open spec fn spec_value(self) -> int {
        self as int
    }

    open spec fn min_value() -> int {
        i16::MIN as int
    }

    open spec fn max_value() -> int {
        i16::MAX as int
    }

    open spec fn diff_min() -> int {
        i16::MIN as int
    }

    open spec fn diff_max() -> int {
        i16::MAX as int
    }

    proof fn lemma_value_range(self) {
    }

    proof fn lemma_type_ranges() {
    }

    fn zero() -> (r: Self) {
        0
    }

    fn one() -> (r: Self) {
        1
    }

    fn add(self, rhs: Self) -> (r: Self) {
        self + rhs
    }

    fn sub(self, rhs: Self) -> (r: Self) {
        self - rhs
    }

    fn eq(self, rhs: Self) -> (r: bool) {
        self == rhs
    }

    fn lt(self, rhs: Self) -> (r: bool) {
        self < rhs
    }

    fn rem(self, rhs: Self) -> (r: Self) {
        self % rhs
    }

    fn into_diff(self) -> (r: i128) {
        self as i128
    }

    fn from_diff(d: i128) -> (r: Self) {
        d as i16
    }
}

impl Coord for u32 {
    open spec fn spec_value(self) -> int {
        self as int
    }

    open spec fn min_value() -> int {
        0
    }

    open spec fn max_value() -> int {
        u32::MAX as int
    }

    open spec fn diff_min() -> int {
        i32::MIN as int
    }

    open spec fn diff_max() -> int {
        i32::MAX as int
    }

    proof fn lemma_value_range(self) {
    }

    proof fn lemma_type_ranges() {
    }

    fn zero() -> (r: Self) {
        0
    }

    fn one() -> (r: Self) {
        1
    }

    fn add(self, rhs: Self) -> (r: Self) {
        self + rhs
    }

    fn sub(self, rhs: Self) -> (r: Self) {
        self - rhs
    }

    fn eq(self, rhs: Self) -> (r: bool) {
        self == rhs
    }

    fn lt(self, rhs: Self) -> (r: bool) {
        self < rhs
    }

    fn rem(self, rhs: Self) -> (r: Self) {
        self % rhs
    }

    fn into_diff(self) -> (r: i128) {
        self as i128
    }

    fn from_diff(d: i128) -> (r: Self) {
        d as u32
    }
}

impl Coord for i32 {
    open spec fn spec_value(self) -> int {
        self as int
    }

    open spec fn min_value() -> int {
        i32::MIN as int
    }

    open spec fn max_value() -> int {
        i32::MAX as int
    }

    open spec fn diff_min() -> int {
        i32::MIN as int
    }

    open spec fn diff_max() -> int {
        i32::MAX as int
    }

    proof fn lemma_value_range(self) {
    }

    proof fn lemma_type_ranges() {
    }

    fn zero() -> (r: Self) {
        0
    }

    fn one() -> (r: Self) {
        1
    }

    fn add(self, rhs: Self) -> (r: Self) {
        self + rhs
    }

    fn sub(self, rhs: Self) -> (r: Self) {
        self - rhs
    }

    fn eq(self, rhs: Self) -> (r: bool) {
        self == rhs
    }

    fn lt(self, rhs: Self) -> (r: bool) {
        self < rhs
    }

    fn rem(self, rhs: Self) -> (r: Self) {
        self % rhs
    }

    fn into_diff(self) -> (r: i128) {
        self as i128
    }

    fn from_diff(d: i128) -> (r: Self) {
        d as i32
    }
}

impl Coord for u64 {
    open spec fn spec_value(self) -> int {
        self as int
    }

    open spec fn min_value() -> int {
        0
    }

    open spec fn max_value() -> int {
        u64::MAX as int
    }

    open spec fn diff_min() -> int {
        i64::MIN as int
    }

    open spec fn diff_max() -> int {
        i64::MAX as int
    }

    proof fn lemma_value_range(self) {
    }

    proof fn lemma_type_ranges() {
    }

    fn zero() -> (r: Self) {
        0
    }

    fn one() -> (r: Self) {
        1
    }

    fn add(self, rhs: Self) -> (r: Self) {
        self + rhs
    }

    fn sub(self, rhs: Self) -> (r: Self) {
        self - rhs
    }

    fn eq(self, rhs: Self) -> (r: bool) {
        self == rhs
    }

    fn lt(self, rhs: Self) -> (r: bool) {
        self < rhs
    }

    fn rem(self, rhs: Self) -> (r: Self) {
        self % rhs
    }

    fn into_diff(self) -> (r: i128) {
        self as i128
    }

    fn from_diff(d: i128) -> (r: Self) {
        d as u64
    }
}

impl Coord for i64 {
    open spec fn spec_value(self) -> int {
        self as int
    }

    open spec fn min_value() -> int {
        i64::MIN as int
    }

    open spec fn max_value() -> int {
        i64::MAX as int
    }

    open spec fn diff_min() -> int {
        i64::MIN as int
    }

    open spec fn diff_max() -> int {
        i64::MAX as int
    }

    proof fn lemma_value_range(self) {
    }

    proof fn lemma_type_ranges() {
    }

    fn zero() -> (r: Self) {
        0
    }

    fn one() -> (r: Self) {
        1
    }

    fn add(self, rhs: Self) -> (r: Self) {
        self + rhs
    }

    fn sub(self, rhs: Self) -> (r: Self) {
        self - rhs
    }

    fn eq(self, rhs: Self) -> (r: bool) {
        self == rhs
    }

    fn lt(self, rhs: Self) -> (r: bool) {
        self < rhs
    }

    fn rem(self, rhs: Self) -> (r: Self) {
        self % rhs
    }

    fn into_diff(self) -> (r: i128) {
        self as i128
    }

    fn from_diff(d: i128) -> (r: Self) {
        d as i64
    }
}

impl Coord for u128 {
    open spec fn spec_value(self) -> int {
        self as int
    }

    open spec fn min_value() -> int {
        0
    }

    open spec fn max_value() -> int {
        u128::MAX as int
    }

    open spec fn diff_min() -> int {
        i128::MIN as int
    }

    open spec fn diff_max() -> int {
        i128::MAX as int
    }

    proof fn lemma_value_range(self) {
    }

    proof fn lemma_type_ranges() {
    }

    fn zero() -> (r: Self) {
        0
    }

    fn one() -> (r: Self) {
        1
    }

    fn add(self, rhs: Self) -> (r: Self) {
        self + rhs
    }

    fn sub(self, rhs: Self) -> (r: Self) {
        self - rhs
    }

    fn eq(self, rhs: Self) -> (r: bool) {
        self == rhs
    }

    fn lt(self, rhs: Self) -> (r: bool) {
        self < rhs
    }

    fn rem(self, rhs: Self) -> (r: Self) {
        self % rhs
    }

    fn into_diff(self) -> (r: i128) {
        self as i128
    }

    fn from_diff(d: i128) -> (r: Self) {
        d as u128
    }
}

impl Coord for i128 {
    open spec fn spec_value(self) -> int {
        self as int
    }

    open spec fn min_value() -> int {
        i128::MIN as int
    }

    open spec fn max_value() -> int {
        i128::MAX as int
    }

    open spec fn diff_min() -> int {
        i128::MIN as int
    }

    open spec fn diff_max() -> int {
        i128::MAX as int
    }

    proof fn lemma_value_range(self) {
    }

    proof fn lemma_type_ranges() {
    }

    fn zero() -> (r: Self) {
        0
    }

    fn one() -> (r: Self) {
        1
    }

    fn add(self, rhs: Self) -> (r: Self) {
        self + rhs
    }

    fn sub(self, rhs: Self) -> (r: Self) {
        self - rhs
    }

    fn eq(self, rhs: Self) -> (r: bool) {
        self == rhs
    }

    fn lt(self, rhs: Self) -> (r: bool) {
        self < rhs
    }

    fn rem(self, rhs: Self) -> (r: Self) {
        self % rhs
    }

    fn into_diff(self) -> (r: i128) {
        self as i128
    }

    fn from_diff(d: i128) -> (r: Self) {
        d as i128
    }
}

impl Coord for usize {
    open spec fn spec_value(self) -> int {
        self as int
    }

    open spec fn min_value() -> int {
        0
    }

    open spec fn max_value() -> int {
        usize::MAX as int
    }

    open spec fn diff_min() -> int {
        isize::MIN as int
    }

    open spec fn diff_max() -> int {
        isize::MAX as int
    }

    proof fn lemma_value_range(self) {
    }

    proof fn lemma_type_ranges() {
    }

    fn zero() -> (r: Self) {
        0
    }

    fn one() -> (r: Self) {
        1
    }

    fn add(self, rhs: Self) -> (r: Self) {
        self + rhs
    }

    fn sub(self, rhs: Self) -> (r: Self) {
        self - rhs
    }

    fn eq(self, rhs: Self) -> (r: bool) {
        self == rhs
    }

    fn lt(self, rhs: Self) -> (r: bool) {
        self < rhs
    }

    fn rem(self, rhs: Self) -> (r: Self) {
        self % rhs
    }

    fn into_diff(self) -> (r: i128) {
        self as i128
    }

    fn from_diff(d: i128) -> (r: Self) {
        d as usize
    }
}

impl Coord for isize {
    open spec fn spec_value(self) -> int {
        self as int
    }

    open spec fn min_value() -> int {
        isize::MIN as int
    }

    open spec fn max_value() -> int {
        isize::MAX as int
    }

    open spec fn diff_min() -> int {
        isize::MIN as int
    }

    open spec fn diff_max() -> int {
        isize::MAX as int
    }

    proof fn lemma_value_range(self) {
    }

    proof fn lemma_type_ranges() {
    }

    fn zero() -> (r: Self) {
        0
    }

    fn one() -> (r: Self) {
        1
    }

    fn add(self, rhs: Self) -> (r: Self) {
        self + rhs
    }

    fn sub(self, rhs: Self) -> (r: Self) {
        self - rhs
    }

    fn eq(self, rhs: Self) -> (r: bool) {
        self == rhs
    }

    fn lt(self, rhs: Self) -> (r: bool) {
        self < rhs
    }

    fn rem(self, rhs: Self) -> (r: Self) {
        self % rhs
    }

    fn into_diff(self) -> (r: i128) {
        self as i128
    }

    fn from_diff(d: i128) -> (r: Self) {
        d as isize
    }
}

} // verus!
