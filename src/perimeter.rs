//! Clockwise traversal of the border of an axis-aligned rectangle.
use vstd::prelude::*;

use vstd::arithmetic::div_mod::{lemma_mod_self_0, lemma_small_mod};

use crate::coord::{point_value, Coord};

verus! {

/// Number of points on the border of a `width` by `height` rectangle.
pub open spec fn perimeter_len(width: int, height: int) -> int {
    if width <= 0 || height <= 0 {
        0
    } else if width == 1 {
        height
    } else if height == 1 {
        width
    } else {
        2 * (width + height) - 4
    }
}

/// The `i`-th border point, counting clockwise from the top-left corner:
/// the top edge left to right, the right edge top to bottom, the bottom edge
/// right to left, then the left edge bottom to top.
pub open spec fn perimeter_point(left: int, top: int, width: int, height: int, i: int) -> (int, int) {
    let right = left + width - 1;
    let bottom = top + height - 1;
    if width == 1 {
        (left, top + i)
    } else if height == 1 {
        (left + i, top)
    } else if i < width - 1 {
        (left + i, top)
    } else if i < (width - 1) + (height - 1) {
        (right, top + (i - (width - 1)))
    } else if i < 2 * (width - 1) + (height - 1) {
        (right - (i - (width - 1) - (height - 1)), bottom)
    } else {
        (left, bottom - (i - 2 * (width - 1) - (height - 1)))
    }
}

/// All border points of the rectangle, clockwise from the top-left corner.
pub open spec fn perimeter_seq(left: int, top: int, width: int, height: int) -> Seq<(int, int)> {
    Seq::new(
        perimeter_len(width, height) as nat,
        |i: int| perimeter_point(left, top, width, height, i),
    )
}

/// The border of an empty rectangle has no point, that of a single cell one,
/// that of a single row or column one point per cell, and any other
/// `2 * (width + height) - 4`.
pub proof fn lemma_perimeter_len(left: int, top: int, width: int, height: int)
    requires
        width >= 0,
        height >= 0,
    ensures
        width == 0 || height == 0 ==> perimeter_seq(left, top, width, height).len() == 0,
        width == 1 && height == 1 ==> perimeter_seq(left, top, width, height).len() == 1,
        height == 1 && width > 1 ==> perimeter_seq(left, top, width, height).len() == width,
        width == 1 && height > 1 ==> perimeter_seq(left, top, width, height).len() == height,
        width > 1 && height > 1 ==> perimeter_seq(left, top, width, height).len() == 2 * (width
            + height) - 4,
{
}

/// Every point of the traversal lies on the border: in the leftmost or
/// rightmost column, or in the top or bottom row.
pub proof fn lemma_perimeter_on_border(left: int, top: int, width: int, height: int)
    requires
        width >= 0,
        height >= 0,
    ensures
        forall|i: int|
            0 <= i < perimeter_seq(left, top, width, height).len() ==> {
                let p = #[trigger] perimeter_seq(left, top, width, height)[i];
                p.0 == left || p.0 == left + width - 1 || p.1 == top || p.1 == top + height - 1
            },
{
}

/// No point is yielded twice.
pub proof fn lemma_perimeter_distinct(left: int, top: int, width: int, height: int)
    requires
        width >= 0,
        height >= 0,
    ensures
        forall|i: int, j: int|
            0 <= i < j < perimeter_seq(left, top, width, height).len() ==> #[trigger] perimeter_seq(
                left,
                top,
                width,
                height,
            )[i] != #[trigger] perimeter_seq(left, top, width, height)[j],
{
}

/// Traversing by corners gives the sequence of traversing from the top-left
/// corner with `width = right - left + 1` and `height = bottom - top + 1`.
pub proof fn lemma_corners_match_dimensions(top_left: (int, int), bottom_right: (int, int))
    requires
        top_left.0 <= bottom_right.0,
        top_left.1 <= bottom_right.1,
    ensures
        corners_seq(top_left, bottom_right) == perimeter_seq(
            top_left.0,
            top_left.1,
            bottom_right.0 - top_left.0 + 1,
            bottom_right.1 - top_left.1 + 1,
        ),
{
    assert(corners_seq(top_left, bottom_right) =~= perimeter_seq(
        top_left.0,
        top_left.1,
        bottom_right.0 - top_left.0 + 1,
        bottom_right.1 - top_left.1 + 1,
    ));
}

/// All border points of the rectangle with the given top-left and
/// bottom-right corners, clockwise from the top-left one.
pub open spec fn corners_seq(top_left: (int, int), bottom_right: (int, int)) -> Seq<(int, int)> {
    let (left, top) = top_left;
    let (right, bottom) = bottom_right;
    let width = right - left + 1;
    let height = bottom - top + 1;
    Seq::new(
        perimeter_len(width, height) as nat,
        |i: int|
            if width == 1 {
                (left, top + i)
            } else if height == 1 {
                (left + i, top)
            } else if i < width - 1 {
                (left + i, top)
            } else if i < (width - 1) + (height - 1) {
                (right, top + (i - (width - 1)))
            } else if i < 2 * (width - 1) + (height - 1) {
                (right - (i - (width - 1) - (height - 1)), bottom)
            } else {
                (left, bottom - (i - 2 * (width - 1) - (height - 1)))
            },
    )
}

/// Iterator over the points on the border of a rectangle, clockwise from its
/// top-left corner.
pub struct PerimeterIter<C> {
    left: C,
    top: C,
    width: C,
    height: C,
    current_point: Option<(C, C)>,
    index: Ghost<int>,
}

impl<C: Coord> View for PerimeterIter<C> {
    type V = Seq<(int, int)>;

    /// The points still to come.
    closed spec fn view(&self) -> Seq<(int, int)> {
        self.full_seq().skip(self.index@)
    }
}

impl<C: Coord> PerimeterIter<C> {
    closed spec fn full_len(&self) -> int {
        perimeter_len(self.width.spec_value(), self.height.spec_value())
    }

    closed spec fn full_point(&self, i: int) -> (int, int) {
        perimeter_point(
            self.left.spec_value(),
            self.top.spec_value(),
            self.width.spec_value(),
            self.height.spec_value(),
            i,
        )
    }

    closed spec fn full_seq(&self) -> Seq<(int, int)> {
        perimeter_seq(
            self.left.spec_value(),
            self.top.spec_value(),
            self.width.spec_value(),
            self.height.spec_value(),
        )
    }

    /// The rectangle has non-negative sides, its border points are all
    /// representable, and the current point is the border point at `index`.
    pub closed spec fn wf(&self) -> bool {
        let w = self.width.spec_value();
        let h = self.height.spec_value();
        &&& w >= 0
        &&& h >= 0
        &&& (w > 0 && h > 0) ==> {
            &&& self.left.spec_value() + w - 1 <= C::max_value()
            &&& self.top.spec_value() + h - 1 <= C::max_value()
        }
        &&& 0 <= self.index@ <= self.full_len()
        &&& match self.current_point {
            None => self.index@ == self.full_len(),
            Some(p) => self.index@ < self.full_len() && point_value(p) == self.full_point(
                self.index@,
            ),
        }
    }

    /// Traversal of the rectangle with top-left corner `origin` and the given
    /// `(width, height)`. An empty rectangle yields no point.
    pub fn with_dimensions(origin: (C, C), dimensions: (C, C)) -> (r: Self)
        requires
            dimensions.0.spec_value() >= 0,
            dimensions.1.spec_value() >= 0,
            dimensions.0.spec_value() > 0 && dimensions.1.spec_value() > 0 ==> {
                &&& origin.0.spec_value() + dimensions.0.spec_value() - 1 <= C::max_value()
                &&& origin.1.spec_value() + dimensions.1.spec_value() - 1 <= C::max_value()
            },
        ensures
            r.wf(),
            r@ == perimeter_seq(
                origin.0.spec_value(),
                origin.1.spec_value(),
                dimensions.0.spec_value(),
                dimensions.1.spec_value(),
            ),
    {
        let (left, top) = origin;
        let (width, height) = dimensions;
        let zero = C::zero();
        let is_empty = width.eq(zero) || height.eq(zero);
        let r = PerimeterIter {
            left,
            top,
            width,
            height,
            current_point: if !is_empty {
                Some((left, top))
            } else {
                None
            },
            index: Ghost(0),
        };
        assert(r@ =~= r.full_seq());
        r
    }

    /// Traversal of the rectangle whose top-left and bottom-right corners are
    /// given; both corners belong to the rectangle.
    pub fn with_corners(top_left: (C, C), bottom_right: (C, C)) -> (r: Self)
        requires
            top_left.0.spec_value() <= bottom_right.0.spec_value(),
            top_left.1.spec_value() <= bottom_right.1.spec_value(),
            bottom_right.0.spec_value() - top_left.0.spec_value() + 1 <= C::max_value(),
            bottom_right.1.spec_value() - top_left.1.spec_value() + 1 <= C::max_value(),
        ensures
            r.wf(),
            r@ == corners_seq(point_value(top_left), point_value(bottom_right)),
    {
        let (left, top) = top_left;
        let (right, bottom) = bottom_right;
        proof {
            C::lemma_type_ranges();
            left.lemma_value_range();
            top.lemma_value_range();
            right.lemma_value_range();
            bottom.lemma_value_range();
        }
        let one = C::one();
        proof {
            lemma_corners_match_dimensions(point_value(top_left), point_value(bottom_right));
        }
        let r = PerimeterIter {
            left,
            top,
            width: right.sub(left).add(one),
            height: bottom.sub(top).add(one),
            current_point: Some((left, top)),
            index: Ghost(0),
        };
        assert(r@ =~= r.full_seq());
        r
    }

    fn is_initial_point(&self, point: (C, C)) -> (r: bool)
        ensures
            r == (point_value(point) == (self.left.spec_value(), self.top.spec_value())),
    {
        point.0.eq(self.left) && point.1.eq(self.top)
    }

    /// The border point after `current_point`, the point at `index`; the
    /// top-left corner follows the last one.
    fn next_point(&self, current_point: (C, C)) -> (r: (C, C))
        requires
            self.wf(),
            self.index@ < self.full_len(),
            point_value(current_point) == self.full_point(self.index@),
        ensures
            self.index@ + 1 < self.full_len() ==> point_value(r) == self.full_point(
                self.index@ + 1,
            ),
            self.index@ + 1 == self.full_len() ==> point_value(r) == (
                self.left.spec_value(),
                self.top.spec_value(),
            ),
    {
        match self.try_next_point_degenerate(current_point) {
            Some(p) => p,
            None => self.next_point_regular(current_point),
        }
    }

    /// The next point of a rectangle one cell wide or one cell high, wrapping
    /// round to the first; `None` for any other rectangle.
    fn try_next_point_degenerate(&self, current_point: (C, C)) -> (r: Option<(C, C)>)
        requires
            self.wf(),
            self.index@ < self.full_len(),
            point_value(current_point) == self.full_point(self.index@),
        ensures
            r is Some <==> (self.width.spec_value() == 1 || self.height.spec_value() == 1),
            r matches Some(p) ==> {
                &&& self.index@ + 1 < self.full_len() ==> point_value(p) == self.full_point(
                    self.index@ + 1,
                )
                &&& self.index@ + 1 == self.full_len() ==> point_value(p) == (
                    self.left.spec_value(),
                    self.top.spec_value(),
                )
            },
    {
        proof {
            C::lemma_type_ranges();
            self.left.lemma_value_range();
            self.top.lemma_value_range();
            self.width.lemma_value_range();
            self.height.lemma_value_range();
            let n = self.index@ + 1;
            if n < self.full_len() {
                lemma_small_mod(n as nat, self.full_len() as nat);
            } else {
                lemma_mod_self_0(n);
            }
        }
        let one = C::one();
        if self.width.eq(one) {
            let offset = current_point.1.sub(self.top).add(one).rem(self.height);
            Some((self.left, self.top.add(offset)))
        } else if self.height.eq(one) {
            let offset = current_point.0.sub(self.left).add(one).rem(self.width);
            Some((self.left.add(offset), self.top))
        } else {
            None
        }
    }

    /// The next point of a rectangle at least two cells wide and high.
    fn next_point_regular(&self, current_point: (C, C)) -> (r: (C, C))
        requires
            self.wf(),
            self.width.spec_value() > 1,
            self.height.spec_value() > 1,
            self.index@ < self.full_len(),
            point_value(current_point) == self.full_point(self.index@),
        ensures
            self.index@ + 1 < self.full_len() ==> point_value(r) == self.full_point(
                self.index@ + 1,
            ),
            self.index@ + 1 == self.full_len() ==> point_value(r) == (
                self.left.spec_value(),
                self.top.spec_value(),
            ),
    {
        proof {
            C::lemma_type_ranges();
            self.left.lemma_value_range();
            self.top.lemma_value_range();
            self.width.lemma_value_range();
            self.height.lemma_value_range();
        }
        let one = C::one();
        let right = self.left.add(self.width.sub(one));
        let bottom = self.top.add(self.height.sub(one));
        let (x, y) = current_point;
        if self.left.lt(x) && x.lt(right) {
            if y.eq(self.top) {
                (x.add(one), y)  // top edge, go right
            } else {
                (x.sub(one), y)  // bottom edge, go left
            }
        } else if self.top.lt(y) && y.lt(bottom) {
            if x.eq(self.left) {
                (x, y.sub(one))  // left edge, go up
            } else {
                (x, y.add(one))  // right edge, go down
            }
        } else if x.eq(self.left) && y.eq(self.top) {
            (x.add(one), y)  // top-left corner, go right
        } else if x.eq(right) && y.eq(self.top) {
            (x, y.add(one))  // top-right corner, go down
        } else if x.eq(right) && y.eq(bottom) {
            (x.sub(one), y)  // bottom-right corner, go left
        } else {
            (x, y.sub(one))  // bottom-left corner, go up
        }
    }

    /// Yields the next border point, or `None` once the whole border has
    /// been yielded.
    pub fn next(&mut self) -> (r: Option<(C, C)>)
        requires
            old(self).wf(),
        ensures
            final(self).wf(),
            old(self)@.len() == 0 ==> r is None && final(self)@ == old(self)@,
            old(self)@.len() > 0 ==> {
                &&& r matches Some(p) && point_value(p) == old(self)@[0]
                &&& final(self)@ == old(self)@.drop_first()
            },
    {
        match self.current_point {
            None => None,
            Some(current) => {
                let next = self.next_point(current);
                let ghost i = self.index@;
                proof {
                    if i + 1 < self.full_len() {
                        self.lemma_initial_only_first(i + 1);
                    }
                }
                if self.is_initial_point(next) {
                    self.current_point = None;
                } else {
                    self.current_point = Some(next);
                }
                self.index = Ghost(i + 1);
                assert(self@ =~= old(self)@.drop_first());
                Some(current)
            },
        }
    }

    proof fn lemma_initial_only_first(&self, j: int)
        requires
            self.wf(),
            0 < j < self.full_len(),
        ensures
            self.full_point(j) != (self.left.spec_value(), self.top.spec_value()),
    {
    }
}

} // verus!
