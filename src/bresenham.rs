//! Rasterisation of a line segment between two grid points.
use vstd::prelude::*;

use vstd::arithmetic::div_mod::{lemma_fundamental_div_mod, lemma_fundamental_div_mod_converse};

use crate::coord::{abs_diff, point_value, signum, spec_abs, spec_sign, Coord};

verus! {

/// The integer nearest to `n / d`, for `d > 0`; a value halfway between two
/// integers goes to the one farther from zero.
pub open spec fn round_div(n: int, d: int) -> int {
    let q = n / d;
    let r = n % d;
    if 2 * r > d {
        q + 1
    } else if 2 * r < d {
        q
    } else if q >= 0 {
        q + 1
    } else {
        q
    }
}

/// A line is steep when it moves farther along y than along x.
pub open spec fn is_steep(start: (int, int), end: (int, int)) -> bool {
    spec_abs(end.1 - start.1) > spec_abs(end.0 - start.0)
}

/// The coordinate of `p` on the driving axis: y for a steep line, else x.
pub open spec fn driving(p: (int, int), steep: bool) -> int {
    if steep {
        p.1
    } else {
        p.0
    }
}

/// The coordinate of `p` on the following axis: x for a steep line, else y.
pub open spec fn following(p: (int, int), steep: bool) -> int {
    if steep {
        p.0
    } else {
        p.1
    }
}

/// Number of points of the line: one per unit of the driving axis, both ends
/// included.
pub open spec fn line_len(start: (int, int), end: (int, int)) -> int {
    let steep = is_steep(start, end);
    spec_abs(driving(end, steep) - driving(start, steep)) + 1
}

/// The `k`-th point of the line from `start` to `end`: `k` steps along the
/// driving axis, and the following axis at `k / |delta_a|` of the way,
/// rounded to the nearest integer.
pub open spec fn line_point(start: (int, int), end: (int, int), k: int) -> (int, int) {
    let steep = is_steep(start, end);
    let da = driving(end, steep) - driving(start, steep);
    let db = following(end, steep) - following(start, steep);
    let d = spec_abs(da);
    let a = if da >= 0 {
        driving(start, steep) + k
    } else {
        driving(start, steep) - k
    };
    let b = if d == 0 {
        following(start, steep)
    } else {
        round_div(following(start, steep) * d + k * db, d)
    };
    if steep {
        (b, a)
    } else {
        (a, b)
    }
}

/// The points of the line from `start` to `end`, in order.
pub open spec fn line_seq(start: (int, int), end: (int, int)) -> Seq<(int, int)> {
    Seq::new(line_len(start, end) as nat, |k: int| line_point(start, end, k))
}

/// The rounded quotient, read off the floor quotient `f` and remainder `e`.
pub open spec fn round_parts(f: int, e: int, d: int) -> int {
    if e == 0 {
        f
    } else if e > d - e {
        f + 1
    } else if e < d - e {
        f
    } else if f >= 0 {
        f + 1
    } else {
        f
    }
}

proof fn lemma_round_parts(n: int, d: int, f: int, e: int)
    requires
        d > 0,
        0 <= e < d,
        n == f * d + e,
    ensures
        n / d == f,
        n % d == e,
        round_div(n, d) == round_parts(f, e, d),
{
    lemma_fundamental_div_mod_converse(n, d, f, e);
}

/// After `k` of `d` steps from `s` towards `s + db`, both the floor and the
/// rounded position lie between `s` and `s + db`.
proof fn lemma_position_between(s: int, db: int, d: int, k: int)
    requires
        d > 0,
        spec_abs(db) <= d,
        0 <= k <= d,
    ensures
        ({
            let n = s * d + k * db;
            let lo = if db >= 0 { s } else { s + db };
            let hi = if db >= 0 { s + db } else { s };
            &&& lo <= n / d <= hi
            &&& lo <= round_div(n, d) <= hi
        }),
{
    let n = s * d + k * db;
    let f = n / d;
    let e = n % d;
    lemma_fundamental_div_mod(n, d);
    assert(n == f * d + e) by (nonlinear_arith)
        requires
            n == d * (n / d) + n % d,
            f == n / d,
            e == n % d,
    ;
    if db >= 0 {
        assert(s * d <= n <= (s + db) * d) by (nonlinear_arith)
            requires
                n == s * d + k * db,
                0 <= k <= d,
                db >= 0,
        ;
        assert(s <= f <= s + db) by (nonlinear_arith)
            requires
                s * d <= n <= (s + db) * d,
                n == f * d + e,
                0 <= e < d,
                d > 0,
        ;
        if f == s + db {
            assert(e == 0) by (nonlinear_arith)
                requires
                    n <= (s + db) * d,
                    n == f * d + e,
                    f == s + db,
                    0 <= e,
            ;
        }
    } else {
        assert((s + db) * d <= n <= s * d) by (nonlinear_arith)
            requires
                n == s * d + k * db,
                0 <= k <= d,
                db < 0,
        ;
        assert(s + db <= f <= s) by (nonlinear_arith)
            requires
                (s + db) * d <= n <= s * d,
                n == f * d + e,
                0 <= e < d,
                d > 0,
        ;
        if f == s {
            assert(e == 0) by (nonlinear_arith)
                requires
                    n <= s * d,
                    n == f * d + e,
                    f == s,
                    0 <= e,
            ;
        }
    }
}

/// One step of `db` moves the rounded position by nothing or by one unit
/// in the direction of `db`.
proof fn lemma_round_step(n: int, db: int, d: int)
    requires
        d > 0,
        spec_abs(db) <= d,
        spec_abs(db) == d ==> n % d == 0,
    ensures
        round_div(n + db, d) - round_div(n, d) == 0 || round_div(n + db, d) - round_div(n, d)
            == spec_sign(db),
{
    let f = n / d;
    let e = n % d;
    lemma_fundamental_div_mod(n, d);
    assert(n == f * d + e) by (nonlinear_arith)
        requires
            n == d * (n / d) + n % d,
            f == n / d,
            e == n % d,
    ;
    lemma_round_parts(n, d, f, e);
    assert((f + 1) * d == f * d + d) by (nonlinear_arith);
    assert((f - 1) * d == f * d - d) by (nonlinear_arith);
    if db >= 0 {
        if e + db < d {
            lemma_round_parts(n + db, d, f, e + db);
        } else {
            lemma_round_parts(n + db, d, f + 1, e + db - d);
        }
    } else {
        if e + db >= 0 {
            lemma_round_parts(n + db, d, f, e + db);
        } else {
            lemma_round_parts(n + db, d, f - 1, e + db + d);
        }
    }
}

/// The line starts at `start` and ends at `end`; when the two are equal it is
/// that one point.
pub proof fn lemma_line_endpoints(start: (int, int), end: (int, int))
    ensures
        line_seq(start, end).len() >= 1,
        line_seq(start, end)[0] == start,
        line_seq(start, end).last() == end,
        start == end ==> line_seq(start, end).len() == 1,
{
    let steep = is_steep(start, end);
    let da = driving(end, steep) - driving(start, steep);
    let db = following(end, steep) - following(start, steep);
    let sb = following(start, steep);
    let d = spec_abs(da);
    if d > 0 {
        lemma_round_parts(sb * d + 0 * db, d, sb, 0);
        assert(sb * d + d * db == (sb + db) * d) by (nonlinear_arith);
        lemma_round_parts(sb * d + d * db, d, sb + db, 0);
    }
}

/// Between consecutive points the driving coordinate moves by exactly one
/// unit towards the end point, and the following coordinate either stays or
/// moves by one unit towards the end point.
pub proof fn lemma_line_steps(start: (int, int), end: (int, int))
    ensures
        ({
            let steep = is_steep(start, end);
            let da = driving(end, steep) - driving(start, steep);
            let db = following(end, steep) - following(start, steep);
            let pts = line_seq(start, end);
            forall|k: int|
                0 <= k && k + 1 < pts.len() ==> {
                    &&& driving(#[trigger] pts[k + 1], steep) - driving(pts[k], steep) == spec_sign(
                        da,
                    )
                    &&& following(pts[k + 1], steep) - following(pts[k], steep) == 0 || following(
                        pts[k + 1],
                        steep,
                    ) - following(pts[k], steep) == spec_sign(db)
                }
        }),
{
    let steep = is_steep(start, end);
    let da = driving(end, steep) - driving(start, steep);
    let db = following(end, steep) - following(start, steep);
    let sb = following(start, steep);
    let d = spec_abs(da);
    let pts = line_seq(start, end);
    assert forall|k: int| 0 <= k && k + 1 < pts.len() implies {
        &&& driving(#[trigger] pts[k + 1], steep) - driving(pts[k], steep) == spec_sign(da)
        &&& following(pts[k + 1], steep) - following(pts[k], steep) == 0 || following(
            pts[k + 1],
            steep,
        ) - following(pts[k], steep) == spec_sign(db)
    } by {
        let n = sb * d + k * db;
        assert(sb * d + (k + 1) * db == n + db) by (nonlinear_arith)
            requires
                n == sb * d + k * db,
        ;
        if db == d {
            assert(n == (sb + k) * d) by (nonlinear_arith)
                requires
                    n == sb * d + k * db,
                    db == d,
            ;
            lemma_round_parts(n, d, sb + k, 0);
        } else if db == -d {
            assert(n == (sb - k) * d) by (nonlinear_arith)
                requires
                    n == sb * d + k * db,
                    db == -d,
            ;
            lemma_round_parts(n, d, sb - k, 0);
        }
        lemma_round_step(n, db, d);
    }
}

/// The nearest integer to `floor_b + rem_b / denom`.
fn rounded_position(floor_b: i128, rem_b: i128, denom: i128) -> (r: i128)
    requires
        0 <= rem_b,
        denom >= 0,
        denom == 0 ==> rem_b == 0,
        denom > 0 ==> rem_b < denom,
        i128::MIN <= round_parts(floor_b as int, rem_b as int, denom as int) <= i128::MAX,
    ensures
        r as int == round_parts(floor_b as int, rem_b as int, denom as int),
{
    if rem_b == 0 {
        floor_b
    } else if rem_b > denom - rem_b {
        floor_b + 1
    } else if rem_b < denom - rem_b {
        floor_b
    } else if floor_b >= 0 {
        floor_b + 1
    } else {
        floor_b
    }
}

/// Moves the position `floor_b + rem_b / denom` on by `delta_b / denom`,
/// keeping the remainder in `[0, denom)`.
fn advance_position(floor_b: i128, rem_b: i128, delta_b: i128, denom: i128) -> (r: (i128, i128))
    requires
        denom > 0,
        spec_abs(delta_b as int) <= denom,
        0 <= rem_b < denom,
        i128::MIN <= (floor_b * denom + rem_b + delta_b) / (denom as int) <= i128::MAX,
    ensures
        r.0 * denom + r.1 == floor_b * denom + rem_b + delta_b,
        0 <= r.1 < denom,
{
    let ghost f = floor_b as int;
    let ghost d = denom as int;
    let ghost n = f * d + rem_b + delta_b;
    proof {
        assert((f + 1) * d == f * d + d) by (nonlinear_arith);
        assert((f - 1) * d == f * d - d) by (nonlinear_arith);
    }
    if delta_b >= 0 {
        if rem_b >= denom - delta_b {
            proof {
                lemma_round_parts(n, d, f + 1, rem_b - (denom - delta_b));
            }
            (floor_b + 1, rem_b - (denom - delta_b))
        } else {
            (floor_b, rem_b + delta_b)
        }
    } else {
        let m = -delta_b;
        if rem_b >= m {
            (floor_b, rem_b - m)
        } else {
            proof {
                lemma_round_parts(n, d, f - 1, rem_b + (denom - m));
            }
            (floor_b - 1, rem_b + (denom - m))
        }
    }
}

/// Iterator over the points of a line segment, from its start to its end
/// point, one point per unit of the axis along which the line moves farther
/// (the driving axis `a`; the other, `b`, follows).
pub struct BresenhamIter<C = isize> {
    has_finished: bool,
    is_line_steep: bool,
    step_a: i128,
    current_a: C,
    end_a: C,
    // The exact following-axis position after `index` steps is
    // `floor_b + rem_b / denom`, with `0 <= rem_b < denom`.
    floor_b: i128,
    rem_b: i128,
    delta_b: i128,
    denom: i128,
    start: Ghost<(int, int)>,
    end: Ghost<(int, int)>,
    index: Ghost<int>,
}

impl<C: Coord> View for BresenhamIter<C> {
    type V = Seq<(int, int)>;

    /// The points still to come.
    closed spec fn view(&self) -> Seq<(int, int)> {
        line_seq(self.start@, self.end@).skip(self.index@)
    }
}

impl<C: Coord> BresenhamIter<C> {
    /// The state matches the line from `start` to `end` after `index` steps,
    /// and every coordinate between the end points has a difference form.
    pub closed spec fn wf(&self) -> bool {
        let s = self.start@;
        let e = self.end@;
        let steep = is_steep(s, e);
        let da = driving(e, steep) - driving(s, steep);
        let db = following(e, steep) - following(s, steep);
        let d = spec_abs(da);
        let k = self.index@;
        &&& self.is_line_steep == steep
        &&& self.step_a as int == spec_sign(da)
        &&& self.denom as int == d
        &&& self.delta_b as int == db
        &&& spec_abs(db) <= d
        &&& C::min_value() <= s.0 <= C::diff_max()
        &&& C::min_value() <= s.1 <= C::diff_max()
        &&& C::min_value() <= e.0 <= C::diff_max()
        &&& C::min_value() <= e.1 <= C::diff_max()
        &&& self.end_a.spec_value() == driving(e, steep)
        &&& if self.has_finished {
            k == d + 1
        } else {
            &&& 0 <= k <= d
            &&& self.current_a.spec_value() == if da >= 0 {
                driving(s, steep) + k
            } else {
                driving(s, steep) - k
            }
            &&& following(s, steep) * d + k * db == self.floor_b * d + self.rem_b
            &&& 0 <= self.rem_b
            &&& d == 0 ==> self.rem_b == 0 && self.floor_b == following(s, steep)
            &&& d > 0 ==> self.rem_b < d
        }
    }

    /// The line from `start` to `end`. Every coordinate must have a
    /// difference form, and so must both deltas and their magnitudes.
    pub fn new(start: (C, C), end: (C, C)) -> (r: Self)
        requires
            start.0.spec_value() <= C::diff_max(),
            start.1.spec_value() <= C::diff_max(),
            end.0.spec_value() <= C::diff_max(),
            end.1.spec_value() <= C::diff_max(),
            C::diff_min() < end.0.spec_value() - start.0.spec_value() <= C::diff_max(),
            C::diff_min() < end.1.spec_value() - start.1.spec_value() <= C::diff_max(),
        ensures
            r.wf(),
            r@ == line_seq(point_value(start), point_value(end)),
    {
        proof {
            C::lemma_type_ranges();
            start.0.lemma_value_range();
            start.1.lemma_value_range();
            end.0.lemma_value_range();
            end.1.lemma_value_range();
        }
        let delta_x = end.0.into_diff() - start.0.into_diff();
        let delta_y = end.1.into_diff() - start.1.into_diff();
        let is_line_steep = abs_diff(delta_y) > abs_diff(delta_x);
        let (start_a, end_a, delta_a, start_b, delta_b) = if is_line_steep {
            (start.1, end.1, delta_y, start.0, delta_x)
        } else {
            (start.0, end.0, delta_x, start.1, delta_y)
        };
        let r = BresenhamIter {
            has_finished: false,
            is_line_steep,
            step_a: signum(delta_a),
            current_a: start_a,
            end_a,
            floor_b: start_b.into_diff(),
            rem_b: 0,
            delta_b,
            denom: abs_diff(delta_a),
            start: Ghost(point_value(start)),
            end: Ghost(point_value(end)),
            index: Ghost(0),
        };
        proof {
            let steep = is_steep(r.start@, r.end@);
            assert(steep == is_line_steep);
            let db = following(r.end@, steep) - following(r.start@, steep);
            let d = spec_abs(driving(r.end@, steep) - driving(r.start@, steep));
            assert(0 * db == 0);
            assert(following(r.start@, steep) * d + 0 * db == r.floor_b * d + r.rem_b);
        }
        r
    }

    /// Yields the next point of the line, or `None` once the end point has
    /// been yielded.
    pub fn next(&mut self) -> (r: Option<(C, C)>)
        requires
            old(self).wf(),
        ensures
            final(self).wf(),
            old(self)@.len() == 0 ==> r is None && final(self)@ == old(self)@,
            old(self)@.len() > 0 ==> {
                &&& r matches Some(p) && point_value(p) == old(self)@[0]
                &&& final(self)@ == old(self)@.drop_first()
            },
    {
        if self.has_finished {
            assert(self@ =~= Seq::<(int, int)>::empty());
            return None;
        }
        let ghost s = self.start@;
        let ghost e = self.end@;
        let ghost steep = is_steep(s, e);
        let ghost da = driving(e, steep) - driving(s, steep);
        let ghost db = following(e, steep) - following(s, steep);
        let ghost d = spec_abs(da);
        let ghost k = self.index@;
        let ghost sb = following(s, steep);
        proof {
            C::lemma_type_ranges();
            if d > 0 {
                lemma_position_between(sb, db, d, k);
                lemma_round_parts(sb * d + k * db, d, self.floor_b as int, self.rem_b as int);
            }
        }
        let b = rounded_position(self.floor_b, self.rem_b, self.denom);
        assert(b == following(line_point(s, e, k), steep));
        let b_coord = C::from_diff(b);
        let point = if self.is_line_steep {
            (b_coord, self.current_a)
        } else {
            (self.current_a, b_coord)
        };
        assert(point_value(point) == line_point(s, e, k));
        if self.current_a.eq(self.end_a) {
            self.has_finished = true;
            self.index = Ghost(d + 1);
        } else {
            self.current_a = C::from_diff(self.current_a.into_diff() + self.step_a);
            proof {
                assert((k + 1) * db == k * db + db) by (nonlinear_arith);
                lemma_position_between(sb, db, d, k + 1);
            }
            let (floor_b, rem_b) = advance_position(
                self.floor_b,
                self.rem_b,
                self.delta_b,
                self.denom,
            );
            self.floor_b = floor_b;
            self.rem_b = rem_b;
            self.index = Ghost(k + 1);
        }
        assert(self@ =~= old(self)@.drop_first());
        Some(point)
    }
}

} // verus!
