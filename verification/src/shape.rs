use vstd::prelude::*;

use crate::image_utils::Color;
use crate::COORD_ONE;

verus! {

/// The closed set of shape kinds the engine can draw.
#[derive(Clone, Copy, PartialEq, Eq, Structural, Debug)]
pub enum Shapes {
    Rectangle,
    Triangle,
}

/// A point of canvas space, in fixed-point units of `1 / COORD_ONE` pixel.
#[derive(Clone, Copy, PartialEq, Eq, Structural, Debug)]
pub struct Point {
    pub x: i64,
    pub y: i64,
}

/// The widest canvas extent, in fixed-point units (`MAX_CANVAS` pixels).
pub const MAX_RANGE: i64 = 65535 * 65536;

/// The largest accepted fixed-point scale factor: sixteen times the unit.
pub const MAX_SCALE: i64 = 16 * 65536;

/// How many points a polygon of the given kind holds.
pub open spec fn arity(shape: Shapes) -> int {
    match shape {
        Shapes::Rectangle => 4,
        Shapes::Triangle => 3,
    }
}

/// A coordinate clamped into `[0, range)`: values at or past the far edge
/// move one pixel inside it, negative values move to zero.
pub open spec fn clamp_coord(v: int, range: int) -> int {
    if v >= range {
        range - COORD_ONE
    } else if v < 0 {
        0
    } else {
        v
    }
}

/// Division by `COORD_ONE` that rounds toward zero, as the fixed-point
/// product of two Q16 values is brought back to scale.
pub open spec fn q16_div(v: int) -> int {
    if v >= 0 {
        v / (COORD_ONE as int)
    } else {
        -((-v) / (COORD_ONE as int))
    }
}

pub(crate) fn q16_div_exec(v: i64) -> (r: i64)
    requires
        -0x4000_0000_0000_0000 <= v <= 0x4000_0000_0000_0000,
    ensures
        r == q16_div(v as int),
        v >= 0 ==> 0 <= r <= v,
        v < 0 ==> v <= r <= 0,
{
    if v >= 0 {
        proof {
            vstd::arithmetic::div_mod::lemma_div_pos_is_pos(v as int, COORD_ONE as int);
            vstd::arithmetic::div_mod::lemma_div_nonincreasing(v as int, COORD_ONE as int);
        }
        v / COORD_ONE
    } else {
        proof {
            vstd::arithmetic::div_mod::lemma_div_pos_is_pos(-v as int, COORD_ONE as int);
            vstd::arithmetic::div_mod::lemma_div_nonincreasing(-v as int, COORD_ONE as int);
        }
        -((-v) / COORD_ONE)
    }
}

/// An ordered list of points with a fill color, bound to the canvas extents
/// that clamping keeps it inside.
#[derive(Clone, Debug)]
pub struct Polygon {
    pub points: Vec<Point>,
    pub range_x: i64,
    pub range_y: i64,
    pub shape: Shapes,
    pub fill_color: Color,
}

impl Polygon {
    /// The canvas extents span at least one pixel and fit the canvas limit.
    pub open spec fn range_wf(&self) -> bool {
        &&& COORD_ONE <= self.range_x <= MAX_RANGE
        &&& COORD_ONE <= self.range_y <= MAX_RANGE
    }

    /// `p` lies inside the canvas.
    pub open spec fn in_range(&self, p: Point) -> bool {
        &&& 0 <= p.x < self.range_x
        &&& 0 <= p.y < self.range_y
    }

    /// A well-formed polygon: valid extents, the point count of its kind,
    /// and every point inside the canvas.
    pub open spec fn wf(&self) -> bool {
        &&& self.range_wf()
        &&& self.points@.len() == arity(self.shape)
        &&& forall|i: int|
            0 <= i < self.points@.len() ==> self.in_range(#[trigger] self.points@[i])
    }

    /// Replaces the fill color, leaving the geometry alone.
    pub fn set_fill_color(&mut self, color: Color)
        ensures
            final(self).points@ == old(self).points@,
            final(self).range_x == old(self).range_x,
            final(self).range_y == old(self).range_y,
            final(self).shape == old(self).shape,
            final(self).fill_color == color,
    {
        self.fill_color = color;
    }

    /// Moves every point back inside the canvas: coordinates at or past an
    /// edge are set one pixel inside it, negative ones to zero.
    pub fn clamp_values(&mut self)
        requires
            old(self).range_wf(),
        ensures
            final(self).points@.len() == old(self).points@.len(),
            forall|i: int|
                0 <= i < old(self).points@.len() ==> {
                    &&& (#[trigger] final(self).points@[i]).x == clamp_coord(
                        old(self).points@[i].x as int,
                        old(self).range_x as int,
                    )
                    &&& final(self).points@[i].y == clamp_coord(
                        old(self).points@[i].y as int,
                        old(self).range_y as int,
                    )
                },
            forall|i: int|
                0 <= i < final(self).points@.len() ==> final(self).in_range(
                    #[trigger] final(self).points@[i],
                ),
            final(self).range_x == old(self).range_x,
            final(self).range_y == old(self).range_y,
            final(self).shape == old(self).shape,
            final(self).fill_color == old(self).fill_color,
    {
        let n = self.points.len();
        let mut out: Vec<Point> = Vec::new();
        let mut i: usize = 0;
        while i < n
            invariant
                n == self.points@.len(),
                self.range_wf(),
                i <= n,
                out@.len() == i,
                forall|k: int|
                    0 <= k < i ==> {
                        &&& (#[trigger] out@[k]).x == clamp_coord(
                            self.points@[k].x as int,
                            self.range_x as int,
                        )
                        &&& out@[k].y == clamp_coord(
                            self.points@[k].y as int,
                            self.range_y as int,
                        )
                    },
            decreases n - i,
        {
            let p = self.points[i];
            let nx: i64 = if p.x >= self.range_x {
                self.range_x - COORD_ONE
            } else if p.x < 0 {
                0
            } else {
                p.x
            };
            let ny: i64 = if p.y >= self.range_y {
                self.range_y - COORD_ONE
            } else if p.y < 0 {
                0
            } else {
                p.y
            };
            out.push(Point { x: nx, y: ny });
            i = i + 1;
        }
        self.points = out;
    }

    /// The axis-aligned bounding box of the points: least corner first,
    /// greatest corner second, each bound attained by some point.
    pub fn get_bounds(&self) -> (b: [Point; 2])
        requires
            self.points@.len() >= 1,
        ensures
            forall|i: int|
                0 <= i < self.points@.len() ==> {
                    &&& b@[0].x <= (#[trigger] self.points@[i]).x <= b@[1].x
                    &&& b@[0].y <= self.points@[i].y <= b@[1].y
                },
            exists|i: int| 0 <= i < self.points@.len() && (#[trigger] self.points@[i]).x == b@[0].x,
            exists|i: int| 0 <= i < self.points@.len() && (#[trigger] self.points@[i]).y == b@[0].y,
            exists|i: int| 0 <= i < self.points@.len() && (#[trigger] self.points@[i]).x == b@[1].x,
            exists|i: int| 0 <= i < self.points@.len() && (#[trigger] self.points@[i]).y == b@[1].y,
            is_bounds(self.points@, b@),
    {
        let first = self.points[0];
        let mut min_x = first.x;
        let mut min_y = first.y;
        let mut max_x = first.x;
        let mut max_y = first.y;
        let n = self.points.len();
        let mut i: usize = 1;
        while i < n
            invariant
                n == self.points@.len(),
                1 <= i <= n,
                forall|k: int|
                    0 <= k < i ==> {
                        &&& min_x <= (#[trigger] self.points@[k]).x <= max_x
                        &&& min_y <= self.points@[k].y <= max_y
                    },
                exists|k: int| 0 <= k < i && (#[trigger] self.points@[k]).x == min_x,
                exists|k: int| 0 <= k < i && (#[trigger] self.points@[k]).y == min_y,
                exists|k: int| 0 <= k < i && (#[trigger] self.points@[k]).x == max_x,
                exists|k: int| 0 <= k < i && (#[trigger] self.points@[k]).y == max_y,
            decreases n - i,
        {
            let p = self.points[i];
            if p.x < min_x {
                min_x = p.x;
            }
            if p.x > max_x {
                max_x = p.x;
            }
            if p.y < min_y {
                min_y = p.y;
            }
            if p.y > max_y {
                max_y = p.y;
            }
            i = i + 1;
        }
        [Point { x: min_x, y: min_y }, Point { x: max_x, y: max_y }]
    }
}


/// The magnitude of a product is bounded by the product of the bounds.
proof fn lemma_abs_mul_le(a: int, b: int, aa: int, bb: int)
    requires
        -aa <= a <= aa,
        -bb <= b <= bb,
        0 <= aa,
        0 <= bb,
    ensures
        -(aa * bb) <= a * b <= aa * bb,
{
    assert(-(aa * bb) <= a * b <= aa * bb) by (nonlinear_arith)
        requires
            -aa <= a <= aa,
            -bb <= b <= bb,
            0 <= aa,
            0 <= bb,
    ;
}

/// The product of a difference of coordinates with a scale factor stays
/// well inside the fixed-point working range.
pub(crate) proof fn lemma_mul_range(a: int, s: int)
    requires
        -2 * MAX_RANGE <= a <= 2 * MAX_RANGE,
        0 < s <= MAX_SCALE,
    ensures
        -0x4000_0000_0000_0000 <= a * s <= 0x4000_0000_0000_0000,
{
    lemma_abs_mul_le(a, s, 2 * MAX_RANGE as int, MAX_SCALE as int);
}

/// Bringing a whole multiple of the scale back down is exact.
pub proof fn lemma_q16_div_exact(a: int)
    ensures
        q16_div(a * COORD_ONE) == a,
{
    if a >= 0 {
        assert(a * COORD_ONE >= 0) by (nonlinear_arith)
            requires
                a >= 0,
        ;
        vstd::arithmetic::div_mod::lemma_div_multiples_vanish(a, COORD_ONE as int);
        assert((COORD_ONE as int) * a == a * COORD_ONE) by (nonlinear_arith);
    } else {
        assert(a * COORD_ONE < 0) by (nonlinear_arith)
            requires
                a < 0,
        ;
        vstd::arithmetic::div_mod::lemma_div_multiples_vanish(-a, COORD_ONE as int);
        assert((COORD_ONE as int) * (-a) == -(a * COORD_ONE)) by (nonlinear_arith);
    }
}

/// Where an anchored edge of length `p1 - p0` lands when stretched by the
/// fixed-point factor `s`.
pub open spec fn spec_scaled(p0: int, p1: int, s: int) -> int {
    p0 + q16_div((p1 - p0) * s)
}

/// A factor of exactly one moves no edge: the scaled corner is where it was.
pub proof fn lemma_scale_one(p0: int, p1: int)
    ensures
        spec_scaled(p0, p1, COORD_ONE as int) == p1,
{
    lemma_q16_div_exact(p1 - p0);
}

/// A factor of exactly two doubles the edge from its anchor: the scaled
/// corner lands a full edge length past where it was.
pub proof fn lemma_scale_two(p0: int, p1: int)
    ensures
        spec_scaled(p0, p1, 2 * COORD_ONE as int) == p1 + (p1 - p0),
{
    assert((p1 - p0) * (2 * COORD_ONE as int) == (2 * (p1 - p0)) * COORD_ONE)
        by (nonlinear_arith);
    lemma_q16_div_exact(2 * (p1 - p0));
}

impl Polygon {
    /// The pivot rotation turns about: the center of a rectangle's bounding
    /// box, and the first point of any other kind.
    pub open spec fn spec_center_x(&self) -> int {
        match self.shape {
            Shapes::Rectangle => (self.points@[1].x + self.points@[0].x) / 2,
            _ => self.points@[0].x as int,
        }
    }

    /// The pivot's y coordinate; see `spec_center_x`.
    pub open spec fn spec_center_y(&self) -> int {
        match self.shape {
            Shapes::Rectangle => (self.points@[3].y + self.points@[0].y) / 2,
            _ => self.points@[0].y as int,
        }
    }

    fn center(&self) -> (c: Point)
        requires
            self.wf(),
        ensures
            c.x == self.spec_center_x(),
            c.y == self.spec_center_y(),
            self.in_range(c),
    {
        match self.shape {
            Shapes::Rectangle => Point {
                x: (self.points[1].x + self.points[0].x) / 2,
                y: (self.points[3].y + self.points[0].y) / 2,
            },
            _ => self.points[0],
        }
    }

    /// An exact copy of the polygon.
    pub fn duplicate(&self) -> (r: Polygon)
        ensures
            r.points@ == self.points@,
            r.range_x == self.range_x,
            r.range_y == self.range_y,
            r.shape == self.shape,
            r.fill_color == self.fill_color,
    {
        let n = self.points.len();
        let mut pts: Vec<Point> = Vec::new();
        let mut i: usize = 0;
        while i < n
            invariant
                n == self.points@.len(),
                i <= n,
                pts@.len() == i,
                forall|k: int| 0 <= k < i ==> pts@[k] == self.points@[k],
            decreases n - i,
        {
            pts.push(self.points[i]);
            i = i + 1;
        }
        proof {
            assert(pts@ =~= self.points@);
        }
        Polygon {
            points: pts,
            range_x: self.range_x,
            range_y: self.range_y,
            shape: self.shape,
            fill_color: self.fill_color,
        }
    }
}

/// The x coordinate of `p` turned by `d` degrees about `(cx, cy)`, before
/// clamping.
pub open spec fn spec_rot_x(p: Point, cx: int, cy: int, d: int) -> int {
    cx + q16_div((p.x - cx) * crate::trig::spec_cos(d) - (p.y - cy) * crate::trig::spec_sin(d))
}

/// The y coordinate of `p` turned by `d` degrees about `(cx, cy)`, before
/// clamping.
pub open spec fn spec_rot_y(p: Point, cx: int, cy: int, d: int) -> int {
    cy + q16_div((p.x - cx) * crate::trig::spec_sin(d) + (p.y - cy) * crate::trig::spec_cos(d))
}

/// `b` is the axis-aligned bounding box of the point list `s`: a least and
/// a greatest corner, each bound attained by some point.
pub open spec fn is_bounds(s: Seq<Point>, b: Seq<Point>) -> bool {
    &&& b.len() == 2
    &&& forall|i: int|
        0 <= i < s.len() ==> {
            &&& b[0].x <= (#[trigger] s[i]).x <= b[1].x
            &&& b[0].y <= s[i].y <= b[1].y
        }
    &&& exists|i: int| 0 <= i < s.len() && (#[trigger] s[i]).x == b[0].x
    &&& exists|i: int| 0 <= i < s.len() && (#[trigger] s[i]).y == b[0].y
    &&& exists|i: int| 0 <= i < s.len() && (#[trigger] s[i]).x == b[1].x
    &&& exists|i: int| 0 <= i < s.len() && (#[trigger] s[i]).y == b[1].y
}

/// A non-empty point list has exactly one bounding box.
pub proof fn lemma_bounds_unique(s: Seq<Point>, b1: Seq<Point>, b2: Seq<Point>)
    requires
        s.len() >= 1,
        is_bounds(s, b1),
        is_bounds(s, b2),
    ensures
        b1[0] == b2[0],
        b1[1] == b2[1],
{
}

/// `a` and `b` hold the same points, extents, kind and fill.
pub open spec fn same_polygon(a: Polygon, b: Polygon) -> bool {
    &&& a.points@ == b.points@
    &&& a.range_x == b.range_x
    &&& a.range_y == b.range_y
    &&& a.shape == b.shape
    &&& a.fill_color == b.fill_color
}

/// `post` is `pre` turned by `deg` degrees about its pivot and clamped;
/// everything but the points is kept.
pub open spec fn rotate_rel(pre: Polygon, post: Polygon, deg: u32) -> bool {
    &&& post.points@.len() == pre.points@.len()
    &&& forall|i: int|
        0 <= i < pre.points@.len() ==> {
            &&& (#[trigger] post.points@[i]).x == clamp_coord(
                spec_rot_x(
                    pre.points@[i],
                    pre.spec_center_x(),
                    pre.spec_center_y(),
                    (deg % 360) as int,
                ),
                pre.range_x as int,
            )
            &&& post.points@[i].y == clamp_coord(
                spec_rot_y(
                    pre.points@[i],
                    pre.spec_center_x(),
                    pre.spec_center_y(),
                    (deg % 360) as int,
                ),
                pre.range_y as int,
            )
        }
    &&& post.range_x == pre.range_x
    &&& post.range_y == pre.range_y
    &&& post.shape == pre.shape
    &&& post.fill_color == pre.fill_color
}

/// `post` is `pre` stretched from its anchor by the fixed-point factors and
/// clamped: the far corners of a rectangle move, any other kind stays.
pub open spec fn scale_rel(pre: Polygon, post: Polygon, sx: i64, sy: i64) -> bool {
    &&& post.points@.len() == pre.points@.len()
    &&& pre.shape is Rectangle ==> {
        &&& post.points@[0] == pre.points@[0]
        &&& post.points@[1].x == clamp_coord(
            spec_scaled(pre.points@[0].x as int, pre.points@[1].x as int, sx as int),
            pre.range_x as int,
        )
        &&& post.points@[1].y == pre.points@[1].y
        &&& post.points@[2].x == post.points@[1].x
        &&& post.points@[2].y == clamp_coord(
            spec_scaled(pre.points@[0].y as int, pre.points@[3].y as int, sy as int),
            pre.range_y as int,
        )
        &&& post.points@[3].x == pre.points@[3].x
        &&& post.points@[3].y == post.points@[2].y
    }
    &&& !(pre.shape is Rectangle) ==> post.points@ == pre.points@
    &&& post.range_x == pre.range_x
    &&& post.range_y == pre.range_y
    &&& post.shape == pre.shape
    &&& post.fill_color == pre.fill_color
}

/// The corner pattern of an axis-aligned rectangle anchored at its first
/// point: the second corner shares the anchor's row, the fourth its
/// column, and the third closes the box; width and height run away from
/// the anchor.
pub open spec fn rect_corners(p: Polygon) -> bool {
    &&& p.points@.len() == 4
    &&& p.points@[0].x <= p.points@[1].x
    &&& p.points@[0].y <= p.points@[3].y
    &&& p.points@[1].y == p.points@[0].y
    &&& p.points@[3].x == p.points@[0].x
    &&& p.points@[2].x == p.points@[1].x
    &&& p.points@[2].y == p.points@[3].y
}

/// A rectangle scaled by exactly one in each axis keeps every corner, and
/// with them its bounding box.
pub proof fn lemma_scale_identity_rect(pre: Polygon, post: Polygon)
    requires
        pre.shape is Rectangle,
        pre.wf(),
        rect_corners(pre),
        scale_rel(pre, post, COORD_ONE, COORD_ONE),
    ensures
        post.points@ =~= pre.points@,
{
    lemma_scale_one(pre.points@[0].x as int, pre.points@[1].x as int);
    lemma_scale_one(pre.points@[0].y as int, pre.points@[3].y as int);
    assert(post.points@[0] == pre.points@[0]);
    assert(post.points@[1] == pre.points@[1]);
    assert(post.points@[2] == pre.points@[2]);
    assert(post.points@[3] == pre.points@[3]);
}

/// A rectangle scaled by exactly two in width and one in height keeps the
/// anchor and every row: where no corner needs clamping, the far corners
/// land a full width past where they were, so the bounding-box width
/// doubles from the anchor corner and the height stays.
pub proof fn lemma_scale_doubles_width_rect(pre: Polygon, post: Polygon, sx: i64, sy: i64)
    requires
        pre.shape is Rectangle,
        pre.wf(),
        rect_corners(pre),
        sx == 2 * COORD_ONE,
        sy == COORD_ONE,
        pre.points@[0].x + 2 * (pre.points@[1].x - pre.points@[0].x) < pre.range_x,
        scale_rel(pre, post, sx, sy),
    ensures
        post.points@.len() == 4,
        post.points@[0] == pre.points@[0],
        post.points@[1].x == pre.points@[0].x + 2 * (pre.points@[1].x - pre.points@[0].x),
        post.points@[2].x == post.points@[1].x,
        post.points@[3].x == pre.points@[3].x,
        forall|i: int| 0 <= i < 4 ==> (#[trigger] post.points@[i]).y == pre.points@[i].y,
{
    lemma_scale_two(pre.points@[0].x as int, pre.points@[1].x as int);
    lemma_scale_one(pre.points@[0].y as int, pre.points@[3].y as int);
    assert(post.points@[0].y == pre.points@[0].y);
    assert(post.points@[1].y == pre.points@[1].y);
    assert(post.points@[2].y == pre.points@[2].y);
    assert(post.points@[3].y == pre.points@[3].y);
}

impl Polygon {
    /// Turns every point by `deg` degrees about the polygon's pivot, then
    /// clamps the result back into the canvas.  A turn by a whole number of
    /// full circles moves nothing.
    pub fn rotate(&mut self, deg: u32)
        requires
            old(self).wf(),
        ensures
            final(self).wf(),
            rotate_rel(*old(self), *final(self), deg),
            deg % 360 == 0 ==> final(self).points@ =~= old(self).points@,
    {
        let d: u32 = deg % 360;
        let s: i64 = crate::trig::sin_q16(d);
        let co: i64 = crate::trig::cos_q16(d);
        let c: Point = self.center();
        let n = self.points.len();
        let mut out: Vec<Point> = Vec::new();
        let mut i: usize = 0;
        while i < n
            invariant
                n == self.points@.len(),
                self.wf(),
                i <= n,
                out@.len() == i,
                s == crate::trig::spec_sin(d as int),
                co == crate::trig::spec_cos(d as int),
                -crate::trig::TRIG_ONE <= s <= crate::trig::TRIG_ONE,
                -crate::trig::TRIG_ONE <= co <= crate::trig::TRIG_ONE,
                c.x == self.spec_center_x(),
                c.y == self.spec_center_y(),
                self.in_range(c),
                forall|k: int|
                    0 <= k < i ==> {
                        &&& (#[trigger] out@[k]).x == spec_rot_x(
                            self.points@[k],
                            self.spec_center_x(),
                            self.spec_center_y(),
                            d as int,
                        )
                        &&& out@[k].y == spec_rot_y(
                            self.points@[k],
                            self.spec_center_x(),
                            self.spec_center_y(),
                            d as int,
                        )
                    },
            decreases n - i,
        {
            let p = self.points[i];
            let dx: i64 = p.x - c.x;
            let dy: i64 = p.y - c.y;
            proof {
                lemma_abs_mul_le(dx as int, co as int, MAX_RANGE as int, COORD_ONE as int);
                lemma_abs_mul_le(dy as int, s as int, MAX_RANGE as int, COORD_ONE as int);
                lemma_abs_mul_le(dx as int, s as int, MAX_RANGE as int, COORD_ONE as int);
                lemma_abs_mul_le(dy as int, co as int, MAX_RANGE as int, COORD_ONE as int);
            }
            let xr: i64 = q16_div_exec(dx * co - dy * s);
            let yr: i64 = q16_div_exec(dx * s + dy * co);
            out.push(Point { x: c.x + xr, y: c.y + yr });
            i = i + 1;
        }
        self.points = out;
        self.clamp_values();
        proof {
            if deg % 360 == 0 {
                assert forall|i: int| 0 <= i < old(self).points@.len() implies
                    self.points@[i] == old(self).points@[i] by {
                    let p = old(self).points@[i];
                    let cx = old(self).spec_center_x();
                    let cy = old(self).spec_center_y();
                    lemma_q16_div_exact(p.x - cx);
                    lemma_q16_div_exact(p.y - cy);
                    assert((p.x - cx) * (COORD_ONE as int) - (p.y - cy) * 0
                        == (p.x - cx) * (COORD_ONE as int)) by (nonlinear_arith);
                    assert((p.x - cx) * 0 + (p.y - cy) * (COORD_ONE as int)
                        == (p.y - cy) * (COORD_ONE as int)) by (nonlinear_arith);
                }
                assert(self.points@ =~= old(self).points@);
            }
        }
    }

    /// Stretches a rectangle from its anchor corner by the fixed-point
    /// factors, then clamps; any other kind is only clamped, which moves no
    /// well-formed point.
    pub fn scale(&mut self, scale_x: i64, scale_y: i64)
        requires
            old(self).wf(),
            0 < scale_x <= MAX_SCALE,
            0 < scale_y <= MAX_SCALE,
        ensures
            final(self).wf(),
            scale_rel(*old(self), *final(self), scale_x, scale_y),
    {
        match self.shape {
            Shapes::Rectangle => {
                crate::rectangle::Rectangle::scale(&mut self.points, scale_x, scale_y);
            },
            _ => {},
        }
        self.clamp_values();
        proof {
            if !(old(self).shape is Rectangle) {
                assert(self.points@ =~= old(self).points@);
            }
        }
    }
}


impl Polygon {
    /// A fresh random polygon of the given kind, with a white fill and the
    /// canvas extents that clamping will keep it inside.
    pub fn new(shape: Shapes, range_x: i64, range_y: i64) -> (r: Polygon)
        requires
            COORD_ONE <= range_x <= MAX_RANGE,
            COORD_ONE <= range_y <= MAX_RANGE,
        ensures
            r.wf(),
            r.shape == shape,
            r.range_x == range_x,
            r.range_y == range_y,
            r.fill_color == (Color { r: 255, g: 255, b: 255, a: 255 }),
            shape is Rectangle ==> {
                &&& r.points@[1] == (Point {
                    x: (r.points@[0].x + range_x / 8) as i64,
                    y: r.points@[0].y,
                })
                &&& r.points@[2] == (Point {
                    x: (r.points@[0].x + range_x / 8) as i64,
                    y: (r.points@[0].y + range_y / 8) as i64,
                })
                &&& r.points@[3] == (Point {
                    x: r.points@[0].x,
                    y: (r.points@[0].y + range_y / 8) as i64,
                })
                &&& rect_corners(r)
            },
            shape is Triangle ==> exists|tx: int, ty: int|
                #![trigger (range_x / 4) * tx, (range_y / 4) * ty]
                {
                    &&& 0 <= tx < 4
                    &&& 0 <= ty < 4
                    &&& forall|i: int|
                        0 <= i < 3 ==> {
                            &&& (range_x / 4) * tx <= (#[trigger] r.points@[i]).x < (range_x
                                / 4) * (tx + 1)
                            &&& (range_y / 4) * ty <= r.points@[i].y < (range_y / 4) * (ty
                                + 1)
                        }
                },
    {
        let default_white_color = Color { r: 255, g: 255, b: 255, a: 255 };
        proof {
            vstd::arithmetic::div_mod::lemma_div_pos_is_pos(range_x as int, 8);
            vstd::arithmetic::div_mod::lemma_div_pos_is_pos(range_y as int, 8);
        }
        match shape {
            Shapes::Rectangle => Polygon {
                points: crate::rectangle::Rectangle::new(range_x, range_y),
                range_x,
                range_y,
                shape,
                fill_color: default_white_color,
            },
            Shapes::Triangle => Polygon {
                points: crate::triangle::Triangle::new(range_x, range_y),
                range_x,
                range_y,
                shape,
                fill_color: default_white_color,
            },
        }
    }
}

} // verus!
