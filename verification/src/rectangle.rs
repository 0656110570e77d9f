use vstd::prelude::*;

use crate::random::random_range_i64;
use crate::shape::{spec_scaled, Point, MAX_RANGE, MAX_SCALE};
use crate::COORD_ONE;

verus! {

/// The axis-aligned rectangle kind.  Its points run clockwise from the
/// top-left anchor: anchor, top-right, bottom-right, bottom-left.
pub struct Rectangle {}

impl Rectangle {
    /// Draws a random fixed-size rectangle inside the canvas: the anchor is
    /// uniform over the region that keeps an eighth-of-the-canvas box fully
    /// inside, and the other corners follow from it.
    pub fn new(range_x: i64, range_y: i64) -> (points: Vec<Point>)
        requires
            COORD_ONE <= range_x <= MAX_RANGE,
            COORD_ONE <= range_y <= MAX_RANGE,
        ensures
            points@.len() == 4,
            0 <= points@[0].x < range_x - range_x / 8,
            0 <= points@[0].y < range_y - range_y / 8,
            points@[1] == (Point { x: (points@[0].x + range_x / 8) as i64, y: points@[0].y }),
            points@[2] == (Point {
                x: (points@[0].x + range_x / 8) as i64,
                y: (points@[0].y + range_y / 8) as i64,
            }),
            points@[3] == (Point { x: points@[0].x, y: (points@[0].y + range_y / 8) as i64 }),
            forall|i: int|
                0 <= i < 4 ==> {
                    &&& 0 <= (#[trigger] points@[i]).x < range_x
                    &&& 0 <= points@[i].y < range_y
                },
    {
        let base_width: i64 = range_x / 8;
        let base_height: i64 = range_y / 8;
        let ax: i64 = random_range_i64(0, range_x - base_width);
        let ay: i64 = random_range_i64(0, range_y - base_height);
        let p0 = Point { x: ax, y: ay };
        let p1 = Point { x: ax + base_width, y: ay };
        let p2 = Point { x: ax + base_width, y: ay + base_height };
        let p3 = Point { x: ax, y: ay + base_height };
        let mut points: Vec<Point> = Vec::new();
        points.push(p0);
        points.push(p1);
        points.push(p2);
        points.push(p3);
        points
    }

    /// The center of the rectangle's bounding box: the midpoint of its
    /// anchored diagonal.
    pub fn center(points: &Vec<Point>) -> (c: Point)
        requires
            points@.len() == 4,
            forall|i: int|
                0 <= i < 4 ==> {
                    &&& 0 <= (#[trigger] points@[i]).x <= MAX_RANGE
                    &&& 0 <= points@[i].y <= MAX_RANGE
                },
        ensures
            c.x == (points@[1].x + points@[0].x) / 2,
            c.y == (points@[3].y + points@[0].y) / 2,
    {
        Point {
            x: (points[1].x + points[0].x) / 2,
            y: (points[3].y + points[0].y) / 2,
        }
    }

    /// Stretches the rectangle's width and height from its anchor corner by
    /// the fixed-point factors: the far corners move, the anchor stays.
    pub fn scale(points: &mut Vec<Point>, scale_x: i64, scale_y: i64)
        requires
            old(points)@.len() == 4,
            forall|i: int|
                0 <= i < 4 ==> {
                    &&& -MAX_RANGE <= (#[trigger] old(points)@[i]).x <= MAX_RANGE
                    &&& -MAX_RANGE <= old(points)@[i].y <= MAX_RANGE
                },
            0 < scale_x <= MAX_SCALE,
            0 < scale_y <= MAX_SCALE,
        ensures
            final(points)@.len() == 4,
            final(points)@[0] == old(points)@[0],
            final(points)@[1].x == spec_scaled(
                old(points)@[0].x as int,
                old(points)@[1].x as int,
                scale_x as int,
            ),
            final(points)@[1].y == old(points)@[1].y,
            final(points)@[2].x == final(points)@[1].x,
            final(points)@[2].y == spec_scaled(
                old(points)@[0].y as int,
                old(points)@[3].y as int,
                scale_y as int,
            ),
            final(points)@[3].x == old(points)@[3].x,
            final(points)@[3].y == final(points)@[2].y,
    {
        let p0 = points[0];
        let p1 = points[1];
        let p2 = points[2];
        let p3 = points[3];
        let current_width: i64 = p1.x - p0.x;
        let current_height: i64 = p3.y - p0.y;
        proof {
            crate::shape::lemma_mul_range(current_width as int, scale_x as int);
            crate::shape::lemma_mul_range(current_height as int, scale_y as int);
        }
        let scaled_width: i64 = p0.x + crate::shape::q16_div_exec(current_width * scale_x);
        let scaled_height: i64 = p0.y + crate::shape::q16_div_exec(current_height * scale_y);
        let mut out: Vec<Point> = Vec::new();
        out.push(p0);
        out.push(Point { x: scaled_width, y: p1.y });
        out.push(Point { x: scaled_width, y: scaled_height });
        out.push(Point { x: p3.x, y: scaled_height });
        *points = out;
    }
}

} // verus!
