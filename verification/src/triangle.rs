use vstd::prelude::*;

use crate::random::{random_below, random_range_i64};
use crate::shape::{Point, MAX_RANGE};
use crate::COORD_ONE;

verus! {

/// The triangle kind: three independent random points inside one tile of a
/// four-by-four partition of the canvas, which keeps the triangle compact.
pub struct Triangle {}

impl Triangle {
    /// Draws a random triangle: a tile of the four-by-four grid is picked
    /// uniformly, and each corner is uniform inside that tile.  All three
    /// corners lie in that one grid-aligned tile, so they stay inside the
    /// canvas and within one tile span of each other.
    pub fn new(range_x: i64, range_y: i64) -> (points: Vec<Point>)
        requires
            COORD_ONE <= range_x <= MAX_RANGE,
            COORD_ONE <= range_y <= MAX_RANGE,
        ensures
            points@.len() == 3,
            forall|i: int|
                0 <= i < 3 ==> {
                    &&& 0 <= (#[trigger] points@[i]).x < range_x
                    &&& 0 <= points@[i].y < range_y
                },
            forall|i: int, j: int|
                0 <= i < 3 && 0 <= j < 3 ==> {
                    &&& (#[trigger] points@[i]).x - (#[trigger] points@[j]).x < range_x / 4
                    &&& points@[i].y - points@[j].y < range_y / 4
                },
            exists|tx: int, ty: int|
                #![trigger (range_x / 4) * tx, (range_y / 4) * ty]
                {
                    &&& 0 <= tx < 4
                    &&& 0 <= ty < 4
                    &&& forall|i: int|
                        0 <= i < 3 ==> {
                            &&& (range_x / 4) * tx <= (#[trigger] points@[i]).x < (range_x
                                / 4) * (tx + 1)
                            &&& (range_y / 4) * ty <= points@[i].y < (range_y / 4) * (ty + 1)
                        }
                },
    {
        let tile_size_x: i64 = range_x / 4;
        let tile_size_y: i64 = range_y / 4;
        let tile_x: i64 = random_below(4) as i64;
        let tile_y: i64 = random_below(4) as i64;
        proof {
            lemma_tile_origin(tile_size_x as int, tile_x as int, range_x as int);
            lemma_tile_origin(tile_size_y as int, tile_y as int, range_y as int);
        }
        let x0: i64 = tile_size_x * tile_x;
        let y0: i64 = tile_size_y * tile_y;
        let p1 = Point {
            x: random_range_i64(x0, x0 + tile_size_x),
            y: random_range_i64(y0, y0 + tile_size_y),
        };
        let p2 = Point {
            x: random_range_i64(x0, x0 + tile_size_x),
            y: random_range_i64(y0, y0 + tile_size_y),
        };
        let p3 = Point {
            x: random_range_i64(x0, x0 + tile_size_x),
            y: random_range_i64(y0, y0 + tile_size_y),
        };
        let mut points: Vec<Point> = Vec::new();
        points.push(p1);
        points.push(p2);
        points.push(p3);
        proof {
            let tx = tile_x as int;
            let ty = tile_y as int;
            assert((range_x / 4) * (tx + 1) == (range_x / 4) * tx + (range_x / 4))
                by (nonlinear_arith);
            assert((range_y / 4) * (ty + 1) == (range_y / 4) * ty + (range_y / 4))
                by (nonlinear_arith);
            assert(0 <= tx < 4 && 0 <= ty < 4 && (forall|i: int|
                0 <= i < 3 ==> {
                    &&& (range_x / 4) * tx <= (#[trigger] points@[i]).x < (range_x / 4) * (tx
                        + 1)
                    &&& (range_y / 4) * ty <= points@[i].y < (range_y / 4) * (ty + 1)
                }));
        }
        points
    }
}

/// A tile origin lies inside the canvas with room for one whole tile.
proof fn lemma_tile_origin(tile: int, idx: int, range: int)
    requires
        tile == range / 4,
        0 <= idx < 4,
        4 <= range,
    ensures
        0 <= tile * idx,
        tile * idx + tile <= range,
{
    assert(0 <= tile * idx && tile * idx <= tile * 3) by (nonlinear_arith)
        requires
            0 <= idx < 4,
            0 <= tile,
    ;
}

} // verus!
