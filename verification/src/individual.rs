use vstd::prelude::*;

use crate::error::GeoError;
use crate::image_utils::{
    get_average_color_from_area, image_area_diff, image_diff, is_area_rms, is_window_rms,
    spec_area_avg, spec_window_nonempty, Color, PixelImage,
};
use crate::random::{random_below, random_range_i64};
use crate::shape::{is_bounds, lemma_bounds_unique, rotate_rel, same_polygon, scale_rel, Point,
    Polygon};
use crate::{COORD_ONE, MAX_CANVAS};

verus! {

/// The least random scale factor a mutation draws: half the unit.
pub const SCALE_LO: i64 = 32768;

/// One past the greatest random scale factor a mutation draws: twice the
/// unit.
pub const SCALE_HI: i64 = 2 * 65536;

/// The fitness handed to a candidate that could not be scored, so that it
/// can never win a generation.
pub const PENALTY_FITNESS: u64 = 18446744073709551615;

/// The evolving approximation: the accepted polygons in paint order over a
/// background of the target's average color, with the canvas extents and a
/// generation id.
#[derive(Debug)]
pub struct GImage {
    pub polygons: Vec<Polygon>,
    pub id: u32,
    pub width: u32,
    pub height: u32,
    pub avg_color: Color,
}

impl GImage {
    /// The canvas spans at least one pixel per axis within the canvas
    /// limit, and every accepted polygon is well-formed on this canvas.
    pub open spec fn wf(&self) -> bool {
        &&& 1 <= self.width <= MAX_CANVAS
        &&& 1 <= self.height <= MAX_CANVAS
        &&& forall|i: int|
            0 <= i < self.polygons@.len() ==> {
                &&& (#[trigger] self.polygons@[i]).wf()
                &&& self.polygons@[i].range_x == self.width * COORD_ONE
                &&& self.polygons@[i].range_y == self.height * COORD_ONE
            }
    }

    /// A fresh approximation with no polygons yet.
    pub fn new(id: u32, avg_color: Color, width: u32, height: u32) -> (r: GImage)
        requires
            1 <= width <= MAX_CANVAS,
            1 <= height <= MAX_CANVAS,
        ensures
            r.wf(),
            r.polygons@.len() == 0,
            r.id == id,
            r.width == width,
            r.height == height,
            r.avg_color == avg_color,
    {
        GImage { polygons: Vec::new(), id, width, height, avg_color }
    }

    /// The generation id of this image.
    pub fn id(&self) -> (r: u32)
        ensures
            r == self.id,
    {
        self.id
    }

    /// The bounding box of the polygon added last: the window a mutation
    /// may have changed.
    pub fn mutation_area(&self) -> (b: [Point; 2])
        requires
            self.polygons@.len() >= 1,
            self.polygons@.last().points@.len() >= 1,
        ensures
            is_bounds(self.polygons@.last().points@, b@),
    {
        let last = self.polygons.len() - 1;
        self.polygons[last].get_bounds()
    }

    /// A copy of the polygon added last.
    pub fn get_last_polygon(&self) -> (r: Polygon)
        requires
            self.polygons@.len() >= 1,
        ensures
            same_polygon(r, self.polygons@.last()),
    {
        let last = self.polygons.len() - 1;
        self.polygons[last].duplicate()
    }

    /// Appends an accepted polygon; everything else stays.
    pub fn add_polygon(&mut self, polygon: Polygon)
        ensures
            final(self).polygons@ == old(self).polygons@.push(polygon),
            final(self).id == old(self).id,
            final(self).width == old(self).width,
            final(self).height == old(self).height,
            final(self).avg_color == old(self).avg_color,
    {
        self.polygons.push(polygon);
    }

    fn clone_polygons(&self) -> (r: Vec<Polygon>)
        ensures
            r@.len() == self.polygons@.len(),
            forall|i: int|
                0 <= i < r@.len() ==> same_polygon(#[trigger] r@[i], self.polygons@[i]),
    {
        let n = self.polygons.len();
        let mut out: Vec<Polygon> = Vec::new();
        let mut i: usize = 0;
        while i < n
            invariant
                n == self.polygons@.len(),
                i <= n,
                out@.len() == i,
                forall|k: int|
                    0 <= k < i ==> same_polygon(#[trigger] out@[k], self.polygons@[k]),
            decreases n - i,
        {
            out.push(self.polygons[i].duplicate());
            i = i + 1;
        }
        out
    }

    /// Derives one candidate from this image: the template polygon is
    /// filled with the target's average color over the template's own
    /// bounding box, stretched by random factors in `[SCALE_LO, SCALE_HI)`,
    /// turned by a random angle up to a quarter turn and clamped, and the
    /// result is appended to a copy of the accepted list under the new id.
    /// A template whose bounding box covers no whole pixel of the target is
    /// a configuration error.
    pub fn mutate(&self, target: &PixelImage, candidate: Polygon, new_id: u32) -> (r: Result<
        GImage,
        GeoError,
    >)
        requires
            self.wf(),
            target.wf(),
            target.width == self.width,
            target.height == self.height,
            candidate.wf(),
            candidate.range_x == self.width * COORD_ONE,
            candidate.range_y == self.height * COORD_ONE,
        ensures
            forall|b: Seq<Point>|
                is_bounds(candidate.points@, b) ==> (r is Ok <==> spec_window_nonempty(
                    b,
                    *target,
                )),
            r matches Err(e) ==> e is Config,
            r matches Ok(g) ==> {
                &&& g.wf()
                &&& g.id == new_id
                &&& g.width == self.width
                &&& g.height == self.height
                &&& g.avg_color == self.avg_color
                &&& g.polygons@.len() == self.polygons@.len() + 1
                &&& g.polygons@.last().shape == candidate.shape
                &&& g.polygons@.last().range_x == candidate.range_x
                &&& g.polygons@.last().range_y == candidate.range_y
                &&& forall|i: int|
                    0 <= i < self.polygons@.len() ==> same_polygon(
                        #[trigger] g.polygons@[i],
                        self.polygons@[i],
                    )
                &&& forall|b: Seq<Point>|
                    is_bounds(candidate.points@, b) ==> g.polygons@.last().fill_color
                        == spec_area_avg(*target, b)
                &&& exists|sx: i64, sy: i64, ang: u32, pre: Polygon, mid: Polygon|
                    #![auto]
                    {
                        &&& SCALE_LO <= sx < SCALE_HI
                        &&& SCALE_LO <= sy < SCALE_HI
                        &&& ang < 91
                        &&& pre.points@ == candidate.points@
                        &&& pre.range_x == candidate.range_x
                        &&& pre.range_y == candidate.range_y
                        &&& pre.shape == candidate.shape
                        &&& pre.fill_color == g.polygons@.last().fill_color
                        &&& scale_rel(pre, mid, sx, sy)
                        &&& rotate_rel(mid, g.polygons@.last(), ang)
                    }
            },
    {
        let ghost orig = candidate;
        let mut candidate = candidate;
        let bounds = candidate.get_bounds();
        let fill_color = match get_average_color_from_area(target, &bounds) {
            Ok(c) => c,
            Err(_) => {
                proof {
                    assert forall|b: Seq<Point>|
                        is_bounds(candidate.points@, b) implies !spec_window_nonempty(
                        b,
                        *target,
                    ) by {
                        lemma_bounds_unique(candidate.points@, b, bounds@);
                    }
                }
                return Err(GeoError::Config);
            },
        };
        candidate.set_fill_color(fill_color);
        let ghost colored = candidate;
        let scale_x: i64 = random_range_i64(SCALE_LO, SCALE_HI);
        let scale_y: i64 = random_range_i64(SCALE_LO, SCALE_HI);
        candidate.scale(scale_x, scale_y);
        let ghost mid = candidate;
        let angle: u32 = random_below(91) as u32;
        candidate.rotate(angle);
        let mut v = self.clone_polygons();
        v.push(candidate);
        let g = GImage {
            polygons: v,
            id: new_id,
            width: self.width,
            height: self.height,
            avg_color: self.avg_color,
        };
        proof {
            assert forall|b: Seq<Point>|
                is_bounds(colored.points@, b) implies spec_window_nonempty(b, *target) by {
                lemma_bounds_unique(colored.points@, b, bounds@);
            }
            assert forall|b: Seq<Point>|
                is_bounds(colored.points@, b) implies g.polygons@.last().fill_color
                == spec_area_avg(*target, b) by {
                lemma_bounds_unique(colored.points@, b, bounds@);
            }
            assert(scale_rel(colored, mid, scale_x, scale_y));
            assert(rotate_rel(mid, g.polygons@.last(), angle));
            assert(colored.points@ == orig.points@ && colored.range_x == orig.range_x
                && colored.range_y == orig.range_y && colored.shape == orig.shape
                && colored.fill_color == g.polygons@.last().fill_color);
        }
        Ok(g)
    }

    /// The windowed fitness of this candidate against the target, given the
    /// raster a renderer produced for it: the root-mean-square color
    /// distance over the last polygon's bounding box.  A candidate whose
    /// raster failed, or whose window covers no pixel, is handed the
    /// penalty fitness and cannot win.
    pub fn fitness_mutation(&self, target: &PixelImage, raster: Option<&PixelImage>) -> (f: u64)
        requires
            self.wf(),
            self.polygons@.len() >= 1,
            target.wf(),
            target.width == self.width,
            target.height == self.height,
            raster matches Some(im) ==> im.wf() && im.width == self.width && im.height
                == self.height,
        ensures
            raster is None ==> f == PENALTY_FITNESS,
            raster matches Some(im) ==> forall|b: Seq<Point>|
                is_bounds(self.polygons@.last().points@, b) ==> {
                    &&& spec_window_nonempty(b, *target) ==> is_area_rms(
                        *target,
                        *im,
                        b,
                        f as int,
                    )
                    &&& !spec_window_nonempty(b, *target) ==> f == PENALTY_FITNESS
                },
    {
        match raster {
            None => PENALTY_FITNESS,
            Some(im) => {
                let area = self.mutation_area();
                let f = match image_area_diff(target, im, &area) {
                    Ok(d) => d,
                    Err(_) => PENALTY_FITNESS,
                };
                proof {
                    assert forall|b: Seq<Point>|
                        is_bounds(self.polygons@.last().points@, b) implies b == area@ by {
                        lemma_bounds_unique(self.polygons@.last().points@, b, area@);
                        assert(b =~= area@);
                    }
                }
                f
            },
        }
    }

    /// The full-image fitness of this image against the target, given its
    /// raster: the root-mean-square color distance over the whole canvas.
    pub fn fitness_full(&self, target: &PixelImage, raster: &PixelImage) -> (f: u64)
        requires
            self.wf(),
            target.wf(),
            target.width == self.width,
            target.height == self.height,
            raster.wf(),
            raster.width == self.width,
            raster.height == self.height,
        ensures
            is_window_rms(
                *target,
                *raster,
                0,
                target.width as int,
                0,
                target.height as int,
                f as int,
            ),
            target.pixels@ == raster.pixels@ ==> f == 0,
    {
        image_diff(target, raster)
    }
}

} // verus!
