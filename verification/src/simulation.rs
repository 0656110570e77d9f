use vstd::prelude::*;

use crate::error::GeoError;
use crate::image_utils::{get_average_color, spec_window_avg, PixelImage};
use crate::individual::{GImage, PENALTY_FITNESS};
use crate::shape::{is_bounds, rect_corners, same_polygon, Polygon, Shapes};
use crate::{coord_of_pixels, COORD_ONE};

verus! {

/// The configuration surface of a run.
#[derive(Debug)]
pub struct Options {
    pub pop_size: u32,
    pub shape: String,
    pub max_iter: u32,
    pub num_genes: u32,
    pub render_debug_rasters: bool,
}

impl Default for Options {
    /// Two hundred generations of one hundred rectangle candidates, with
    /// debug rasters off.
    fn default() -> (r: Self)
        ensures
            r.pop_size == 100,
            r.shape@ == "rectangle"@,
            r.max_iter == 200,
            r.num_genes == 100,
            r.render_debug_rasters == false,
    {
        Options {
            pop_size: 100,
            shape: String::from_str("rectangle"),
            max_iter: 200,
            num_genes: 100,
            render_debug_rasters: false,
        }
    }
}

/// The shape kind an option string names; anything but `triangle` falls
/// back to the rectangle.
pub fn parse_shape(s: &String) -> (r: Shapes)
    ensures
        r == (if s@ == "triangle"@ {
            Shapes::Triangle
        } else {
            Shapes::Rectangle
        }),
{
    let t = String::from_str("triangle");
    if *s == t {
        Shapes::Triangle
    } else {
        Shapes::Rectangle
    }
}

/// The shared best-fitness record of one generation, written by every
/// worker under mutual exclusion.
#[derive(Clone, Copy, PartialEq, Eq, Structural, Debug)]
pub struct BestRecord {
    pub fitness: u64,
    pub id: u32,
}

impl BestRecord {
    /// A fresh record: no candidate has been seen, so the fitness sits at
    /// the penalty value that no scored candidate can lose to.
    pub fn new() -> (r: BestRecord)
        ensures
            r.fitness == PENALTY_FITNESS,
            r.id == 0,
    {
        BestRecord { fitness: PENALTY_FITNESS, id: 0 }
    }

    /// What one submission does to the record: a strictly better fitness
    /// takes it over, anything else leaves it alone.
    pub open spec fn spec_submit(pre: BestRecord, fitness: u64, id: u32) -> BestRecord {
        if fitness < pre.fitness {
            BestRecord { fitness, id }
        } else {
            pre
        }
    }

    /// One worker's write: the record is taken over only by a strictly
    /// better fitness.
    pub fn submit(&mut self, fitness: u64, id: u32)
        ensures
            *final(self) == BestRecord::spec_submit(*old(self), fitness, id),
    {
        if fitness < self.fitness {
            self.fitness = fitness;
            self.id = id;
        }
    }

    /// Every write of one generation folded into the record, in the order
    /// the workers landed.
    pub open spec fn spec_submit_all(pre: BestRecord, s: Seq<(u64, u32)>) -> BestRecord
        decreases s.len(),
    {
        if s.len() == 0 {
            pre
        } else {
            BestRecord::spec_submit(
                BestRecord::spec_submit_all(pre, s.drop_last()),
                s.last().0,
                s.last().1,
            )
        }
    }

    /// The least fitness among the record's and every submitted one.
    pub open spec fn spec_min_fitness(pre: u64, s: Seq<(u64, u32)>) -> u64
        decreases s.len(),
    {
        if s.len() == 0 {
            pre
        } else {
            let m = BestRecord::spec_min_fitness(pre, s.drop_last());
            if s.last().0 < m {
                s.last().0
            } else {
                m
            }
        }
    }

    /// However a generation's workers interleave, once every write has
    /// landed the record holds the least fitness that was submitted, or its
    /// starting value where nothing beat it: the fitness converges to the
    /// true minimum, though the winning id among exact ties depends on the
    /// order.
    pub proof fn lemma_record_reaches_minimum(pre: BestRecord, s: Seq<(u64, u32)>)
        ensures
            BestRecord::spec_submit_all(pre, s).fitness == BestRecord::spec_min_fitness(
                pre.fitness,
                s,
            ),
        decreases s.len(),
    {
        if s.len() == 0 {
        } else {
            BestRecord::lemma_record_reaches_minimum(pre, s.drop_last());
        }
    }

    /// Two candidates that tie for the minimum can land in either order:
    /// the record ends up holding that fitness exactly once either way, and
    /// the id of whichever strictly-improving write landed first.
    pub proof fn lemma_tied_submissions(pre: BestRecord, f: u64, id1: u32, id2: u32)
        requires
            f < pre.fitness,
        ensures
            BestRecord::spec_submit(BestRecord::spec_submit(pre, f, id1), f, id2)
                == (BestRecord { fitness: f, id: id1 }),
            BestRecord::spec_submit(BestRecord::spec_submit(pre, f, id2), f, id1)
                == (BestRecord { fitness: f, id: id2 }),
    {
    }
}

/// Locates the generation's winner: the index of the first candidate that
/// carries the best record's id, if any does.
pub fn find_winner(candidates: &Vec<GImage>, id: u32) -> (r: Option<usize>)
    ensures
        r matches Some(i) ==> i < candidates@.len() && candidates@[i as int].id == id,
        r is None ==> forall|i: int| 0 <= i < candidates@.len() ==> candidates@[i].id != id,
{
    let n = candidates.len();
    let mut i: usize = 0;
    while i < n
        invariant
            n == candidates@.len(),
            i <= n,
            forall|k: int| 0 <= k < i ==> candidates@[k].id != id,
        decreases n - i,
    {
        if candidates[i].id() == id {
            return Some(i);
        }
        i = i + 1;
    }
    None
}

/// The search orchestrator's state: the accepted image, the configured
/// kind and budgets, and how far the run has come.
#[derive(Debug)]
pub struct Simulation {
    pub result: GImage,
    pub shape: Shapes,
    pub max_iter: u32,
    pub num_genes: u32,
    pub render_debug_rasters: bool,
    pub generation: u32,
    pub evolutions: u32,
}

impl Simulation {
    /// The accepted image is well-formed, holds one polygon per accepted
    /// generation, and the run never passes its generation budget.
    pub open spec fn wf(&self) -> bool {
        &&& self.result.wf()
        &&& self.result.polygons@.len() == self.evolutions
        &&& self.evolutions <= self.generation <= self.max_iter
        &&& self.num_genes >= 1
    }

    /// Sets up generation zero: the background fill is the target's
    /// average color and no polygon has been accepted yet.
    pub fn new(target: &PixelImage, options: &Options) -> (r: Simulation)
        requires
            target.wf(),
            target.width >= 1,
            target.height >= 1,
            options.num_genes >= 1,
        ensures
            r.wf(),
            r.generation == 0,
            r.evolutions == 0,
            r.result.polygons@.len() == 0,
            r.result.width == target.width,
            r.result.height == target.height,
            r.result.avg_color == spec_window_avg(
                *target,
                0,
                target.width as int,
                0,
                target.height as int,
            ),
            r.max_iter == options.max_iter,
            r.num_genes == options.num_genes,
            r.render_debug_rasters == options.render_debug_rasters,
            r.shape == (if options.shape@ == "triangle"@ {
                Shapes::Triangle
            } else {
                Shapes::Rectangle
            }),
    {
        let avg_color = get_average_color(target);
        let result = GImage::new(1, avg_color, target.width, target.height);
        let shape = parse_shape(&options.shape);
        Simulation {
            result,
            shape,
            max_iter: options.max_iter,
            num_genes: options.num_genes,
            render_debug_rasters: options.render_debug_rasters,
            generation: 0,
            evolutions: 0,
        }
    }

    /// The run is over once the generation budget is spent.
    pub fn finished(&self) -> (r: bool)
        ensures
            r == (self.generation >= self.max_iter),
    {
        self.generation >= self.max_iter
    }

    /// Proposes one generation of candidates: a single fresh template
    /// polygon of the configured kind, mutated independently once per
    /// candidate slot, each candidate under its slot index as id.  A
    /// template whose bounding box covers no whole pixel of the target is a
    /// configuration error.
    pub fn make_candidates(&self, target: &PixelImage) -> (r: Result<Vec<GImage>, GeoError>)
        requires
            self.wf(),
            target.wf(),
            target.width == self.result.width,
            target.height == self.result.height,
        ensures
            (self.shape is Rectangle && self.result.width >= 8 && self.result.height >= 8)
                ==> r is Ok,
            r matches Err(e) ==> e is Config,
            r matches Ok(v) ==> {
                &&& v@.len() == self.num_genes
                &&& forall|j: int|
                    0 <= j < v@.len() ==> {
                        &&& (#[trigger] v@[j]).wf()
                        &&& v@[j].id == j
                        &&& v@[j].width == self.result.width
                        &&& v@[j].height == self.result.height
                        &&& v@[j].avg_color == self.result.avg_color
                        &&& v@[j].polygons@.len() == self.result.polygons@.len() + 1
                        &&& v@[j].polygons@.last().shape == self.shape
                        &&& forall|i: int|
                            0 <= i < self.result.polygons@.len() ==> same_polygon(
                                #[trigger] v@[j].polygons@[i],
                                self.result.polygons@[i],
                            )
                    }
            },
    {
        let range_x = coord_of_pixels(self.result.width);
        let range_y = coord_of_pixels(self.result.height);
        let template = Polygon::new(self.shape, range_x, range_y);
        proof {
            vstd::arithmetic::div_mod::lemma_div_pos_is_pos(template.range_x as int, 8);
            vstd::arithmetic::div_mod::lemma_div_pos_is_pos(template.range_y as int, 8);
            vstd::arithmetic::div_mod::lemma_div_nonincreasing(template.range_x as int, 8);
            vstd::arithmetic::div_mod::lemma_div_nonincreasing(template.range_y as int, 8);
        }
        let mut out: Vec<GImage> = Vec::new();
        let mut j: u32 = 0;
        while j < self.num_genes
            invariant
                self.wf(),
                target.wf(),
                target.width == self.result.width,
                target.height == self.result.height,
                template.wf(),
                template.range_x == self.result.width * COORD_ONE,
                template.range_y == self.result.height * COORD_ONE,
                self.shape is Rectangle ==> {
                    &&& rect_corners(template)
                    &&& template.points@[1].x == template.points@[0].x + template.range_x / 8
                    &&& template.points@[3].y == template.points@[0].y + template.range_y / 8
                },
                j <= self.num_genes,
                out@.len() == j,
                template.shape == self.shape,
                forall|k: int|
                    0 <= k < out@.len() ==> {
                        &&& (#[trigger] out@[k]).wf()
                        &&& out@[k].id == k
                        &&& out@[k].width == self.result.width
                        &&& out@[k].height == self.result.height
                        &&& out@[k].avg_color == self.result.avg_color
                        &&& out@[k].polygons@.len() == self.result.polygons@.len() + 1
                        &&& out@[k].polygons@.last().shape == self.shape
                        &&& forall|i: int|
                            0 <= i < self.result.polygons@.len() ==> same_polygon(
                                #[trigger] out@[k].polygons@[i],
                                self.result.polygons@[i],
                            )
                    },
            decreases self.num_genes - j,
        {
            let gene = match self.result.mutate(target, template.duplicate(), j) {
                Ok(g) => g,
                Err(e) => {
                    proof {
                        if self.shape is Rectangle && self.result.width >= 8
                            && self.result.height >= 8 {
                            let pts = template.points@;
                            let b = seq![pts[0], pts[2]];
                            assert(is_bounds(pts, b)) by {
                                assert(pts[0].x == b[0].x);
                                assert(pts[0].y == b[0].y);
                                assert(pts[2].x == b[1].x);
                                assert(pts[2].y == b[1].y);
                            }
                            vstd::arithmetic::div_mod::lemma_div_is_ordered(
                                8 * (COORD_ONE as int),
                                template.range_x as int,
                                8,
                            );
                            vstd::arithmetic::div_mod::lemma_div_is_ordered(
                                8 * (COORD_ONE as int),
                                template.range_y as int,
                                8,
                            );
                            vstd::arithmetic::div_mod::lemma_div_multiples_vanish(
                                COORD_ONE as int,
                                8,
                            );
                            crate::image_utils::lemma_window_spans_pixel(b, *target);
                        }
                    }
                    return Err(e);
                },
            };
            out.push(gene);
            j = j + 1;
        }
        Ok(out)
    }

    /// The accept/reject policy of one generation: the winner joins the
    /// accepted image exactly when the current approximation's windowed
    /// error is strictly worse than the winner's.  The polygon count never
    /// shrinks and grows by at most one per generation.
    pub fn decide(&mut self, winner: &GImage, best_fitness: u64, current_fitness: u64) -> (accepted:
        bool)
        requires
            old(self).wf(),
            old(self).generation < old(self).max_iter,
            winner.wf(),
            winner.width == old(self).result.width,
            winner.height == old(self).result.height,
            winner.polygons@.len() == old(self).result.polygons@.len() + 1,
        ensures
            final(self).wf(),
            accepted == (current_fitness > best_fitness),
            final(self).generation == old(self).generation + 1,
            final(self).evolutions == old(self).evolutions + (if accepted {
                1int
            } else {
                0int
            }),
            final(self).result.polygons@.len() == old(self).result.polygons@.len() + (
            if accepted {
                1int
            } else {
                0int
            }),
            forall|i: int|
                0 <= i < old(self).result.polygons@.len() ==> final(self).result.polygons@[i]
                    == old(self).result.polygons@[i],
            accepted ==> same_polygon(
                final(self).result.polygons@.last(),
                winner.polygons@.last(),
            ),
            !accepted ==> final(self).result.polygons@ == old(self).result.polygons@,
            final(self).result.id == old(self).result.id,
            final(self).result.width == old(self).result.width,
            final(self).result.height == old(self).result.height,
            final(self).result.avg_color == old(self).result.avg_color,
            final(self).shape == old(self).shape,
            final(self).max_iter == old(self).max_iter,
            final(self).num_genes == old(self).num_genes,
            final(self).render_debug_rasters == old(self).render_debug_rasters,
    {
        let accepted = current_fitness > best_fitness;
        if accepted {
            let p = winner.get_last_polygon();
            self.result.add_polygon(p);
            self.evolutions = self.evolutions + 1;
        }
        self.generation = self.generation + 1;
        accepted
    }
}

} // verus!
