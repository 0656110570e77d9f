use geoshaper::image_utils::{image_diff, Color, PixelImage};
use geoshaper::individual::{GImage, PENALTY_FITNESS};
use geoshaper::shape::{Polygon, Shapes};
use geoshaper::simulation::{parse_shape, BestRecord, Options, Simulation};
use geoshaper::COORD_ONE;

fn solid(width: u32, height: u32, c: Color) -> PixelImage {
    PixelImage { width, height, pixels: vec![c; (width * height) as usize] }
}

fn black() -> Color {
    Color { r: 0, g: 0, b: 0, a: 0 }
}

#[test]
fn should_add_polygon() {
    let (width, height) = (1, 1);
    let mut g_img = GImage::new(1, black(), width, height);
    let (width, height) = (COORD_ONE, COORD_ONE);
    let polygon = Polygon::new(Shapes::Rectangle, width, height);
    g_img.add_polygon(polygon);
    assert!(g_img.polygons.len() == 1);
}

#[test]
fn shoud_return_last_polygon() {
    let (width, height) = (1, 1);
    let mut g_img = GImage::new(1, black(), width, height);
    let (width, height) = (COORD_ONE, COORD_ONE);
    let polygon_1 = Polygon::new(Shapes::Rectangle, width, height);
    g_img.add_polygon(polygon_1.clone());
    assert!(g_img.get_last_polygon().points == polygon_1.points);
    // polygon should still be there
    assert!(g_img.polygons.len() == 1);
    let polygon_2 = Polygon::new(Shapes::Rectangle, width, height);
    g_img.add_polygon(polygon_2.clone());
    assert!(g_img.polygons.len() == 2);
    assert!(g_img.get_last_polygon().points == polygon_2.points);
}

#[test]
fn should_mutate() {
    let (width, height) = (128, 128);
    let target = solid(width, height, Color { r: 40, g: 80, b: 120, a: 255 });
    let mut g_img = GImage::new(1, black(), width, height);
    let (width, height) = (128 * COORD_ONE, 128 * COORD_ONE);
    let polygon = Polygon::new(Shapes::Rectangle, width, height);
    let mutation = g_img.mutate(&target, polygon.clone(), 2).unwrap();
    // should contain the mutation
    assert!(mutation.polygons.len() == 1);
    // should not have changed
    assert!(g_img.polygons.len() == 0);
    // should integrate mutation
    g_img.add_polygon(mutation.get_last_polygon());
    assert!(g_img.polygons.len() == 1);
    // mutate again
    let polygon = Polygon::new(Shapes::Rectangle, width, height);
    let mutation = g_img.mutate(&target, polygon.clone(), 3).unwrap();
    assert!(mutation.polygons.len() == 2);
    // integrate again
    g_img.add_polygon(mutation.get_last_polygon());
    assert!(g_img.polygons.len() == 2);
}

#[test]
fn mutation_fill_is_the_window_average() {
    let fill = Color { r: 40, g: 80, b: 120, a: 255 };
    let target = solid(64, 64, fill);
    let g_img = GImage::new(1, black(), 64, 64);
    let polygon = Polygon::new(Shapes::Rectangle, 64 * COORD_ONE, 64 * COORD_ONE);
    let mutation = g_img.mutate(&target, polygon, 2).unwrap();
    assert_eq!(mutation.polygons[0].fill_color, fill);
}

#[test]
fn fitness_of_perfect_raster_is_zero_and_of_no_raster_the_penalty() {
    let target = solid(64, 64, Color { r: 10, g: 20, b: 30, a: 255 });
    let g_img = GImage::new(1, black(), 64, 64);
    let polygon = Polygon::new(Shapes::Rectangle, 64 * COORD_ONE, 64 * COORD_ONE);
    let mutation = g_img.mutate(&target, polygon, 2).unwrap();
    assert_eq!(0, mutation.fitness_mutation(&target, Some(&target)));
    assert_eq!(PENALTY_FITNESS, mutation.fitness_mutation(&target, None));
    assert_eq!(0, mutation.fitness_full(&target, &target));
}

#[test]
fn default_options() {
    let o = Options::default();
    assert_eq!(o.pop_size, 100);
    assert_eq!(o.shape, "rectangle");
    assert_eq!(o.max_iter, 200);
    assert_eq!(o.num_genes, 100);
    assert!(!o.render_debug_rasters);
}

#[test]
fn parse_shape_falls_back_to_rectangle() {
    assert!(matches!(parse_shape(&"triangle".to_string()), Shapes::Triangle));
    assert!(matches!(parse_shape(&"rectangle".to_string()), Shapes::Rectangle));
    assert!(matches!(parse_shape(&"hexagon".to_string()), Shapes::Rectangle));
}

#[test]
fn best_record_keeps_only_strict_improvements() {
    let mut record = BestRecord::new();
    record.submit(5, 1);
    assert_eq!(record.fitness, 5);
    assert_eq!(record.id, 1);
    // an equal fitness does not take the record over
    record.submit(5, 2);
    assert_eq!(record.fitness, 5);
    assert_eq!(record.id, 1);
    record.submit(4, 3);
    assert_eq!(record.fitness, 4);
    assert_eq!(record.id, 3);
}

#[test]
fn tied_submissions_agree_on_the_fitness_in_either_order() {
    let mut first = BestRecord::new();
    first.submit(7, 1);
    first.submit(7, 2);
    let mut second = BestRecord::new();
    second.submit(7, 2);
    second.submit(7, 1);
    // the recorded fitness is the tied value exactly, whatever the order
    assert_eq!(first.fitness, 7);
    assert_eq!(second.fitness, 7);
    // the id is the one whose write landed first
    assert_eq!(first.id, 1);
    assert_eq!(second.id, 2);
}

#[test]
fn polygon_count_grows_by_at_most_one_per_generation() {
    let target = solid(64, 64, Color { r: 200, g: 10, b: 10, a: 255 });
    let mut options = Options::default();
    options.max_iter = 3;
    options.num_genes = 2;
    let mut sim = Simulation::new(&target, &options);
    assert_eq!(sim.result.polygons.len(), 0);

    let candidates = sim.make_candidates(&target).unwrap();
    assert_eq!(candidates.len(), 2);
    let before = sim.result.polygons.len();
    // a rejected generation keeps the polygon count
    let accepted = sim.decide(&candidates[0], 10, 10);
    assert!(!accepted);
    assert_eq!(sim.result.polygons.len(), before);
    // an accepted generation adds exactly one polygon
    let candidates = sim.make_candidates(&target).unwrap();
    let accepted = sim.decide(&candidates[1], 3, 10);
    assert!(accepted);
    assert_eq!(sim.result.polygons.len(), before + 1);
}

#[test]
fn solid_red_target_never_gets_worse_than_its_background() {
    // a 2x2 canvas of pure red, one generation of one rectangle candidate
    let red = Color { r: 255, g: 0, b: 0, a: 255 };
    let target = solid(2, 2, red);
    let mut options = Options::default();
    options.max_iter = 1;
    options.num_genes = 1;
    let mut sim = Simulation::new(&target, &options);
    // the background fill is the average of a solid image: red itself
    assert_eq!(sim.result.avg_color, red);
    let initial_raster = solid(2, 2, sim.result.avg_color);
    let initial_distance = image_diff(&target, &initial_raster);
    while !sim.finished() {
        match sim.make_candidates(&target) {
            Ok(candidates) => {
                // every candidate is filled with the average color of a
                // window of the solid red target, so its raster is the
                // solid red canvas again
                let raster = solid(2, 2, red);
                let fitness = candidates[0].fitness_mutation(&target, Some(&raster));
                let current = sim.result.polygons.len();
                sim.decide(&candidates[0], fitness, fitness);
                assert!(sim.result.polygons.len() <= current + 1);
            }
            Err(_) => {
                // a degenerate candidate window aborts the generation and
                // leaves the accepted image as it stands
                break;
            }
        }
    }
    let result_raster = solid(2, 2, sim.result.avg_color);
    let final_distance = image_diff(&target, &result_raster);
    assert!(final_distance <= initial_distance);
}

#[test]
fn find_winner_locates_the_recorded_id() {
    let target = solid(64, 64, Color { r: 9, g: 9, b: 9, a: 255 });
    let mut options = Options::default();
    options.num_genes = 3;
    let sim = Simulation::new(&target, &options);
    let candidates = sim.make_candidates(&target).unwrap();
    assert_eq!(geoshaper::simulation::find_winner(&candidates, 2), Some(2));
    assert_eq!(geoshaper::simulation::find_winner(&candidates, 9), None);
}
