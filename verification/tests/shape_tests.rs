use geoshaper::image_utils::Color;
use geoshaper::rectangle::Rectangle;
use geoshaper::shape::{Point, Polygon, Shapes};
use geoshaper::triangle::Triangle;
use geoshaper::COORD_ONE;

fn px(v: i64) -> i64 {
    v * COORD_ONE
}

fn test_polygon(points: Vec<Point>, range_x: i64, range_y: i64, shape: Shapes) -> Polygon {
    Polygon {
        points,
        range_x,
        range_y,
        shape,
        fill_color: Color { r: 255, g: 255, b: 255, a: 255 },
    }
}

#[test]
fn should_rotate_rectangle() {}

#[test]
fn rectangle_should_be_within_range() {
    let points = Rectangle::new(px(512), px(512));
    for point in &points {
        assert!(point.x < px(512));
        assert!(point.y < px(512));
    }
}

#[test]
fn should_scale() {
    let p0 = Point { x: px(0), y: px(0) };
    let p1 = Point { x: px(5), y: px(0) };
    let p2 = Point { x: px(5), y: px(5) };
    let p3 = Point { x: px(0), y: px(5) };
    let mut points = vec![p0, p1, p2, p3];
    Rectangle::scale(&mut points, 2 * COORD_ONE, 2 * COORD_ONE);
    // should remain the same
    assert!(points[0].x == px(0));
    assert!(points[0].y == px(0));
    // x should change
    assert!(points[1].x == px(10));
    assert!(points[1].y == px(0));
    // both should change
    assert!(points[2].x == px(10));
    assert!(points[2].y == px(10));
    // y should change
    assert!(points[3].x == px(0));
    assert!(points[3].y == px(10));
}

#[test]
fn triangle_should_be_within_range() {
    let points = Triangle::new(px(512), px(512));
    for point in &points {
        assert!(point.x < px(512));
        assert!(point.y < px(512));
    }
}

#[test]
fn clamp_moves_every_point_inside_the_canvas() {
    let mut polygon = test_polygon(
        vec![
            Point { x: -px(3), y: px(2) },
            Point { x: px(20), y: -px(1) },
            Point { x: px(4), y: px(99) },
        ],
        px(10),
        px(10),
        Shapes::Triangle,
    );
    polygon.clamp_values();
    for point in &polygon.points {
        assert!(0 <= point.x && point.x < px(10));
        assert!(0 <= point.y && point.y < px(10));
    }
    // low coordinates land on zero, high ones one pixel inside the edge
    assert_eq!(polygon.points[0], Point { x: 0, y: px(2) });
    assert_eq!(polygon.points[1], Point { x: px(9), y: 0 });
    assert_eq!(polygon.points[2], Point { x: px(4), y: px(9) });
}

#[test]
fn rotate_by_zero_and_full_turn_keep_points() {
    let square = vec![
        Point { x: px(2), y: px(2) },
        Point { x: px(6), y: px(2) },
        Point { x: px(6), y: px(6) },
        Point { x: px(2), y: px(6) },
    ];
    let mut polygon = test_polygon(square.clone(), px(10), px(10), Shapes::Rectangle);
    polygon.rotate(0);
    assert_eq!(polygon.points, square);
    polygon.rotate(360);
    assert_eq!(polygon.points, square);
}

#[test]
fn rotate_quarter_turn_maps_square_onto_itself() {
    let mut polygon = test_polygon(
        vec![
            Point { x: px(2), y: px(2) },
            Point { x: px(6), y: px(2) },
            Point { x: px(6), y: px(6) },
            Point { x: px(2), y: px(6) },
        ],
        px(10),
        px(10),
        Shapes::Rectangle,
    );
    polygon.rotate(90);
    assert_eq!(polygon.points[0], Point { x: px(6), y: px(2) });
    assert_eq!(polygon.points[1], Point { x: px(6), y: px(6) });
    assert_eq!(polygon.points[2], Point { x: px(2), y: px(6) });
    assert_eq!(polygon.points[3], Point { x: px(2), y: px(2) });
}

#[test]
fn scale_by_one_keeps_the_bounding_box() {
    let square = vec![
        Point { x: px(1), y: px(1) },
        Point { x: px(6), y: px(1) },
        Point { x: px(6), y: px(6) },
        Point { x: px(1), y: px(6) },
    ];
    let mut polygon = test_polygon(square.clone(), px(20), px(20), Shapes::Rectangle);
    polygon.scale(COORD_ONE, COORD_ONE);
    assert_eq!(polygon.points, square);
}

#[test]
fn scale_doubles_only_the_width_from_the_anchor() {
    let mut polygon = test_polygon(
        vec![
            Point { x: px(0), y: px(0) },
            Point { x: px(5), y: px(0) },
            Point { x: px(5), y: px(5) },
            Point { x: px(0), y: px(5) },
        ],
        px(20),
        px(20),
        Shapes::Rectangle,
    );
    polygon.scale(2 * COORD_ONE, COORD_ONE);
    assert_eq!(polygon.points[0], Point { x: px(0), y: px(0) });
    assert_eq!(polygon.points[1], Point { x: px(10), y: px(0) });
    assert_eq!(polygon.points[2], Point { x: px(10), y: px(5) });
    assert_eq!(polygon.points[3], Point { x: px(0), y: px(5) });
}

#[test]
fn scale_is_a_no_op_for_triangles() {
    let corners = vec![
        Point { x: px(1), y: px(1) },
        Point { x: px(4), y: px(2) },
        Point { x: px(2), y: px(5) },
    ];
    let mut polygon = test_polygon(corners.clone(), px(10), px(10), Shapes::Triangle);
    polygon.scale(2 * COORD_ONE, 2 * COORD_ONE);
    assert_eq!(polygon.points, corners);
}

#[test]
fn bounds_of_a_non_degenerate_point_set() {
    let polygon = test_polygon(
        vec![Point { x: px(0), y: px(0) }, Point { x: px(10), y: px(10) }],
        px(16),
        px(16),
        Shapes::Rectangle,
    );
    let bounds = polygon.get_bounds();
    assert_eq!(bounds[0], Point { x: px(0), y: px(0) });
    assert_eq!(bounds[1], Point { x: px(10), y: px(10) });
}

#[test]
fn bounds_seed_from_the_first_point() {
    // a polygon that sits entirely past the origin
    let polygon = test_polygon(
        vec![
            Point { x: px(5), y: px(7) },
            Point { x: px(9), y: px(3) },
            Point { x: px(6), y: px(8) },
        ],
        px(16),
        px(16),
        Shapes::Triangle,
    );
    let bounds = polygon.get_bounds();
    assert_eq!(bounds[0], Point { x: px(5), y: px(3) });
    assert_eq!(bounds[1], Point { x: px(9), y: px(8) });
}

#[test]
fn polygon_new_respects_kind_and_canvas() {
    let rect = Polygon::new(Shapes::Rectangle, px(64), px(64));
    assert_eq!(rect.points.len(), 4);
    for point in &rect.points {
        assert!(0 <= point.x && point.x < px(64));
        assert!(0 <= point.y && point.y < px(64));
    }
    let tri = Polygon::new(Shapes::Triangle, px(64), px(64));
    assert_eq!(tri.points.len(), 3);
    for point in &tri.points {
        assert!(0 <= point.x && point.x < px(64));
        assert!(0 <= point.y && point.y < px(64));
    }
}

#[test]
fn triangle_corners_stay_within_one_tile_span() {
    let points = Triangle::new(px(512), px(512));
    for a in &points {
        for b in &points {
            assert!(a.x - b.x < px(512) / 4);
            assert!(a.y - b.y < px(512) / 4);
        }
    }
}

#[test]
fn duplicate_copies_every_field() {
    let polygon = Polygon::new(Shapes::Rectangle, px(32), px(32));
    let copy = polygon.duplicate();
    assert_eq!(copy.points, polygon.points);
    assert_eq!(copy.range_x, polygon.range_x);
    assert_eq!(copy.range_y, polygon.range_y);
    assert_eq!(copy.fill_color, polygon.fill_color);
}

#[test]
fn triangle_corners_share_one_grid_tile() {
    let points = Triangle::new(px(512), px(512));
    let tile = px(512) / 4;
    let tx = points[0].x / tile;
    let ty = points[0].y / tile;
    for p in &points {
        assert!(p.x / tile == tx);
        assert!(p.y / tile == ty);
    }
}
