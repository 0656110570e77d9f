use geoshaper::image_utils::{
    check_bounds, get_average_color, get_average_color_from_area, image_area_diff, image_diff,
    rgba_to_str, Color, PixelImage,
};
use geoshaper::error::GeoError;
use geoshaper::shape::Point;
use geoshaper::COORD_ONE;

fn px(v: i64) -> i64 {
    v * COORD_ONE
}

fn gray(v: u8) -> Color {
    Color { r: v, g: v, b: v, a: 255 }
}

fn solid(width: u32, height: u32, c: Color) -> PixelImage {
    PixelImage { width, height, pixels: vec![c; (width * height) as usize] }
}

fn gradient(width: u32, height: u32) -> PixelImage {
    let mut pixels = Vec::new();
    for y in 0..height {
        for x in 0..width {
            pixels.push(gray(((x + 3 * y) % 256) as u8));
        }
    }
    PixelImage { width, height, pixels }
}

#[test]
fn test_image_diff() {
    let i = gradient(16, 16);
    let score = image_diff(&i, &i);
    assert_eq!(0, score);
}

#[test]
fn test_image_area_diff() {
    let i = gradient(16, 16);
    let bounds = [Point { x: px(0), y: px(0) }, Point { x: px(10), y: px(10) }];
    let score = image_area_diff(&i, &i, &bounds).unwrap();
    assert_eq!(0, score);
}

#[test]
fn image_diff_exact_value() {
    // one pixel, channel differences 3, 0 and 4: the mean squared error is
    // 25 and its root 5
    let a = solid(1, 1, Color { r: 3, g: 0, b: 4, a: 255 });
    let b = solid(1, 1, Color { r: 0, g: 0, b: 0, a: 255 });
    assert_eq!(5, image_diff(&a, &b));
}

#[test]
fn windowed_diff_sees_only_the_window() {
    // images agree inside the window and differ outside it
    let a = gradient(8, 8);
    let mut b = gradient(8, 8);
    b.pixels[63] = gray(200);
    let bounds = [Point { x: px(0), y: px(0) }, Point { x: px(4), y: px(4) }];
    assert_eq!(0, image_area_diff(&a, &b, &bounds).unwrap());
    assert!(image_diff(&a, &b) > 0);
}

#[test]
fn windowed_diff_rejects_degenerate_bounds() {
    let i = gradient(8, 8);
    let empty = [Point { x: px(3), y: px(3) }, Point { x: px(3), y: px(3) }];
    let r = image_area_diff(&i, &i, &empty);
    assert!(matches!(r, Err(GeoError::Config)));
}

#[test]
fn average_color_of_known_pixels() {
    let pixels = vec![
        Color { r: 10, g: 20, b: 30, a: 255 },
        Color { r: 20, g: 30, b: 40, a: 255 },
        Color { r: 30, g: 40, b: 50, a: 255 },
        Color { r: 40, g: 50, b: 60, a: 255 },
    ];
    let img = PixelImage { width: 2, height: 2, pixels };
    let avg = get_average_color(&img);
    assert_eq!(avg, Color { r: 25, g: 35, b: 45, a: 255 });
}

#[test]
fn average_color_over_area() {
    let mut img = solid(4, 4, gray(0));
    // paint the top-left 2x2 window white
    for y in 0..2 {
        for x in 0..2 {
            img.pixels[(y * 4 + x) as usize] = gray(255);
        }
    }
    let window = [Point { x: px(0), y: px(0) }, Point { x: px(2), y: px(2) }];
    let avg = get_average_color_from_area(&img, &window).unwrap();
    assert_eq!(avg, gray(255));
    let whole = [Point { x: px(0), y: px(0) }, Point { x: px(4), y: px(4) }];
    let avg = get_average_color_from_area(&img, &whole).unwrap();
    // 4 white pixels of 16: each channel (4 * 255) / 16
    assert_eq!(avg, Color { r: 63, g: 63, b: 63, a: 255 });
}

#[test]
fn average_color_over_empty_area_is_a_config_error() {
    let img = solid(4, 4, gray(7));
    let empty = [Point { x: px(1), y: px(1) }, Point { x: px(1), y: px(3) }];
    let r = get_average_color_from_area(&img, &empty);
    assert!(matches!(r, Err(GeoError::Config)));
}

#[test]
fn check_bounds_requires_a_whole_pixel_per_axis() {
    let good = [Point { x: px(1), y: px(1) }, Point { x: px(3), y: px(2) }];
    assert!(check_bounds(&good));
    let thin = [Point { x: px(1), y: px(1) }, Point { x: px(1) + 5, y: px(4) }];
    assert!(!check_bounds(&thin));
}

#[test]
fn rgba_to_str_renders_decimal_triples() {
    assert_eq!("12,34,56", rgba_to_str(&Color { r: 12, g: 34, b: 56, a: 255 }));
    assert_eq!("0,0,0", rgba_to_str(&Color { r: 0, g: 0, b: 0, a: 0 }));
    assert_eq!("255,255,255", rgba_to_str(&Color { r: 255, g: 255, b: 255, a: 255 }));
    assert_eq!("7,100,199", rgba_to_str(&Color { r: 7, g: 100, b: 199, a: 1 }));
}

#[test]
fn error_messages_name_their_failure() {
    assert!(GeoError::Decode.message().contains("decode"));
    assert!(GeoError::Render.message().contains("rasterize"));
    assert!(GeoError::Io.message().contains("write"));
    assert!(GeoError::Config.message().contains("bounds"));
}
