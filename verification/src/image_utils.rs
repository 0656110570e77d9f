use vstd::prelude::*;

use crate::error::GeoError;
use crate::shape::Point;

verus! {

/// One RGBA color value, eight bits per channel.
#[derive(Clone, Copy, PartialEq, Eq, Structural, Debug)]
pub struct Color {
    pub r: u8,
    pub g: u8,
    pub b: u8,
    pub a: u8,
}

/// A decoded raster: a row-major pixel buffer of `width * height` colors.
pub struct PixelImage {
    pub width: u32,
    pub height: u32,
    pub pixels: Vec<Color>,
}

impl PixelImage {
    /// The buffer holds exactly one color per pixel, and each axis fits the
    /// canvas limit.
    pub open spec fn wf(&self) -> bool {
        &&& self.width <= crate::MAX_CANVAS
        &&& self.height <= crate::MAX_CANVAS
        &&& self.pixels@.len() == self.width * self.height
    }

    /// The number of pixels of the canvas.
    pub open spec fn pixel_count(&self) -> int {
        self.width * self.height
    }

    /// The color stored for the pixel at column `x`, row `y`.
    pub open spec fn spec_pixel(&self, x: int, y: int) -> Color {
        self.pixels@[y * self.width + x]
    }

    /// Reads the pixel at column `x`, row `y`.
    pub fn pixel(&self, x: u32, y: u32) -> (c: Color)
        requires
            self.wf(),
            x < self.width,
            y < self.height,
        ensures
            c == self.spec_pixel(x as int, y as int),
    {
        proof {
            lemma_row_major(x as int, y as int, self.width as int, self.height as int);
            assert((y as int) * (self.width as int) + (x as int) < 0x1_0000_0000)
                by (nonlinear_arith)
                requires
                    0 <= x as int,
                    (x as int) < (self.width as int),
                    self.width as int <= 65535,
                    0 <= y as int,
                    (y as int) < (self.height as int),
                    self.height as int <= 65535,
            ;
        }
        let idx: usize = (y as usize) * (self.width as usize) + (x as usize);
        self.pixels[idx]
    }
}

proof fn lemma_row_major(x: int, y: int, w: int, h: int)
    requires
        0 <= x < w,
        0 <= y < h,
    ensures
        0 <= y * w + x < w * h,
{
    assert(0 <= y * w + x < w * h) by (nonlinear_arith)
        requires
            0 <= x < w,
            0 <= y < h,
    ;
}

/// `r` is the integer square root of `n`.
pub open spec fn is_isqrt(n: int, r: int) -> bool {
    &&& 0 <= r
    &&& r * r <= n
    &&& n < (r + 1) * (r + 1)
}

fn isqrt(n: u64) -> (r: u64)
    requires
        n <= 0xFFFF_FFFF,
    ensures
        is_isqrt(n as int, r as int),
{
    let mut r: u64 = 0;
    let mut next_sq: u64 = 1;
    while next_sq <= n
        invariant
            n <= 0xFFFF_FFFF,
            r * r <= n,
            r <= 65535,
            next_sq == (r + 1) * (r + 1),
        decreases 65536 - r,
    {
        assert(r + 1 <= 65535) by (nonlinear_arith)
            requires
                (r + 1) * (r + 1) <= n,
                n < 0x1_0000_0000,
        ;
        r = r + 1;
        assert((r + 1) * (r + 1) == r * r + 2 * r + 1) by (nonlinear_arith);
        next_sq = next_sq + 2 * r + 1;
    }
    r
}


/// The square of an integer.
pub open spec fn sq(v: int) -> int {
    v * v
}

/// The squared color distance of two pixels: the sum of the squared
/// channel differences over red, green and blue; alpha is ignored.
pub open spec fn color_sq_diff(a: Color, b: Color) -> int {
    sq(a.r - b.r) + sq(a.g - b.g) + sq(a.b - b.b)
}

/// The squared color distance summed over rows `[y0, y1)` of column `x`.
pub open spec fn col_sq_total(a: PixelImage, b: PixelImage, x: int, y0: int, y1: int) -> int
    decreases y1 - y0,
{
    if y1 <= y0 {
        0
    } else {
        col_sq_total(a, b, x, y0, y1 - 1) + color_sq_diff(
            a.spec_pixel(x, y1 - 1),
            b.spec_pixel(x, y1 - 1),
        )
    }
}

/// The squared color distance summed over the window
/// `[x0, x1) x [y0, y1)`.
pub open spec fn window_sq_total(
    a: PixelImage,
    b: PixelImage,
    x0: int,
    x1: int,
    y0: int,
    y1: int,
) -> int
    decreases x1 - x0,
{
    if x1 <= x0 {
        0
    } else {
        window_sq_total(a, b, x0, x1 - 1, y0, y1) + col_sq_total(a, b, x1 - 1, y0, y1)
    }
}

/// One channel of a color, selected by index: red, green, then blue.
pub open spec fn chan(c: Color, ch: int) -> int {
    if ch == 0 {
        c.r as int
    } else if ch == 1 {
        c.g as int
    } else {
        c.b as int
    }
}

/// One channel summed over rows `[y0, y1)` of column `x`.
pub open spec fn col_chan_sum(img: PixelImage, ch: int, x: int, y0: int, y1: int) -> int
    decreases y1 - y0,
{
    if y1 <= y0 {
        0
    } else {
        col_chan_sum(img, ch, x, y0, y1 - 1) + chan(img.spec_pixel(x, y1 - 1), ch)
    }
}

/// One channel summed over the window `[x0, x1) x [y0, y1)`.
pub open spec fn window_chan_sum(
    img: PixelImage,
    ch: int,
    x0: int,
    x1: int,
    y0: int,
    y1: int,
) -> int
    decreases x1 - x0,
{
    if x1 <= x0 {
        0
    } else {
        window_chan_sum(img, ch, x0, x1 - 1, y0, y1) + col_chan_sum(img, ch, x1 - 1, y0, y1)
    }
}

proof fn lemma_sq_bound(d: int)
    requires
        -255 <= d <= 255,
    ensures
        0 <= sq(d) <= 65025,
{
    assert(0 <= d * d <= 65025) by (nonlinear_arith)
        requires
            -255 <= d <= 255,
    ;
}

/// The squared color distance of two pixels is at most `3 * 255 * 255`.
proof fn lemma_color_sq_diff_bound(a: Color, b: Color)
    ensures
        0 <= color_sq_diff(a, b) <= 195075,
{
    lemma_sq_bound(a.r - b.r);
    lemma_sq_bound(a.g - b.g);
    lemma_sq_bound(a.b - b.b);
}

proof fn lemma_col_sq_total_bound(a: PixelImage, b: PixelImage, x: int, y0: int, y1: int)
    requires
        y0 <= y1,
    ensures
        0 <= col_sq_total(a, b, x, y0, y1) <= (y1 - y0) * 195075,
    decreases y1 - y0,
{
    if y1 <= y0 {
    } else {
        lemma_col_sq_total_bound(a, b, x, y0, y1 - 1);
        lemma_color_sq_diff_bound(a.spec_pixel(x, y1 - 1), b.spec_pixel(x, y1 - 1));
    }
}

proof fn lemma_window_sq_total_bound(
    a: PixelImage,
    b: PixelImage,
    x0: int,
    x1: int,
    y0: int,
    y1: int,
)
    requires
        x0 <= x1,
        y0 <= y1,
    ensures
        0 <= window_sq_total(a, b, x0, x1, y0, y1) <= (x1 - x0) * ((y1 - y0) * 195075),
    decreases x1 - x0,
{
    if x1 <= x0 {
    } else {
        lemma_window_sq_total_bound(a, b, x0, x1 - 1, y0, y1);
        lemma_col_sq_total_bound(a, b, x1 - 1, y0, y1);
        assert((x1 - 1 - x0) * ((y1 - y0) * 195075) + (y1 - y0) * 195075 == (x1 - x0) * ((y1
            - y0) * 195075)) by (nonlinear_arith);
    }
}

proof fn lemma_col_chan_sum_bound(img: PixelImage, ch: int, x: int, y0: int, y1: int)
    requires
        y0 <= y1,
    ensures
        0 <= col_chan_sum(img, ch, x, y0, y1) <= (y1 - y0) * 255,
    decreases y1 - y0,
{
    if y1 <= y0 {
    } else {
        lemma_col_chan_sum_bound(img, ch, x, y0, y1 - 1);
    }
}

proof fn lemma_window_chan_sum_bound(
    img: PixelImage,
    ch: int,
    x0: int,
    x1: int,
    y0: int,
    y1: int,
)
    requires
        x0 <= x1,
        y0 <= y1,
    ensures
        0 <= window_chan_sum(img, ch, x0, x1, y0, y1) <= (x1 - x0) * ((y1 - y0) * 255),
    decreases x1 - x0,
{
    if x1 <= x0 {
    } else {
        lemma_window_chan_sum_bound(img, ch, x0, x1 - 1, y0, y1);
        lemma_col_chan_sum_bound(img, ch, x1 - 1, y0, y1);
        assert((x1 - 1 - x0) * ((y1 - y0) * 255) + (y1 - y0) * 255 == (x1 - x0) * ((y1 - y0)
            * 255)) by (nonlinear_arith);
    }
}

/// Two images that hold the same pixels are at squared distance zero over
/// any column span.
proof fn lemma_col_sq_total_self(a: PixelImage, b: PixelImage, x: int, y0: int, y1: int)
    requires
        a.pixels@ == b.pixels@,
        a.width == b.width,
    ensures
        col_sq_total(a, b, x, y0, y1) == 0,
    decreases y1 - y0,
{
    if y1 <= y0 {
    } else {
        lemma_col_sq_total_self(a, b, x, y0, y1 - 1);
    }
}

/// Two images that hold the same pixels are at squared distance zero over
/// any window.
proof fn lemma_window_sq_total_self(
    a: PixelImage,
    b: PixelImage,
    x0: int,
    x1: int,
    y0: int,
    y1: int,
)
    requires
        a.pixels@ == b.pixels@,
        a.width == b.width,
    ensures
        window_sq_total(a, b, x0, x1, y0, y1) == 0,
    decreases x1 - x0,
{
    if x1 <= x0 {
    } else {
        lemma_window_sq_total_self(a, b, x0, x1 - 1, y0, y1);
        lemma_col_sq_total_self(a, b, x1 - 1, y0, y1);
    }
}

/// A product of bounded nonnegative factors is bounded by the product of
/// the bounds.
proof fn lemma_prod_le(a: int, b: int, aa: int, bb: int)
    requires
        0 <= a <= aa,
        0 <= b <= bb,
    ensures
        0 <= a * b <= aa * bb,
{
    assert(0 <= a * b <= aa * bb) by (nonlinear_arith)
        requires
            0 <= a <= aa,
            0 <= b <= bb,
    ;
}

/// A sum of at most `m` per item, divided by the item count, is at most
/// `m`.
proof fn lemma_avg_le(sum: int, count: int, m: int)
    requires
        0 < count,
        0 <= sum <= count * m,
        0 <= m,
    ensures
        0 <= sum / count <= m,
{
    vstd::arithmetic::div_mod::lemma_div_pos_is_pos(sum, count);
    vstd::arithmetic::div_mod::lemma_div_is_ordered(sum, count * m, count);
    vstd::arithmetic::div_mod::lemma_div_multiples_vanish(m, count);
}


/// A fixed-point bound brought to a pixel index inside `[0, limit]`: the
/// whole-pixel part of the coordinate, held at zero from below and at
/// `limit` from above.
pub open spec fn spec_win_lo(v: int, limit: int) -> int {
    if v < 0 {
        0
    } else if v / (crate::COORD_ONE as int) > limit {
        limit
    } else {
        v / (crate::COORD_ONE as int)
    }
}

fn win_coord(v: i64, limit: u32) -> (r: u32)
    ensures
        r == spec_win_lo(v as int, limit as int),
{
    if v < 0 {
        0
    } else {
        proof {
            vstd::arithmetic::div_mod::lemma_div_pos_is_pos(v as int, crate::COORD_ONE as int);
        }
        let q: i64 = v / crate::COORD_ONE;
        if q > limit as i64 {
            limit
        } else {
            q as u32
        }
    }
}

/// The pixel window a pair of fixed-point bounds covers on a canvas of the
/// image's size, clamped into the canvas.
pub open spec fn spec_wx0(b: Seq<Point>, img: PixelImage) -> int {
    spec_win_lo(b[0].x as int, img.width as int)
}

pub open spec fn spec_wx1(b: Seq<Point>, img: PixelImage) -> int {
    spec_win_lo(b[1].x as int, img.width as int)
}

pub open spec fn spec_wy0(b: Seq<Point>, img: PixelImage) -> int {
    spec_win_lo(b[0].y as int, img.height as int)
}

pub open spec fn spec_wy1(b: Seq<Point>, img: PixelImage) -> int {
    spec_win_lo(b[1].y as int, img.height as int)
}

/// The pixel window of the bounds spans at least one pixel in each axis.
pub open spec fn spec_window_nonempty(b: Seq<Point>, img: PixelImage) -> bool {
    &&& spec_wx0(b, img) < spec_wx1(b, img)
    &&& spec_wy0(b, img) < spec_wy1(b, img)
}

/// The mean color over the window `[x0, x1) x [y0, y1)`: each channel
/// averaged separately, fully opaque.
pub open spec fn spec_window_avg(img: PixelImage, x0: int, x1: int, y0: int, y1: int) -> Color {
    Color {
        r: (window_chan_sum(img, 0, x0, x1, y0, y1) / ((x1 - x0) * (y1 - y0))) as u8,
        g: (window_chan_sum(img, 1, x0, x1, y0, y1) / ((x1 - x0) * (y1 - y0))) as u8,
        b: (window_chan_sum(img, 2, x0, x1, y0, y1) / ((x1 - x0) * (y1 - y0))) as u8,
        a: 255,
    }
}

/// The mean color over the pixel window the bounds `b` cover on `img`.
pub open spec fn spec_area_avg(img: PixelImage, b: Seq<Point>) -> Color {
    spec_window_avg(img, spec_wx0(b, img), spec_wx1(b, img), spec_wy0(b, img), spec_wy1(b, img))
}

/// The root-mean-square color distance over the window: `d` is the integer
/// square root of the mean squared color difference.
pub open spec fn is_window_rms(
    a: PixelImage,
    b: PixelImage,
    x0: int,
    x1: int,
    y0: int,
    y1: int,
    d: int,
) -> bool {
    is_isqrt(window_sq_total(a, b, x0, x1, y0, y1) / ((x1 - x0) * (y1 - y0)), d)
}

/// The windowed distance taken over the pixel window of the bounds `bs`.
pub open spec fn is_area_rms(a: PixelImage, b: PixelImage, bs: Seq<Point>, d: int) -> bool {
    is_window_rms(
        a,
        b,
        spec_wx0(bs, a),
        spec_wx1(bs, a),
        spec_wy0(bs, a),
        spec_wy1(bs, a),
        d,
    )
}

proof fn lemma_axis_spans_pixel(lo: int, hi: int, limit: int)
    requires
        0 <= lo,
        lo + crate::COORD_ONE <= hi,
        hi <= limit * crate::COORD_ONE,
    ensures
        spec_win_lo(lo, limit) < spec_win_lo(hi, limit),
{
    let d = crate::COORD_ONE as int;
    vstd::arithmetic::div_mod::lemma_div_pos_is_pos(lo, d);
    vstd::arithmetic::div_mod::lemma_div_is_ordered(lo, (limit - 1) * d, d);
    vstd::arithmetic::div_mod::lemma_div_multiples_vanish(limit - 1, d);
    assert((limit - 1) * d == d * (limit - 1)) by (nonlinear_arith);
    vstd::arithmetic::div_mod::lemma_div_plus_one(lo, d);
    vstd::arithmetic::div_mod::lemma_div_is_ordered(lo + d, hi, d);
    vstd::arithmetic::div_mod::lemma_div_pos_is_pos(hi, d);
}

/// Bounds that lie inside the canvas and span at least one whole pixel in
/// each axis cover at least one pixel of it.
pub proof fn lemma_window_spans_pixel(b: Seq<Point>, img: PixelImage)
    requires
        b.len() == 2,
        0 <= b[0].x,
        0 <= b[0].y,
        b[0].x + crate::COORD_ONE <= b[1].x,
        b[0].y + crate::COORD_ONE <= b[1].y,
        b[1].x <= img.width * crate::COORD_ONE,
        b[1].y <= img.height * crate::COORD_ONE,
    ensures
        spec_window_nonempty(b, img),
{
    lemma_axis_spans_pixel(b[0].x as int, b[1].x as int, img.width as int);
    lemma_axis_spans_pixel(b[0].y as int, b[1].y as int, img.height as int);
}

/// The boundary check of the engine's configuration: a window is usable
/// only if it spans at least one whole pixel in each axis.
pub fn check_bounds(bounds: &[Point; 2]) -> (ok: bool)
    requires
        -crate::shape::MAX_RANGE <= bounds@[0].x <= crate::shape::MAX_RANGE,
        -crate::shape::MAX_RANGE <= bounds@[0].y <= crate::shape::MAX_RANGE,
        -crate::shape::MAX_RANGE <= bounds@[1].x <= crate::shape::MAX_RANGE,
        -crate::shape::MAX_RANGE <= bounds@[1].y <= crate::shape::MAX_RANGE,
    ensures
        ok == (bounds@[1].x - bounds@[0].x >= crate::COORD_ONE && bounds@[1].y - bounds@[0].y
            >= crate::COORD_ONE),
{
    let p0 = bounds[0];
    let p1 = bounds[1];
    p1.x - p0.x >= crate::COORD_ONE && p1.y - p0.y >= crate::COORD_ONE
}

fn avg_over(img: &PixelImage, x0: u32, x1: u32, y0: u32, y1: u32) -> (c: Color)
    requires
        img.wf(),
        x0 < x1 <= img.width,
        y0 < y1 <= img.height,
    ensures
        c == spec_window_avg(*img, x0 as int, x1 as int, y0 as int, y1 as int),
{
    let mut r_sum: u64 = 0;
    let mut g_sum: u64 = 0;
    let mut b_sum: u64 = 0;
    let mut x = x0;
    while x < x1
        invariant
            img.wf(),
            x0 <= x <= x1 <= img.width,
            y0 < y1 <= img.height,
            r_sum == window_chan_sum(*img, 0, x0 as int, x as int, y0 as int, y1 as int),
            g_sum == window_chan_sum(*img, 1, x0 as int, x as int, y0 as int, y1 as int),
            b_sum == window_chan_sum(*img, 2, x0 as int, x as int, y0 as int, y1 as int),
        decreases x1 - x,
    {
        let mut cr: u64 = 0;
        let mut cg: u64 = 0;
        let mut cb: u64 = 0;
        let mut y = y0;
        while y < y1
            invariant
                img.wf(),
                x0 <= x < x1 <= img.width,
                y0 <= y <= y1 <= img.height,
                cr == col_chan_sum(*img, 0, x as int, y0 as int, y as int),
                cg == col_chan_sum(*img, 1, x as int, y0 as int, y as int),
                cb == col_chan_sum(*img, 2, x as int, y0 as int, y as int),
            decreases y1 - y,
        {
            proof {
                lemma_col_chan_sum_bound(*img, 0, x as int, y0 as int, y as int);
                lemma_col_chan_sum_bound(*img, 1, x as int, y0 as int, y as int);
                lemma_col_chan_sum_bound(*img, 2, x as int, y0 as int, y as int);
            }
            let p = img.pixel(x, y);
            cr = cr + p.r as u64;
            cg = cg + p.g as u64;
            cb = cb + p.b as u64;
            y = y + 1;
        }
        proof {
            lemma_window_chan_sum_bound(*img, 0, x0 as int, x as int, y0 as int, y1 as int);
            lemma_window_chan_sum_bound(*img, 1, x0 as int, x as int, y0 as int, y1 as int);
            lemma_window_chan_sum_bound(*img, 2, x0 as int, x as int, y0 as int, y1 as int);
            lemma_col_chan_sum_bound(*img, 0, x as int, y0 as int, y1 as int);
            lemma_col_chan_sum_bound(*img, 1, x as int, y0 as int, y1 as int);
            lemma_col_chan_sum_bound(*img, 2, x as int, y0 as int, y1 as int);
            lemma_prod_le((x - x0) as int, ((y1 - y0) as int) * 255, 65535, (65535 * 255) as int);
        }
        r_sum = r_sum + cr;
        g_sum = g_sum + cg;
        b_sum = b_sum + cb;
        x = x + 1;
    }
    proof {
        lemma_prod_le((x1 - x0) as int, (y1 - y0) as int, 65535, 65535);
    }
    let count: u64 = ((x1 - x0) as u64) * ((y1 - y0) as u64);
    proof {
        lemma_window_chan_sum_bound(*img, 0, x0 as int, x1 as int, y0 as int, y1 as int);
        lemma_window_chan_sum_bound(*img, 1, x0 as int, x1 as int, y0 as int, y1 as int);
        lemma_window_chan_sum_bound(*img, 2, x0 as int, x1 as int, y0 as int, y1 as int);
        assert(((x1 - x0) as int) * (((y1 - y0) as int) * 255) == (((x1 - x0) as int) * ((y1
            - y0) as int)) * 255) by (nonlinear_arith);
        assert(count as int > 0) by (nonlinear_arith)
            requires
                count as int == ((x1 - x0) as int) * ((y1 - y0) as int),
                (x1 - x0) as int > 0,
                (y1 - y0) as int > 0,
        ;
        lemma_avg_le(r_sum as int, count as int, 255);
        lemma_avg_le(g_sum as int, count as int, 255);
        lemma_avg_le(b_sum as int, count as int, 255);
    }
    let r_avg: u64 = r_sum / count;
    let g_avg: u64 = g_sum / count;
    let b_avg: u64 = b_sum / count;
    Color { r: r_avg as u8, g: g_avg as u8, b: b_avg as u8, a: 255 }
}

/// The mean color of the whole target, channel by channel over red, green
/// and blue; the result is fully opaque.  It seeds the background fill.
pub fn get_average_color(img: &PixelImage) -> (c: Color)
    requires
        img.wf(),
        img.width >= 1,
        img.height >= 1,
    ensures
        c == spec_window_avg(*img, 0, img.width as int, 0, img.height as int),
{
    avg_over(img, 0, img.width, 0, img.height)
}

/// The mean color of the pixel window the bounds cover.  A window that
/// spans no pixel in some axis is a configuration error.
pub fn get_average_color_from_area(img: &PixelImage, bounds: &[Point; 2]) -> (r: Result<
    Color,
    GeoError,
>)
    requires
        img.wf(),
    ensures
        r is Ok <==> spec_window_nonempty(bounds@, *img),
        r matches Err(e) ==> e is Config,
        r matches Ok(c) ==> c == spec_area_avg(*img, bounds@),
{
    let x0 = win_coord(bounds[0].x, img.width);
    let x1 = win_coord(bounds[1].x, img.width);
    let y0 = win_coord(bounds[0].y, img.height);
    let y1 = win_coord(bounds[1].y, img.height);
    if x0 < x1 && y0 < y1 {
        Ok(avg_over(img, x0, x1, y0, y1))
    } else {
        Err(GeoError::Config)
    }
}

/// A square root of zero is zero.
pub proof fn lemma_isqrt_zero(d: int)
    requires
        is_isqrt(0, d),
    ensures
        d == 0,
{
    if d > 0 {
        assert(d * d > 0) by (nonlinear_arith)
            requires
                d > 0,
        ;
    }
}

fn diff_over(a: &PixelImage, b: &PixelImage, x0: u32, x1: u32, y0: u32, y1: u32) -> (d: u64)
    requires
        a.wf(),
        b.wf(),
        a.width == b.width,
        a.height == b.height,
        x0 < x1 <= a.width,
        y0 < y1 <= a.height,
    ensures
        is_window_rms(*a, *b, x0 as int, x1 as int, y0 as int, y1 as int, d as int),
        a.pixels@ == b.pixels@ ==> d == 0,
{
    let mut total: u64 = 0;
    let mut x = x0;
    while x < x1
        invariant
            a.wf(),
            b.wf(),
            a.width == b.width,
            a.height == b.height,
            x0 <= x <= x1 <= a.width,
            y0 < y1 <= a.height,
            total == window_sq_total(*a, *b, x0 as int, x as int, y0 as int, y1 as int),
        decreases x1 - x,
    {
        let mut col: u64 = 0;
        let mut y = y0;
        while y < y1
            invariant
                a.wf(),
                b.wf(),
                a.width == b.width,
                a.height == b.height,
                x0 <= x < x1 <= a.width,
                y0 <= y <= y1 <= a.height,
                col == col_sq_total(*a, *b, x as int, y0 as int, y as int),
            decreases y1 - y,
        {
            proof {
                lemma_col_sq_total_bound(*a, *b, x as int, y0 as int, y as int);
                lemma_color_sq_diff_bound(
                    a.spec_pixel(x as int, y as int),
                    b.spec_pixel(x as int, y as int),
                );
            }
            let p = a.pixel(x, y);
            let q = b.pixel(x, y);
            let dr: i64 = p.r as i64 - q.r as i64;
            let dg: i64 = p.g as i64 - q.g as i64;
            let db: i64 = p.b as i64 - q.b as i64;
            proof {
                assert(0 <= dr * dr <= 65025) by (nonlinear_arith)
                    requires
                        -255 <= dr <= 255,
                ;
                assert(0 <= dg * dg <= 65025) by (nonlinear_arith)
                    requires
                        -255 <= dg <= 255,
                ;
                assert(0 <= db * db <= 65025) by (nonlinear_arith)
                    requires
                        -255 <= db <= 255,
                ;
            }
            let sqd: i64 = dr * dr + dg * dg + db * db;
            col = col + sqd as u64;
            y = y + 1;
        }
        proof {
            lemma_window_sq_total_bound(*a, *b, x0 as int, x as int, y0 as int, y1 as int);
            lemma_col_sq_total_bound(*a, *b, x as int, y0 as int, y1 as int);
            lemma_prod_le((x - x0) as int, ((y1 - y0) as int) * 195075, 65535, (65535 * 195075) as int);
        }
        total = total + col;
        x = x + 1;
    }
    proof {
        lemma_prod_le((x1 - x0) as int, (y1 - y0) as int, 65535, 65535);
    }
    let count: u64 = ((x1 - x0) as u64) * ((y1 - y0) as u64);
    proof {
        assert(count as int > 0) by (nonlinear_arith)
            requires
                count as int == ((x1 - x0) as int) * ((y1 - y0) as int),
                (x1 - x0) as int > 0,
                (y1 - y0) as int > 0,
        ;
        lemma_window_sq_total_bound(*a, *b, x0 as int, x1 as int, y0 as int, y1 as int);
        assert(((x1 - x0) as int) * (((y1 - y0) as int) * 195075) == (((x1 - x0) as int) * ((y1
            - y0) as int)) * 195075) by (nonlinear_arith);
        lemma_avg_le(total as int, count as int, 195075);
        if a.pixels@ == b.pixels@ {
            lemma_window_sq_total_self(*a, *b, x0 as int, x1 as int, y0 as int, y1 as int);
            vstd::arithmetic::div_mod::lemma_div_of0(count as int);
        }
    }
    let mean: u64 = total / count;
    let d = isqrt(mean);
    proof {
        if a.pixels@ == b.pixels@ {
            lemma_isqrt_zero(d as int);
        }
    }
    d
}

/// The root-mean-square color distance of two whole images: the squared
/// channel differences are summed over every pixel, averaged, and rooted.
/// Two images with the same pixels are at distance zero.
pub fn image_diff(img1: &PixelImage, img2: &PixelImage) -> (d: u64)
    requires
        img1.wf(),
        img2.wf(),
        img1.width == img2.width,
        img1.height == img2.height,
        img1.width >= 1,
        img1.height >= 1,
    ensures
        is_window_rms(*img1, *img2, 0, img1.width as int, 0, img1.height as int, d as int),
        img1.pixels@ == img2.pixels@ ==> d == 0,
{
    diff_over(img1, img2, 0, img1.width, 0, img1.height)
}

/// The root-mean-square color distance restricted to the pixel window the
/// bounds cover.  A window that spans no pixel in some axis is a
/// configuration error; over any usable window two images with the same
/// pixels are at distance zero.
pub fn image_area_diff(img1: &PixelImage, img2: &PixelImage, bounds: &[Point; 2]) -> (r: Result<
    u64,
    GeoError,
>)
    requires
        img1.wf(),
        img2.wf(),
        img1.width == img2.width,
        img1.height == img2.height,
    ensures
        r is Ok <==> spec_window_nonempty(bounds@, *img1),
        r matches Err(e) ==> e is Config,
        r matches Ok(d) ==> is_area_rms(*img1, *img2, bounds@, d as int),
        img1.pixels@ == img2.pixels@ ==> (r matches Ok(d) ==> d == 0),
{
    let x0 = win_coord(bounds[0].x, img1.width);
    let x1 = win_coord(bounds[1].x, img1.width);
    let y0 = win_coord(bounds[0].y, img1.height);
    let y1 = win_coord(bounds[1].y, img1.height);
    if x0 < x1 && y0 < y1 {
        Ok(diff_over(img1, img2, x0, x1, y0, y1))
    } else {
        Err(GeoError::Config)
    }
}


/// The decimal digit character for `d`.
pub open spec fn dec_digit(d: int) -> char {
    if d == 0 {
        '0'
    } else if d == 1 {
        '1'
    } else if d == 2 {
        '2'
    } else if d == 3 {
        '3'
    } else if d == 4 {
        '4'
    } else if d == 5 {
        '5'
    } else if d == 6 {
        '6'
    } else if d == 7 {
        '7'
    } else if d == 8 {
        '8'
    } else {
        '9'
    }
}

/// The decimal digits of a byte value, without leading zeros.
pub open spec fn spec_u8_dec(n: int) -> Seq<char> {
    if n < 10 {
        seq![dec_digit(n)]
    } else if n < 100 {
        seq![dec_digit(n / 10), dec_digit(n % 10)]
    } else {
        seq![dec_digit(n / 100), dec_digit((n / 10) % 10), dec_digit(n % 10)]
    }
}

/// The `r,g,b` rendering of a color: the three decimal channel values
/// joined by commas; alpha is left out.
pub open spec fn spec_rgb_str(c: Color) -> Seq<char> {
    spec_u8_dec(c.r as int) + seq![','] + spec_u8_dec(c.g as int) + seq![','] + spec_u8_dec(
        c.b as int,
    )
}

fn digit_str(d: u8) -> (r: &'static str)
    requires
        d < 10,
    ensures
        r@ == seq![dec_digit(d as int)],
{
    match d {
        0 => {
            proof {
                reveal_strlit("0");
            }
            let s = "0";
            proof {
                assert(s@ =~= seq![dec_digit(0)]);
            }
            s
        },
        1 => {
            proof {
                reveal_strlit("1");
            }
            let s = "1";
            proof {
                assert(s@ =~= seq![dec_digit(1)]);
            }
            s
        },
        2 => {
            proof {
                reveal_strlit("2");
            }
            let s = "2";
            proof {
                assert(s@ =~= seq![dec_digit(2)]);
            }
            s
        },
        3 => {
            proof {
                reveal_strlit("3");
            }
            let s = "3";
            proof {
                assert(s@ =~= seq![dec_digit(3)]);
            }
            s
        },
        4 => {
            proof {
                reveal_strlit("4");
            }
            let s = "4";
            proof {
                assert(s@ =~= seq![dec_digit(4)]);
            }
            s
        },
        5 => {
            proof {
                reveal_strlit("5");
            }
            let s = "5";
            proof {
                assert(s@ =~= seq![dec_digit(5)]);
            }
            s
        },
        6 => {
            proof {
                reveal_strlit("6");
            }
            let s = "6";
            proof {
                assert(s@ =~= seq![dec_digit(6)]);
            }
            s
        },
        7 => {
            proof {
                reveal_strlit("7");
            }
            let s = "7";
            proof {
                assert(s@ =~= seq![dec_digit(7)]);
            }
            s
        },
        8 => {
            proof {
                reveal_strlit("8");
            }
            let s = "8";
            proof {
                assert(s@ =~= seq![dec_digit(8)]);
            }
            s
        },
        _ => {
            proof {
                reveal_strlit("9");
            }
            let s = "9";
            proof {
                assert(s@ =~= seq![dec_digit(9)]);
            }
            s
        },
    }
}

fn push_u8_dec(s: &mut String, n: u8)
    ensures
        final(s)@ == old(s)@ + spec_u8_dec(n as int),
{
    if n >= 100 {
        s.append(digit_str(n / 100));
        s.append(digit_str((n / 10) % 10));
        s.append(digit_str(n % 10));
        proof {
            assert(s@ =~= old(s)@ + spec_u8_dec(n as int));
        }
    } else if n >= 10 {
        s.append(digit_str(n / 10));
        s.append(digit_str(n % 10));
        proof {
            assert(s@ =~= old(s)@ + spec_u8_dec(n as int));
        }
    } else {
        s.append(digit_str(n));
        proof {
            assert(s@ =~= old(s)@ + spec_u8_dec(n as int));
        }
    }
}

/// Renders a color as the `r,g,b` decimal triple its fill attribute uses.
pub fn rgba_to_str(color: &Color) -> (s: String)
    ensures
        s@ == spec_rgb_str(*color),
{
    let mut s = String::new();
    push_u8_dec(&mut s, color.r);
    s.append(",");
    push_u8_dec(&mut s, color.g);
    s.append(",");
    push_u8_dec(&mut s, color.b);
    proof {
        reveal_strlit(",");
        assert(s@ =~= spec_rgb_str(*color));
    }
    s
}

} // verus!
