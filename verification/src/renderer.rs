//! Drawing the terminal window: rounded rectangles, the drop shadow, the
//! chrome, and the backgrounds and underlines of cells.

use vstd::prelude::*;

use crate::canvas::{
    canvas_ok, circle_fits, circle_points, fill_circle, fill_rect, get_pixel, image_height, image_pixels,
    image_size, image_width, paint, put_pixel, rect_area, Canvas,
};
use crate::canvas::new_image;
use crate::layout::{CellPaint, WindowFrame};
use crate::theme::{Rgba8, Theme};

verus! {

// ---------------------------------------------------------------------------
// Rounded corners.

/// Whether the point whose doubled offsets from a corner's centre are
/// `(dx2, dy2)` lies within `r` of it.
pub open spec fn in_disc(dx2: int, dy2: int, r: int) -> bool {
    dx2 * dx2 + dy2 * dy2 <= 4 * r * r
}

/// Whether pixel `(px, py)` of a `w` × `h` rectangle with corners rounded to
/// radius `r` is inside it: a pixel in an `r` × `r` corner square is inside
/// when its centre lies within `r` of the corner's centre, which is `r` in
/// from both sides; every other pixel is inside. Where the corner squares
/// overlap, the left one before the right and the top one before the bottom
/// decide.
pub open spec fn inside_rounded(px: int, py: int, w: int, h: int, r: int) -> bool {
    if r == 0 {
        true
    } else {
        let in_left = px < r;
        let in_right = px >= w - r;
        let in_top = py < r;
        let in_bottom = py >= h - r;
        let lx = 2 * r - (2 * px + 1);
        let rx = (2 * px + 1) - 2 * (w - r);
        let ty = 2 * r - (2 * py + 1);
        let by = (2 * py + 1) - 2 * (h - r);
        if in_left && in_top {
            in_disc(lx, ty, r)
        } else if in_right && in_top {
            in_disc(rx, ty, r)
        } else if in_left && in_bottom {
            in_disc(lx, by, r)
        } else if in_right && in_bottom {
            in_disc(rx, by, r)
        } else {
            true
        }
    }
}

fn within_disc(dx2: i128, dy2: i128, r: i128) -> (res: bool)
    requires
        -0x10_0000_0000 <= dx2 <= 0x10_0000_0000,
        -0x10_0000_0000 <= dy2 <= 0x10_0000_0000,
        0 <= r <= 0x1_0000_0000,
    ensures
        res == in_disc(dx2 as int, dy2 as int, r as int),
{
    assert(0 <= dx2 * dx2 <= 0x100_0000_0000_0000_0000) by (nonlinear_arith)
        requires
            -0x10_0000_0000 <= dx2 <= 0x10_0000_0000,
    ;
    assert(0 <= dy2 * dy2 <= 0x100_0000_0000_0000_0000) by (nonlinear_arith)
        requires
            -0x10_0000_0000 <= dy2 <= 0x10_0000_0000,
    ;
    assert(0 <= r * r <= 0x1_0000_0000_0000_0000) by (nonlinear_arith)
        requires
            0 <= r <= 0x1_0000_0000,
    ;
    assert(4 * r * r == 4 * (r * r)) by (nonlinear_arith);
    dx2 * dx2 + dy2 * dy2 <= 4 * (r * r)
}

/// Whether pixel `(px, py)` of a `w` × `h` rectangle with corners rounded to
/// radius `r` lies inside the rounded shape. The distances are compared
/// exactly, in integers at twice the scale; `f32` arithmetic gives the same
/// answers for radii below 2048 on rectangles smaller than 2^24 pixels a
/// side, where every quantity it computes is exact.
pub fn is_inside_rounded_rect(px: u32, py: u32, w: u32, h: u32, r: u32) -> (inside: bool)
    requires
        r == 0 || (r <= w && r <= h),
    ensures
        inside == inside_rounded(px as int, py as int, w as int, h as int, r as int),
{
    if r == 0 {
        return true;
    }
    let in_left = px < r;
    let in_right = px >= w - r;
    let in_top = py < r;
    let in_bottom = py >= h - r;
    let ri = r as i128;
    let lx = 2 * ri - (2 * (px as i128) + 1);
    let rx = (2 * (px as i128) + 1) - 2 * ((w - r) as i128);
    let ty = 2 * ri - (2 * (py as i128) + 1);
    let by = (2 * (py as i128) + 1) - 2 * ((h - r) as i128);
    if in_left && in_top {
        within_disc(lx, ty, ri)
    } else if in_right && in_top {
        within_disc(rx, ty, ri)
    } else if in_left && in_bottom {
        within_disc(lx, by, ri)
    } else if in_right && in_bottom {
        within_disc(rx, by, ri)
    } else {
        true
    }
}

/// A rounded rectangle whose corners do not overlap is symmetric: mirroring a
/// pixel left to right, or top to bottom, does not change whether it is
/// inside.
pub proof fn lemma_rounded_rect_symmetric(px: int, py: int, w: int, h: int, r: int)
    requires
        0 <= px < w,
        0 <= py < h,
        0 <= r,
        2 * r <= w,
        2 * r <= h,
    ensures
        inside_rounded(px, py, w, h, r) == inside_rounded(w - 1 - px, py, w, h, r),
        inside_rounded(px, py, w, h, r) == inside_rounded(px, h - 1 - py, w, h, r),
{
}

/// Only the corner squares are cut: a pixel that is in no `r` × `r` corner
/// square is inside.
pub proof fn lemma_rounded_rect_keeps_sides(px: int, py: int, w: int, h: int, r: int)
    requires
        0 <= px < w,
        0 <= py < h,
        0 <= r,
        (r <= px < w - r) || (r <= py < h - r),
    ensures
        inside_rounded(px, py, w, h, r),
{
}

/// A point of a corner square of side `r1`, at doubled offsets `a` and `b`
/// from the square's outer sides, that lies within the disc of a larger
/// corner of radius `r2` also lies within the disc of radius `r1`.
proof fn lemma_disc_shrinks(a: int, b: int, r1: int, r2: int)
    requires
        0 < r1 <= r2,
        0 < a < 2 * r1,
        0 < b < 2 * r1,
        in_disc(2 * r2 - a, 2 * r2 - b, r2),
    ensures
        in_disc(2 * r1 - a, 2 * r1 - b, r1),
{
    let p = 2 * r1 - a;
    let q = 2 * r1 - b;
    let d = 2 * (r2 - r1);
    assert((p + d) * (p + d) + (q + d) * (q + d) <= (2 * r1 + d) * (2 * r1 + d)) by (nonlinear_arith)
        requires
            p + d == 2 * r2 - a,
            q + d == 2 * r2 - b,
            2 * r1 + d == 2 * r2,
            (2 * r2 - a) * (2 * r2 - a) + (2 * r2 - b) * (2 * r2 - b) <= 4 * r2 * r2,
    ;
    if p + q >= 2 * r1 {
        assert(p * p + q * q <= 4 * r1 * r1) by (nonlinear_arith)
            requires
                d >= 0,
                p + q >= 2 * r1,
                (p + d) * (p + d) + (q + d) * (q + d) <= (2 * r1 + d) * (2 * r1 + d),
        ;
    } else {
        assert(p * p + q * q <= 4 * r1 * r1) by (nonlinear_arith)
            requires
                p > 0,
                q > 0,
                p + q < 2 * r1,
        ;
    }
}

/// The shape shrinks as the radius grows: on a rectangle large enough for
/// the larger radius, every pixel that is inside with corners rounded to
/// `r2` is inside with corners rounded to any smaller `r1`.
pub proof fn lemma_rounded_rect_shrinks(px: int, py: int, w: int, h: int, r1: int, r2: int)
    requires
        0 <= px < w,
        0 <= py < h,
        0 <= r1 <= r2,
        2 * r2 <= w,
        2 * r2 <= h,
    ensures
        inside_rounded(px, py, w, h, r2) ==> inside_rounded(px, py, w, h, r1),
{
    if r1 > 0 && inside_rounded(px, py, w, h, r2) {
        let al = 2 * px + 1;
        let ar = 2 * (w - 1 - px) + 1;
        let bt = 2 * py + 1;
        let bb = 2 * (h - 1 - py) + 1;
        if px < r1 && py < r1 {
            lemma_disc_shrinks(al, bt, r1, r2);
        } else if px >= w - r1 && py < r1 {
            lemma_disc_shrinks(ar, bt, r1, r2);
        } else if px < r1 && py >= h - r1 {
            lemma_disc_shrinks(al, bb, r1, r2);
        } else if px >= w - r1 && py >= h - r1 {
            lemma_disc_shrinks(ar, bb, r1, r2);
        }
    }
}

// ---------------------------------------------------------------------------
// Filled rounded rectangles.

/// The rectangle and the four circles that `draw_rounded_rect_filled` paints.
pub open spec fn rounded_area(x: int, y: int, w: int, h: int, r: int) -> Set<(int, int)> {
    if r == 0 || h < 2 * r || w < 2 * r {
        rect_area(x, y, w, h)
    } else {
        rect_area(x, y + r, w, h - 2 * r).union(rect_area(x + r, y, w - 2 * r, r)).union(
            rect_area(x + r, y + h - r, w - 2 * r, r),
        ).union(circle_points((x + r) as i32, (y + r) as i32, r as i32)).union(
            circle_points((x + w - r - 1) as i32, (y + r) as i32, r as i32),
        ).union(circle_points((x + r) as i32, (y + h - r - 1) as i32, r as i32)).union(
            circle_points((x + w - r - 1) as i32, (y + h - r - 1) as i32, r as i32),
        )
    }
}

/// A rounded rectangle of `w` × `h` pixels at `(x, y)` with corner radius
/// `r` can be drawn: it is not empty, its corners fit an `i32`, its radius
/// doubled fits a `u32`, and when its corners are rounded its parts are not
/// empty and its right edge stays 64 below `i32::MAX`, where the corner
/// circles can be drawn.
pub open spec fn rounded_ok(x: int, y: int, w: int, h: int, r: int) -> bool {
    &&& 0 < w <= i32::MAX
    &&& 0 < h <= i32::MAX
    &&& i32::MIN <= x
    &&& i32::MIN <= y
    &&& x + w <= i32::MAX
    &&& y + h <= i32::MAX
    &&& 2 * r <= u32::MAX
    &&& (r != 0 && h >= 2 * r && w >= 2 * r) ==> {
        &&& h > 2 * r
        &&& w > 2 * r
        &&& x + w <= i32::MAX - 63
    }
}

/// Every coordinate of the rectangle is below 2^24 in magnitude, so exact as
/// an `f32`.
pub open spec fn box_is_exact(x: int, y: int, w: int, h: int) -> bool {
    &&& -0x100_0000 < x
    &&& x + w <= 0x100_0000
    &&& -0x100_0000 < y
    &&& y + h <= 0x100_0000
}

/// Pixel `p` is one of the four corner pixels of the `w` × `h` rectangle at
/// `(x, y)`.
pub open spec fn is_box_corner(p: (u32, u32), x: int, y: int, w: int, h: int) -> bool {
    &&& (p.0 == x || p.0 == x + w - 1)
    &&& (p.1 == y || p.1 == y + h - 1)
}

/// The rounded rectangle can be drawn on `img`, whose size fits an `i32`.
pub open spec fn rounded_rect_drawable(img: Canvas, x: i32, y: i32, w: u32, h: u32, radius: u32) -> bool {
    &&& canvas_ok(img)
    &&& 0 < image_size(img).0 <= i32::MAX
    &&& 0 < image_size(img).1 <= i32::MAX
    &&& rounded_ok(x as int, y as int, w as int, h as int, radius as int)
}

/// Only the corners are cut from a filled rounded rectangle: every pixel of
/// the `w` × `h` box at `(x, y)` that lies in none of its four `r` × `r`
/// corner squares is painted.
pub proof fn lemma_rounded_area_keeps_sides(x: int, y: int, w: int, h: int, r: int, px: int, py: int)
    requires
        0 <= r,
        x <= px < x + w,
        y <= py < y + h,
        (x + r <= px < x + w - r) || (y + r <= py < y + h - r),
    ensures
        rounded_area(x, y, w, h, r).contains((px, py)),
{
    if !(r == 0 || h < 2 * r || w < 2 * r) {
        if y + r <= py < y + h - r {
            assert(rect_area(x, y + r, w, h - 2 * r).contains((px, py)));
        } else if py < y + r {
            assert(rect_area(x + r, y, w - 2 * r, r).contains((px, py)));
        } else {
            assert(rect_area(x + r, y + h - r, w - 2 * r, r).contains((px, py)));
        }
    }
}

proof fn lemma_paint_twice(m: Map<(u32, u32), Rgba8>, a: Set<(int, int)>, b: Set<(int, int)>, c: Rgba8)
    ensures
        paint(paint(m, a, c), b, c) == paint(m, a.union(b), c),
{
    assert(paint(paint(m, a, c), b, c) =~= paint(m, a.union(b), c));
}

/// Fills a `w` × `h` rectangle at `(x, y)` with `color`, its corners rounded
/// to `radius` when the rectangle is at least twice the radius in both
/// directions: the pixels of the rectangle without its four corner squares,
/// and four filled circles around the corners' centres.
pub fn draw_rounded_rect_filled(
    img: &mut Canvas,
    x: i32,
    y: i32,
    w: u32,
    h: u32,
    radius: u32,
    color: Rgba8,
)
    requires
        rounded_rect_drawable(*old(img), x, y, w, h, radius),
    ensures
        image_size(*final(img)) == image_size(*old(img)),
        canvas_ok(*final(img)),
        image_pixels(*final(img)) == paint(
            image_pixels(*old(img)),
            rounded_area(x as int, y as int, w as int, h as int, radius as int),
            color,
        ),
        box_is_exact(x as int, y as int, w as int, h as int) ==> forall|p: (u32, u32)|
            #[trigger] image_pixels(*old(img)).dom().contains(p) && !rect_area(
                x as int,
                y as int,
                w as int,
                h as int,
            ).contains((p.0 as int, p.1 as int)) ==> image_pixels(*final(img))[p] == image_pixels(
                *old(img),
            )[p],
        box_is_exact(x as int, y as int, w as int, h as int) && radius >= 1 && w >= 2 * radius
            && h >= 2 * radius ==> forall|p: (u32, u32)|
            #[trigger] image_pixels(*old(img)).dom().contains(p) && is_box_corner(
                p,
                x as int,
                y as int,
                w as int,
                h as int,
            ) ==> image_pixels(*final(img))[p] == image_pixels(*old(img))[p],
{
    let ghost m0 = image_pixels(*img);
    let ghost bx = rect_area(x as int, y as int, w as int, h as int);
    if radius == 0 || h < 2 * radius || w < 2 * radius {
        fill_rect(img, x, y, w, h, color);
        return;
    }
    let r = radius as i32;
    let ghost a1 = rect_area(x as int, y + r, w as int, h - 2 * r);
    let ghost a2 = rect_area(x + r, y as int, w - 2 * r, r as int);
    let ghost a3 = rect_area(x + r, y + h - r, w - 2 * r, r as int);
    let ghost c1 = circle_points((x + r) as i32, (y + r) as i32, r);
    let ghost c2 = circle_points((x + w - r - 1) as i32, (y + r) as i32, r);
    let ghost c3 = circle_points((x + r) as i32, (y + h - r - 1) as i32, r);
    let ghost c4 = circle_points((x + w - r - 1) as i32, (y + h - r - 1) as i32, r);
    // Centre body
    fill_rect(img, x, y + radius as i32, w, h - 2 * radius, color);
    // Top strip
    fill_rect(img, x + radius as i32, y, w - 2 * radius, radius, color);
    // Bottom strip
    fill_rect(img, x + radius as i32, y + (h - radius) as i32, w - 2 * radius, radius, color);
    proof {
        lemma_paint_twice(m0, a1, a2, color);
        lemma_paint_twice(m0, a1.union(a2), a3, color);
    }
    let ghost m3 = image_pixels(*img);
    // Four corner circles
    fill_circle(img, x + r, y + r, r, color);
    let ghost m4 = image_pixels(*img);
    fill_circle(img, x + w as i32 - r - 1, y + r, r, color);
    let ghost m5 = image_pixels(*img);
    fill_circle(img, x + r, y + h as i32 - r - 1, r, color);
    let ghost m6 = image_pixels(*img);
    fill_circle(img, x + w as i32 - r - 1, y + h as i32 - r - 1, r, color);
    proof {
        let u3 = a1.union(a2).union(a3);
        lemma_paint_twice(m0, u3, c1, color);
        lemma_paint_twice(m0, u3.union(c1), c2, color);
        lemma_paint_twice(m0, u3.union(c1).union(c2), c3, color);
        lemma_paint_twice(m0, u3.union(c1).union(c2).union(c3), c4, color);
        if box_is_exact(x as int, y as int, w as int, h as int) {
            assert forall|p: (u32, u32)|
                #[trigger] m0.dom().contains(p) && !bx.contains((p.0 as int, p.1 as int)) implies image_pixels(
                *img,
            )[p] == m0[p] by {
                assert(m4.dom().contains(p));
                assert(m5.dom().contains(p));
                assert(m6.dom().contains(p));
                assert(m3[p] == m0[p]);
            }
            assert forall|p: (u32, u32)|
                #[trigger] m0.dom().contains(p) && is_box_corner(
                    p,
                    x as int,
                    y as int,
                    w as int,
                    h as int,
                ) implies image_pixels(*img)[p] == m0[p] by {
                assert(m4.dom().contains(p));
                assert(m5.dom().contains(p));
                assert(m6.dom().contains(p));
                assert(m3[p] == m0[p]);
                assert(m4[p] == m3[p]);
                assert(m5[p] == m4[p]);
                assert(m6[p] == m5[p]);
            }
        }
    }
}

// ---------------------------------------------------------------------------
// The drop shadow.

/// What the shadow makes of the pixels it covers, channel by channel: a
/// covered pixel whose red was `v` gets red `red[v]`, and likewise for green
/// and blue; it becomes opaque.
pub struct ShadowBlend {
    pub red: Vec<u8>,
    pub green: Vec<u8>,
    pub blue: Vec<u8>,
}

/// Each table has an entry for every channel value.
pub open spec fn blend_ok(b: ShadowBlend) -> bool {
    b.red@.len() == 256 && b.green@.len() == 256 && b.blue@.len() == 256
}

/// The colour a pixel of colour `c` takes under the shadow.
pub open spec fn shaded(b: ShadowBlend, c: Rgba8) -> Rgba8 {
    Rgba8(b.red@[c.0 as int], b.green@[c.1 as int], b.blue@[c.2 as int], 255)
}

/// Whether pixel `p` is under a shadow of `w` × `h` pixels, corners rounded
/// to `r`, whose top left pixel is `(sx, sy)`.
pub open spec fn shadow_covers(p: (u32, u32), sx: int, sy: int, w: int, h: int, r: int) -> bool {
    &&& sx <= p.0 < sx + w
    &&& sy <= p.1 < sy + h
    &&& inside_rounded(p.0 - sx, p.1 - sy, w, h, r)
}

/// The pixels `m` with the pixels under the shadow shaded.
pub open spec fn with_shadow(
    m: Map<(u32, u32), Rgba8>,
    b: ShadowBlend,
    sx: int,
    sy: int,
    w: int,
    h: int,
    r: int,
) -> Map<(u32, u32), Rgba8> {
    Map::new(
        |p: (u32, u32)| m.dom().contains(p),
        |p: (u32, u32)|
            if shadow_covers(p, sx, sy, w, h, r) {
                shaded(b, m[p])
            } else {
                m[p]
            },
    )
}

/// The pixels `m` with the pixels under the shadow shaded up to row `row`
/// and, in that row, up to column `col` of the shadow.
spec fn shadow_upto(
    m: Map<(u32, u32), Rgba8>,
    b: ShadowBlend,
    sx: int,
    sy: int,
    w: int,
    h: int,
    r: int,
    row: int,
    col: int,
) -> Map<(u32, u32), Rgba8> {
    Map::new(
        |p: (u32, u32)| m.dom().contains(p),
        |p: (u32, u32)|
            if shadow_covers(p, sx, sy, w, h, r) && (p.1 - sy < row || (p.1 - sy == row && p.0
                - sx < col)) {
                shaded(b, m[p])
            } else {
                m[p]
            },
    )
}

fn shade_pixel(b: &ShadowBlend, c: Rgba8) -> (s: Rgba8)
    requires
        blend_ok(*b),
    ensures
        s == shaded(*b, c),
{
    Rgba8(b.red[c.0 as usize], b.green[c.1 as usize], b.blue[c.2 as usize], 255)
}

/// Casts a shadow of the `w` × `h` window at `(x, y)`, moved right and down
/// by `offset` and rounded to `radius`: every pixel under it that lies in the
/// image is shaded by `blend`.
pub fn draw_shadow(
    img: &mut Canvas,
    x: i32,
    y: i32,
    w: u32,
    h: u32,
    offset: u32,
    radius: u32,
    blend: &ShadowBlend,
)
    requires
        canvas_ok(*old(img)),
        blend_ok(*blend),
        radius == 0 || (radius <= w && radius <= h) || !meets_image(
            image_size(*old(img)),
            x + offset,
            y + offset,
            w as int,
            h as int,
        ),
        offset <= i32::MAX,
        w <= i32::MAX,
        h <= i32::MAX,
        i32::MIN <= x + offset,
        i32::MIN <= y + offset,
        x + offset + w <= i32::MAX,
        y + offset + h <= i32::MAX,
    ensures
        image_size(*final(img)) == image_size(*old(img)),
        canvas_ok(*final(img)),
        image_pixels(*final(img)) == with_shadow(
            image_pixels(*old(img)),
            *blend,
            x + offset,
            y + offset,
            w as int,
            h as int,
            radius as int,
        ),
{
    let ghost m0 = image_pixels(*img);
    let ghost size = image_size(*img);
    let sx = x + offset as i32;
    let sy = y + offset as i32;
    let mut py: u32 = 0;
    assert(m0 =~= shadow_upto(m0, *blend, sx as int, sy as int, w as int, h as int, radius as int, 0, 0));
    while py < h
        invariant
            canvas_ok(*old(img)),
            blend_ok(*blend),
            radius == 0 || (radius <= w && radius <= h) || !meets_image(
                size,
                sx as int,
                sy as int,
                w as int,
                h as int,
            ),
            sx == x + offset,
            sy == y + offset,
            w <= i32::MAX,
            h <= i32::MAX,
            sx + w <= i32::MAX,
            sy + h <= i32::MAX,
            py <= h,
            m0 == image_pixels(*old(img)),
            size == image_size(*old(img)),
            image_size(*img) == size,
            image_pixels(*img) == shadow_upto(
                m0,
                *blend,
                sx as int,
                sy as int,
                w as int,
                h as int,
                radius as int,
                py as int,
                0,
            ),
        decreases h - py,
    {
        let mut px: u32 = 0;
        while px < w
            invariant
                canvas_ok(*old(img)),
                blend_ok(*blend),
                radius == 0 || (radius <= w && radius <= h) || !meets_image(
                    size,
                    sx as int,
                    sy as int,
                    w as int,
                    h as int,
                ),
                w <= i32::MAX,
                h <= i32::MAX,
                sx + w <= i32::MAX,
                sy + h <= i32::MAX,
                py < h,
                px <= w,
                m0 == image_pixels(*old(img)),
                size == image_size(*old(img)),
                image_size(*img) == size,
                image_pixels(*img) == shadow_upto(
                    m0,
                    *blend,
                    sx as int,
                    sy as int,
                    w as int,
                    h as int,
                    radius as int,
                    py as int,
                    px as int,
                ),
            decreases w - px,
        {
            let ghost before = image_pixels(*img);
            let ix = sx + px as i32;
            let iy = sy + py as i32;
            if ix >= 0 && iy >= 0 && (ix as u32) < image_width(img) && (iy as u32) < image_height(img) {
                if is_inside_rounded_rect(px, py, w, h, radius) {
                    let existing = get_pixel(img, ix as u32, iy as u32);
                    let blended = shade_pixel(blend, existing);
                    put_pixel(img, ix as u32, iy as u32, blended);
                    proof {
                        let q = (ix as u32, iy as u32);
                        assert(m0.dom().contains(q));
                        assert(before[q] == m0[q]);
                    }
                }
            }
            proof {
                assert(image_pixels(*img) =~= shadow_upto(
                    m0,
                    *blend,
                    sx as int,
                    sy as int,
                    w as int,
                    h as int,
                    radius as int,
                    py as int,
                    px + 1,
                ));
            }
            px = px + 1;
        }
        proof {
            assert(image_pixels(*img) =~= shadow_upto(
                m0,
                *blend,
                sx as int,
                sy as int,
                w as int,
                h as int,
                radius as int,
                py + 1,
                0,
            ));
        }
        py = py + 1;
    }
    assert(image_pixels(*img) =~= with_shadow(
        m0,
        *blend,
        sx as int,
        sy as int,
        w as int,
        h as int,
        radius as int,
    ));
}

// ---------------------------------------------------------------------------
// The window.

/// A blank picture of the frame's image size, all in the frame's outer
/// colour.
pub fn blank_canvas(frame: &WindowFrame) -> (img: Canvas)
    requires
        4 * frame.image_width * frame.image_height <= isize::MAX,
    ensures
        image_size(img) == (frame.image_width, frame.image_height),
        canvas_ok(img),
        forall|p: (u32, u32)| #[trigger] image_pixels(img).dom().contains(p) ==> image_pixels(img)[p] == frame.outer_bg,
{
    new_image(frame.image_width, frame.image_height, frame.outer_bg)
}

/// The colour of the line under the title bar.
pub open spec fn divider_line_color() -> Rgba8 {
    Rgba8(30, 34, 42, 255)
}

/// The x coordinate of the centre of title bar button `i` (0 close, 1
/// minimize, 2 maximize).
pub open spec fn button_x(frame: WindowFrame, theme: Theme, i: int) -> int {
    frame.win_x + theme.button_x_start + i * theme.button_spacing
}

/// The y coordinate of the centre of the title bar buttons.
pub open spec fn button_y(frame: WindowFrame, theme: Theme) -> int {
    frame.win_y + theme.button_y_center
}

/// A filled circle of radius `r` around `(cx, cy)` can be drawn.
pub open spec fn circle_drawable(cx: int, cy: int, r: int) -> bool {
    ||| r < 0 && 1 - r <= i32::MAX
    ||| circle_fits(cx, cy, r)
}

/// Some pixel of the `w` × `h` rectangle at `(sx, sy)` lies in an image of
/// size `size`.
pub open spec fn meets_image(size: (u32, u32), sx: int, sy: int, w: int, h: int) -> bool {
    &&& 0 < w
    &&& 0 < h
    &&& sx < size.0
    &&& 0 < sx + w
    &&& sy < size.1
    &&& 0 < sy + h
}

/// A rectangle of `w` × `h` pixels at `(x, y)` can be filled.
pub open spec fn rect_drawable(x: int, y: int, w: int, h: int) -> bool {
    &&& 0 < w <= i32::MAX
    &&& 0 < h <= i32::MAX
    &&& i32::MIN <= x
    &&& i32::MIN <= y
    &&& x + w <= i32::MAX
    &&& y + h <= i32::MAX
}

/// The window of `frame` can be drawn on a picture of size `size` with
/// `theme`.
pub open spec fn window_drawable(
    size: (u32, u32),
    frame: WindowFrame,
    theme: Theme,
    decoration: bool,
    shadow: bool,
) -> bool {
    let (x, y) = (frame.win_x as int, frame.win_y as int);
    let (w, h) = (frame.window_width as int, frame.window_height as int);
    let r = frame.win_radius as int;
    let bw = theme.border_width as int;
    let tb = frame.title_bar_height as int;
    let cr = theme.corner_radius as int;
    &&& 0 < size.0 <= i32::MAX
    &&& 0 < size.1 <= i32::MAX
    &&& shadow ==> {
        &&& r == 0 || (r <= w && r <= h) || !meets_image(
            size,
            x + theme.shadow_offset,
            y + theme.shadow_offset,
            w,
            h,
        )
        &&& theme.shadow_offset <= i32::MAX
        &&& w <= i32::MAX
        &&& h <= i32::MAX
        &&& i32::MIN <= x + theme.shadow_offset
        &&& i32::MIN <= y + theme.shadow_offset
        &&& x + theme.shadow_offset + w <= i32::MAX
        &&& y + theme.shadow_offset + h <= i32::MAX
    }
    &&& (!decoration && bw > 0) ==> {
        &&& bw <= i32::MAX
        &&& w + bw * 2 <= u32::MAX
        &&& h + bw * 2 <= u32::MAX
        &&& rect_drawable(x - bw, y - bw, w + bw * 2, h + bw * 2)
    }
    &&& rounded_ok(x, y, w, h, r)
    &&& decoration ==> {
        &&& cr < tb
        &&& rect_drawable(x, y + cr, w, tb - cr)
        &&& rounded_ok(x, y, w, tb, cr)
        &&& rect_drawable(x, y + tb - 1, w, 1)
        &&& circle_drawable(button_x(frame, theme, 0), button_y(frame, theme), theme.button_radius as int)
        &&& circle_drawable(button_x(frame, theme, 1), button_y(frame, theme), theme.button_radius as int)
        &&& circle_drawable(button_x(frame, theme, 2), button_y(frame, theme), theme.button_radius as int)
        &&& fits_i32_sum(frame, theme)
    }
}

/// The sums that place the title bar buttons fit an `i32`.
pub open spec fn fits_i32_sum(frame: WindowFrame, theme: Theme) -> bool {
    &&& i32::MIN <= frame.win_x + theme.button_x_start <= i32::MAX
    &&& i32::MIN <= 2 * theme.button_spacing <= i32::MAX
    &&& i32::MIN <= frame.win_x + theme.button_x_start + theme.button_spacing <= i32::MAX
    &&& i32::MIN <= frame.win_x + theme.button_x_start + 2 * theme.button_spacing <= i32::MAX
    &&& i32::MIN <= frame.win_y + theme.button_y_center <= i32::MAX
}

fn rect_ok(x: i64, y: i64, w: i64, h: i64) -> (ok: bool)
    requires
        -0x1_0000_0000_0000 <= x <= 0x1_0000_0000_0000,
        -0x1_0000_0000_0000 <= y <= 0x1_0000_0000_0000,
        -0x1_0000_0000_0000 <= w <= 0x1_0000_0000_0000,
        -0x1_0000_0000_0000 <= h <= 0x1_0000_0000_0000,
    ensures
        ok == rect_drawable(x as int, y as int, w as int, h as int),
{
    0 < w && w <= i32::MAX as i64 && 0 < h && h <= i32::MAX as i64 && i32::MIN as i64 <= x
        && i32::MIN as i64 <= y && x + w <= i32::MAX as i64 && y + h <= i32::MAX as i64
}

fn circle_ok(cx: i64, cy: i64, r: i64) -> (ok: bool)
    requires
        -0x1_0000_0000_0000 <= cx <= 0x1_0000_0000_0000,
        -0x1_0000_0000_0000 <= cy <= 0x1_0000_0000_0000,
        -0x1_0000_0000_0000 <= r <= 0x1_0000_0000_0000,
    ensures
        ok == circle_drawable(cx as int, cy as int, r as int),
{
    (r < 0 && 1 - r <= i32::MAX as i64) || (0 <= r && r < 0x4000_0000 && i32::MIN as i64 <= cx
        - r && cx + r <= i32::MAX as i64 - 64 && i32::MIN as i64 <= cy - r && cy + r
        <= i32::MAX as i64)
}

fn rounded_rect_ok(x: i64, y: i64, w: i64, h: i64, r: i64) -> (ok: bool)
    requires
        -0x1_0000_0000_0000 <= x <= 0x1_0000_0000_0000,
        -0x1_0000_0000_0000 <= y <= 0x1_0000_0000_0000,
        -0x1_0000_0000_0000 <= w <= 0x1_0000_0000_0000,
        -0x1_0000_0000_0000 <= h <= 0x1_0000_0000_0000,
        0 <= r <= 0x1_0000_0000_0000,
    ensures
        ok == rounded_ok(x as int, y as int, w as int, h as int, r as int),
{
    if !(rect_ok(x, y, w, h) && 2 * r <= u32::MAX as i64) {
        return false;
    }
    if r != 0 && h >= 2 * r && w >= 2 * r {
        h > 2 * r && w > 2 * r && x + w <= i32::MAX as i64 - 63
    } else {
        true
    }
}

/// Whether `draw_window` can draw the window of `frame` on a picture of size
/// `size` with `theme`.
pub fn window_is_drawable(
    size: (u32, u32),
    frame: &WindowFrame,
    theme: &Theme,
    decoration: bool,
    shadow: bool,
) -> (ok: bool)
    ensures
        ok == window_drawable(size, *frame, *theme, decoration, shadow),
{
    let x = frame.win_x as i64;
    let y = frame.win_y as i64;
    let w = frame.window_width as i64;
    let h = frame.window_height as i64;
    let r = frame.win_radius as i64;
    let bw = theme.border_width as i64;
    let tb = frame.title_bar_height as i64;
    let cr = theme.corner_radius as i64;
    let off = theme.shadow_offset as i64;
    if !(0 < size.0 && size.0 <= i32::MAX as u32 && 0 < size.1 && size.1 <= i32::MAX as u32) {
        return false;
    }
    if shadow {
        let meets = 0 < w && 0 < h && x + off < size.0 as i64 && 0 < x + off + w && y + off
            < size.1 as i64 && 0 < y + off + h;
        if !((r == 0 || (r <= w && r <= h) || !meets) && off <= i32::MAX as i64 && w <= i32::MAX as i64 && h
            <= i32::MAX as i64 && i32::MIN as i64 <= x + off && i32::MIN as i64 <= y + off && x
            + off + w <= i32::MAX as i64 && y + off + h <= i32::MAX as i64) {
            return false;
        }
    }
    if !decoration && bw > 0 {
        if !(bw <= i32::MAX as i64 && w + bw * 2 <= u32::MAX as i64 && h + bw * 2 <= u32::MAX as i64
            && rect_ok(x - bw, y - bw, w + bw * 2, h + bw * 2)) {
            return false;
        }
    }
    if !rounded_rect_ok(x, y, w, h, r) {
        return false;
    }
    if decoration {
        let sx = theme.button_x_start as i64;
        let sp = theme.button_spacing as i64;
        let by = y + theme.button_y_center as i64;
        let br = theme.button_radius as i64;
        if !(cr < tb && rect_ok(x, y + cr, w, tb - cr) && rounded_rect_ok(x, y, w, tb, cr)) {
            return false;
        }
        if !(rect_ok(x, y + tb - 1, w, 1) && circle_ok(x + sx, by, br) && circle_ok(
            x + sx + sp,
            by,
            br,
        ) && circle_ok(x + sx + 2 * sp, by, br)) {
            return false;
        }
        if !(i32::MIN as i64 <= x + sx && x + sx <= i32::MAX as i64 && i32::MIN as i64 <= 2 * sp
            && 2 * sp <= i32::MAX as i64 && i32::MIN as i64 <= x + sx + sp && x + sx + sp
            <= i32::MAX as i64 && i32::MIN as i64 <= x + sx + 2 * sp && x + sx + 2 * sp
            <= i32::MAX as i64 && i32::MIN as i64 <= by && by <= i32::MAX as i64) {
            return false;
        }
    }
    true
}

/// The pixels of the picture once the window of `frame` is drawn on `m`:
/// the shadow, the border (undecorated windows only), the background with
/// its corners rounded, then for decorated windows the title bar, the line
/// under it and the three buttons.
pub open spec fn window_pixels(
    m: Map<(u32, u32), Rgba8>,
    frame: WindowFrame,
    theme: Theme,
    decoration: bool,
    shadow: bool,
    blend: ShadowBlend,
) -> Map<(u32, u32), Rgba8> {
    let (x, y) = (frame.win_x as int, frame.win_y as int);
    let (w, h) = (frame.window_width as int, frame.window_height as int);
    let bw = theme.border_width as int;
    let tb = frame.title_bar_height as int;
    let cr = theme.corner_radius as int;
    let m1 = if shadow {
        with_shadow(m, blend, x + theme.shadow_offset, y + theme.shadow_offset, w, h, frame.win_radius as int)
    } else {
        m
    };
    let m2 = if !decoration && bw > 0 {
        paint(m1, rect_area(x - bw, y - bw, w + bw * 2, h + bw * 2), theme.border_color)
    } else {
        m1
    };
    let m3 = paint(m2, rounded_area(x, y, w, h, frame.win_radius as int), theme.bg_color);
    if decoration {
        let m4 = paint(m3, rect_area(x, y + cr, w, tb - cr), theme.title_bar_color);
        let m5 = paint(m4, rounded_area(x, y, w, tb, cr), theme.title_bar_color);
        let m6 = paint(m5, rect_area(x, y + tb - 1, w, 1), divider_line_color());
        let by = button_y(frame, theme) as i32;
        let br = theme.button_radius;
        let m7 = paint(m6, circle_points(button_x(frame, theme, 0) as i32, by, br), theme.close_color);
        let m8 = paint(m7, circle_points(button_x(frame, theme, 1) as i32, by, br), theme.minimize_color);
        paint(m8, circle_points(button_x(frame, theme, 2) as i32, by, br), theme.maximize_color)
    } else {
        m3
    }
}

/// The window covers its own shadow: every pixel of the window's rounded
/// background comes out the same whether or not the shadow is cast, and on
/// an undecorated window it is the theme's background colour.
pub proof fn lemma_window_covers_shadow(
    m: Map<(u32, u32), Rgba8>,
    frame: WindowFrame,
    theme: Theme,
    decoration: bool,
    blend: ShadowBlend,
    p: (u32, u32),
)
    requires
        m.dom().contains(p),
        rounded_area(
            frame.win_x as int,
            frame.win_y as int,
            frame.window_width as int,
            frame.window_height as int,
            frame.win_radius as int,
        ).contains((p.0 as int, p.1 as int)),
    ensures
        window_pixels(m, frame, theme, decoration, true, blend).dom().contains(p),
        window_pixels(m, frame, theme, decoration, true, blend)[p] == window_pixels(
            m,
            frame,
            theme,
            decoration,
            false,
            blend,
        )[p],
        !decoration ==> window_pixels(m, frame, theme, decoration, true, blend)[p] == theme.bg_color,
{
}

/// Around an undecorated window the shadow falls where it is cast: a pixel
/// that neither the window's background nor its border covers is shaded
/// when it lies under the shadow, offset by the theme's shadow offset and
/// rounded like the window, and keeps its colour otherwise; without a shadow
/// it keeps its colour.
pub proof fn lemma_shadow_outside_window(
    m: Map<(u32, u32), Rgba8>,
    frame: WindowFrame,
    theme: Theme,
    shadow: bool,
    blend: ShadowBlend,
    p: (u32, u32),
)
    requires
        m.dom().contains(p),
        !rounded_area(
            frame.win_x as int,
            frame.win_y as int,
            frame.window_width as int,
            frame.window_height as int,
            frame.win_radius as int,
        ).contains((p.0 as int, p.1 as int)),
        theme.border_width == 0 || !rect_area(
            frame.win_x - theme.border_width,
            frame.win_y - theme.border_width,
            frame.window_width + theme.border_width * 2,
            frame.window_height + theme.border_width * 2,
        ).contains((p.0 as int, p.1 as int)),
    ensures
        window_pixels(m, frame, theme, false, shadow, blend)[p] == if shadow && shadow_covers(
            p,
            frame.win_x + theme.shadow_offset,
            frame.win_y + theme.shadow_offset,
            frame.window_width as int,
            frame.window_height as int,
            frame.win_radius as int,
        ) {
            shaded(blend, m[p])
        } else {
            m[p]
        },
{
}

/// Draws the window of `frame`: its shadow when `shadow` is set (shaded by
/// `blend`), its border when it is not decorated, its background, and for a
/// decorated window its title bar with the close, minimize and maximize
/// buttons.
pub fn draw_window(
    img: &mut Canvas,
    frame: &WindowFrame,
    theme: &Theme,
    decoration: bool,
    shadow: bool,
    blend: &ShadowBlend,
)
    requires
        canvas_ok(*old(img)),
        blend_ok(*blend),
        window_drawable(image_size(*old(img)), *frame, *theme, decoration, shadow),
    ensures
        image_size(*final(img)) == image_size(*old(img)),
        canvas_ok(*final(img)),
        image_pixels(*final(img)) == window_pixels(
            image_pixels(*old(img)),
            *frame,
            *theme,
            decoration,
            shadow,
            *blend,
        ),
{
    let ghost size = image_size(*img);
    let win_x = frame.win_x;
    let win_y = frame.win_y;
    let window_width = frame.window_width;
    let window_height = frame.window_height;
    let title_bar_h = frame.title_bar_height;
    // Shadow
    if shadow {
        draw_shadow(
            img,
            win_x,
            win_y,
            window_width,
            window_height,
            theme.shadow_offset,
            frame.win_radius,
            blend,
        );
    }
    // Window border (no-decoration mode only)
    if !decoration && theme.border_width > 0 {
        let bw = theme.border_width;
        fill_rect(
            img,
            win_x - bw as i32,
            win_y - bw as i32,
            window_width + bw * 2,
            window_height + bw * 2,
            theme.border_color,
        );
    }
    // Window background
    draw_rounded_rect_filled(
        img,
        win_x,
        win_y,
        window_width,
        window_height,
        frame.win_radius,
        theme.bg_color,
    );
    // Title bar
    if decoration {
        fill_rect(
            img,
            win_x,
            win_y + theme.corner_radius as i32,
            window_width,
            title_bar_h - theme.corner_radius,
            theme.title_bar_color,
        );
        draw_rounded_rect_filled(
            img,
            win_x,
            win_y,
            window_width,
            title_bar_h,
            theme.corner_radius,
            theme.title_bar_color,
        );
        // Divider line between title bar and content
        fill_rect(img, win_x, win_y + title_bar_h as i32 - 1, window_width, 1, Rgba8(30, 34, 42, 255));
        // Traffic light buttons
        let btn_y = win_y + theme.button_y_center;
        let close_x = win_x + theme.button_x_start + (0i32 * theme.button_spacing);
        fill_circle(img, close_x, btn_y, theme.button_radius, theme.close_color);
        let minimize_x = win_x + theme.button_x_start + (1i32 * theme.button_spacing);
        fill_circle(img, minimize_x, btn_y, theme.button_radius, theme.minimize_color);
        let maximize_x = win_x + theme.button_x_start + (2i32 * theme.button_spacing);
        fill_circle(img, maximize_x, btn_y, theme.button_radius, theme.maximize_color);
    }
}

/// Fills the background of a cell of `cell_w` × `cell_h` pixels at `(x, y)`
/// when its paint asks for it.
pub fn paint_cell_background(
    img: &mut Canvas,
    x: i32,
    y: i32,
    cell_w: u32,
    cell_h: u32,
    style: &CellPaint,
)
    requires
        canvas_ok(*old(img)),
        0 < image_size(*old(img)).0 <= i32::MAX,
        0 < image_size(*old(img)).1 <= i32::MAX,
        style.fill_background ==> rect_drawable(x as int, y as int, cell_w as int, cell_h as int),
    ensures
        image_size(*final(img)) == image_size(*old(img)),
        canvas_ok(*final(img)),
        image_pixels(*final(img)) == if style.fill_background {
            paint(image_pixels(*old(img)), rect_area(x as int, y as int, cell_w as int, cell_h as int), style.bg)
        } else {
            image_pixels(*old(img))
        },
{
    if style.fill_background {
        fill_rect(img, x, y, cell_w, cell_h, style.bg);
    }
}

/// The row of a cell of height `cell_h` at `y` that its underline is drawn
/// on: two pixels above the cell's bottom edge.
pub open spec fn underline_row(y: int, cell_h: int) -> int {
    y + cell_h - 2
}

/// Draws the underline of a cell of `cell_w` × `cell_h` pixels at `(x, y)`,
/// one pixel high in the text colour, when its paint asks for it.
pub fn paint_cell_underline(
    img: &mut Canvas,
    x: i32,
    y: i32,
    cell_w: u32,
    cell_h: u32,
    style: &CellPaint,
)
    requires
        canvas_ok(*old(img)),
        0 < image_size(*old(img)).0 <= i32::MAX,
        0 < image_size(*old(img)).1 <= i32::MAX,
        cell_h <= i32::MAX,
        style.underline ==> y + cell_h <= i32::MAX && rect_drawable(
            x as int,
            underline_row(y as int, cell_h as int),
            cell_w as int,
            1,
        ),
    ensures
        image_size(*final(img)) == image_size(*old(img)),
        canvas_ok(*final(img)),
        image_pixels(*final(img)) == if style.underline {
            paint(
                image_pixels(*old(img)),
                rect_area(x as int, underline_row(y as int, cell_h as int), cell_w as int, 1),
                style.fg,
            )
        } else {
            image_pixels(*old(img))
        },
{
    if style.underline {
        let underline_y = y + cell_h as i32 - 2;
        fill_rect(img, x, underline_y, cell_w, 1, style.fg);
    }
}

} // verus!
