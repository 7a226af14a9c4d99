//! The RGBA image of the `image` crate and the drawing primitives of the
//! `imageproc` crate, seen through the colours of the image's pixels.

use vstd::prelude::*;

use crate::theme::Rgba8;
use image::RgbaImage;

verus! {

/// An RGBA image of the `image` crate, which the drawing functions of this
/// library paint on. The image sits in a field whose contents the proofs do
/// not see (`ImageBuffer` bounds its pixel type by the outside trait
/// `image::Pixel`); `image_pixels` and `image_size` describe what it holds.
#[verifier::external_body]
pub struct Canvas {
    pub image: RgbaImage,
}

/// The colour of each pixel `(x, y)` of an image (red, green, blue and alpha
/// copied from its `image::Rgba<u8>`).
pub uninterp spec fn image_pixels(img: Canvas) -> Map<(u32, u32), Rgba8>;

/// The `(width, height)` of an image.
pub uninterp spec fn image_size(img: Canvas) -> (u32, u32);

/// The points that `imageproc::drawing::draw_filled_circle_mut` draws for a
/// circle of radius `r` around `(cx, cy)` on a canvas large enough to hold
/// them all.
pub uninterp spec fn circle_points(cx: i32, cy: i32, r: i32) -> Set<(int, int)>;

/// An image holds one pixel for each position inside its size.
pub open spec fn canvas_ok(img: Canvas) -> bool {
    forall|p: (u32, u32)|
        #[trigger] image_pixels(img).dom().contains(p) <==> p.0 < image_size(img).0 && p.1
            < image_size(img).1
}

/// The pixels `m` with every pixel whose position is in `area` set to `color`.
pub open spec fn paint(m: Map<(u32, u32), Rgba8>, area: Set<(int, int)>, color: Rgba8) -> Map<
    (u32, u32),
    Rgba8,
> {
    Map::new(
        |p: (u32, u32)| m.dom().contains(p),
        |p: (u32, u32)|
            if area.contains((p.0 as int, p.1 as int)) {
                color
            } else {
                m[p]
            },
    )
}

/// The positions of the rectangle of `w` × `h` pixels whose top left pixel
/// is `(x, y)`.
pub open spec fn rect_area(x: int, y: int, w: int, h: int) -> Set<(int, int)> {
    Set::new(|p: (int, int)| x <= p.0 < x + w && y <= p.1 < y + h)
}

/// The square of side `2r + 1` centred on `(cx, cy)`.
pub open spec fn square_around(cx: int, cy: int, r: int) -> Set<(int, int)> {
    rect_area(cx - r, cy - r, 2 * r + 1, 2 * r + 1)
}

/// A circle of radius `r >= 0` around `(cx, cy)` can be drawn: its
/// coordinates fit an `i32`, its right edge stays 64 below `i32::MAX`, and
/// `2r + 1` fits.
pub open spec fn circle_fits(cx: int, cy: int, r: int) -> bool {
    &&& 0 <= r < 0x4000_0000
    &&& i32::MIN <= cx - r
    &&& cx + r <= i32::MAX - 64
    &&& i32::MIN <= cy - r
    &&& cy + r <= i32::MAX
}

/// Every coordinate the circle reaches is below 2^24 in magnitude, so exact
/// as an `f32`.
pub open spec fn circle_is_exact(cx: i32, cy: i32, r: i32) -> bool {
    &&& -0x100_0000 < cx - r
    &&& cx + r < 0x100_0000
    &&& -0x100_0000 < cy - r
    &&& cy + r < 0x100_0000
}

/// `ImageBuffer::from_pixel`: a new image of `width` × `height` pixels, all of
/// colour `color`.
///
/// Trusted: the image has that size and every pixel that colour. The buffer
/// of four bytes per pixel must fit a vector, or the call panics.
#[verifier::external_body]
pub(crate) fn new_image(width: u32, height: u32, color: Rgba8) -> (img: Canvas)
    requires
        4 * width * height <= isize::MAX,
    ensures
        image_size(img) == (width, height),
        canvas_ok(img),
        forall|p: (u32, u32)| #[trigger] image_pixels(img).dom().contains(p) ==> image_pixels(img)[p] == color,
{
    Canvas { image: RgbaImage::from_pixel(width, height, image::Rgba([color.0, color.1, color.2, color.3])) }
}

/// `ImageBuffer::width`.
#[verifier::external_body]
pub(crate) fn image_width(img: &Canvas) -> (w: u32)
    ensures
        w == image_size(*img).0,
{
    img.image.width()
}

/// `ImageBuffer::height`.
#[verifier::external_body]
pub(crate) fn image_height(img: &Canvas) -> (h: u32)
    ensures
        h == image_size(*img).1,
{
    img.image.height()
}

/// `ImageBuffer::get_pixel`: the colour of pixel `(x, y)`; it panics outside
/// the image.
#[verifier::external_body]
pub(crate) fn get_pixel(img: &Canvas, x: u32, y: u32) -> (c: Rgba8)
    requires
        x < image_size(*img).0,
        y < image_size(*img).1,
    ensures
        c == image_pixels(*img)[(x, y)],
{
    let p = img.image.get_pixel(x, y);
    Rgba8(p.0[0], p.0[1], p.0[2], p.0[3])
}

/// `ImageBuffer::put_pixel`: sets pixel `(x, y)` to `color`, leaving the size
/// and the other pixels; it panics outside the image.
#[verifier::external_body]
pub(crate) fn put_pixel(img: &mut Canvas, x: u32, y: u32, color: Rgba8)
    requires
        x < image_size(*old(img)).0,
        y < image_size(*old(img)).1,
    ensures
        image_size(*final(img)) == image_size(*old(img)),
        image_pixels(*final(img)) == image_pixels(*old(img)).insert((x, y), color),
{
    img.image.put_pixel(x, y, image::Rgba([color.0, color.1, color.2, color.3]))
}

/// `imageproc::drawing::draw_filled_rect_mut` with `Rect::at(x, y).of_size(w, h)`:
/// sets every pixel of the rectangle that lies inside the image to `color`.
///
/// Trusted: the size is kept and exactly the pixels of the rectangle change.
/// `Rect::of_size` panics on an empty rectangle, and the canvas itself is
/// made a `Rect` of its own size, so both must have pixels; the corners of
/// both are computed as `i32` (`left + width - 1`).
#[verifier::external_body]
pub(crate) fn fill_rect(img: &mut Canvas, x: i32, y: i32, w: u32, h: u32, color: Rgba8)
    requires
        0 < w <= i32::MAX,
        0 < h <= i32::MAX,
        x + w <= i32::MAX,
        y + h <= i32::MAX,
        0 < image_size(*old(img)).0 <= i32::MAX,
        0 < image_size(*old(img)).1 <= i32::MAX,
    ensures
        image_size(*final(img)) == image_size(*old(img)),
        image_pixels(*final(img)) == paint(
            image_pixels(*old(img)),
            rect_area(x as int, y as int, w as int, h as int),
            color,
        ),
{
    let rect = imageproc::rect::Rect::at(x, y).of_size(w, h);
    imageproc::drawing::draw_filled_rect_mut(&mut img.image, rect, image::Rgba([color.0, color.1, color.2, color.3]))
}

/// `imageproc::drawing::draw_filled_circle_mut`: sets every point of the
/// filled circle of radius `r` around `(cx, cy)` that lies inside the image to
/// `color`.
///
/// Trusted: the size is kept and exactly the pixels of `circle_points`
/// change. For a negative radius the midpoint loop does not run and nothing
/// is drawn (its start value `1 - r` is computed as an `i32`). Otherwise the
/// loop keeps `x <= y <= r`, computing `2x + 1` and `cx ± y`, `cy ± y` as
/// `i32`, and draws horizontal spans from `cx - a` to `cx + a` at heights
/// `cy ± b` with `a, b <= r`, the middle one from `cx - r` to `cx + r`. Each
/// span's ends are converted to `f32` and walked with an `i32` counter up to
/// the right end taken back as `i32`; an end within 64 of `i32::MAX` rounds
/// to 2^31, saturates, and the counter overflows, so those are left out.
/// With every end below 2^24 in magnitude the conversions are exact: the
/// points then lie within the square of side `2r + 1` around the centre,
/// include the middle span, and, for `r >= 1`, leave out the square's four
/// corners (the loop moves `y` below `r` before `x` reaches `r`, as its
/// decision value `(x + 1)^2 - r` is not negative at `x = r - 1`). Which other
/// points of the rows in between are drawn is not stated: only a
/// reimplementation of the midpoint loop would say it.
#[verifier::external_body]
pub(crate) fn fill_circle(img: &mut Canvas, cx: i32, cy: i32, r: i32, color: Rgba8)
    requires
        r < 0 ==> 1 - r <= i32::MAX,
        r >= 0 ==> circle_fits(cx as int, cy as int, r as int),
        image_size(*old(img)).0 <= i32::MAX,
        image_size(*old(img)).1 <= i32::MAX,
    ensures
        image_size(*final(img)) == image_size(*old(img)),
        image_pixels(*final(img)) == paint(image_pixels(*old(img)), circle_points(cx, cy, r), color),
        r < 0 ==> image_pixels(*final(img)) == image_pixels(*old(img)),
        r >= 0 && circle_is_exact(cx, cy, r) ==> forall|p: (u32, u32)|
            #[trigger] image_pixels(*old(img)).dom().contains(p) && !square_around(
                cx as int,
                cy as int,
                r as int,
            ).contains((p.0 as int, p.1 as int)) ==> image_pixels(*final(img))[p] == image_pixels(
                *old(img),
            )[p],
        r >= 0 && circle_is_exact(cx, cy, r) ==> forall|p: (u32, u32)|
            #[trigger] image_pixels(*old(img)).dom().contains(p) && p.1 == cy && cx - r <= p.0
                <= cx + r ==> image_pixels(*final(img))[p] == color,
        r >= 1 && circle_is_exact(cx, cy, r) ==> forall|p: (u32, u32)|
            #[trigger] image_pixels(*old(img)).dom().contains(p) && (p.0 == cx - r || p.0 == cx
                + r) && (p.1 == cy - r || p.1 == cy + r) ==> image_pixels(*final(img))[p]
                == image_pixels(*old(img))[p],
{
    imageproc::drawing::draw_filled_circle_mut(&mut img.image, (cx, cy), r, image::Rgba([color.0, color.1, color.2, color.3]))
}

} // verus!
