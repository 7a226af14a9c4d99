use rustshot::canvas::Canvas;
use rustshot::layout::{window_frame, CellPaint, WindowFrame};
use rustshot::renderer::{
    blank_canvas, draw_rounded_rect_filled, draw_shadow, draw_window, is_inside_rounded_rect,
    paint_cell_background, paint_cell_underline, window_is_drawable, ShadowBlend,
};
use rustshot::theme::{Rgba8, Theme};

fn frame(w: u32, h: u32, bg: Rgba8) -> WindowFrame {
    WindowFrame {
        title_bar_height: 0,
        window_width: w,
        window_height: h,
        image_width: w,
        image_height: h,
        outer_bg: bg,
        win_x: 0,
        win_y: 0,
        win_radius: 0,
        content_x: 0,
        content_y: 0,
    }
}

fn px(c: &Canvas, x: u32, y: u32) -> [u8; 4] {
    c.image.get_pixel(x, y).0
}

const WHITE: Rgba8 = Rgba8(255, 255, 255, 255);
const RED: Rgba8 = Rgba8(255, 0, 0, 255);

#[test]
fn blank_canvas_has_frame_size_and_color() {
    let c = blank_canvas(&frame(7, 5, Rgba8(1, 2, 3, 4)));
    assert_eq!(c.image.dimensions(), (7, 5));
    assert_eq!(px(&c, 6, 4), [1, 2, 3, 4]);
}

#[test]
fn corner_pixels_are_cut() {
    assert!(!is_inside_rounded_rect(0, 0, 20, 20, 5));
    assert!(!is_inside_rounded_rect(0, 1, 20, 20, 5));
    assert!(is_inside_rounded_rect(1, 1, 20, 20, 5));
    assert!(is_inside_rounded_rect(2, 2, 20, 20, 5));
    assert!(is_inside_rounded_rect(10, 0, 20, 20, 5));
    assert!(is_inside_rounded_rect(0, 0, 20, 20, 0));
}

#[test]
fn rounded_rect_is_symmetric() {
    for py in 0..20 {
        for px in 0..20 {
            let a = is_inside_rounded_rect(px, py, 20, 20, 6);
            assert_eq!(a, is_inside_rounded_rect(19 - px, py, 20, 20, 6));
            assert_eq!(a, is_inside_rounded_rect(px, 19 - py, 20, 20, 6));
        }
    }
}

#[test]
fn rounded_rect_matches_float_formula() {
    for r in 1..12u32 {
        for py in 0..30u32 {
            for px in 0..30u32 {
                let (w, h) = (30u32, 30u32);
                let in_left = px < r;
                let in_right = px >= w - r;
                let in_top = py < r;
                let in_bottom = py >= h - r;
                let rf = r as f32;
                let d = |dx: f32, dy: f32| dx * dx + dy * dy <= rf * rf;
                let expected = if in_left && in_top {
                    d(rf - px as f32 - 0.5, rf - py as f32 - 0.5)
                } else if in_right && in_top {
                    d(px as f32 - (w - r) as f32 + 0.5, rf - py as f32 - 0.5)
                } else if in_left && in_bottom {
                    d(rf - px as f32 - 0.5, py as f32 - (h - r) as f32 + 0.5)
                } else if in_right && in_bottom {
                    d(px as f32 - (w - r) as f32 + 0.5, py as f32 - (h - r) as f32 + 0.5)
                } else {
                    true
                };
                assert_eq!(is_inside_rounded_rect(px, py, w, h, r), expected);
            }
        }
    }
}

#[test]
fn square_rect_fills_its_box() {
    let mut c = blank_canvas(&frame(30, 30, WHITE));
    draw_rounded_rect_filled(&mut c, 5, 5, 10, 8, 0, RED);
    assert_eq!(px(&c, 5, 5), [255, 0, 0, 255]);
    assert_eq!(px(&c, 14, 12), [255, 0, 0, 255]);
    assert_eq!(px(&c, 15, 12), [255, 255, 255, 255]);
    assert_eq!(px(&c, 14, 13), [255, 255, 255, 255]);
    assert_eq!(px(&c, 4, 5), [255, 255, 255, 255]);
}

#[test]
fn rounded_rect_cuts_corners_and_stays_in_its_box() {
    let mut c = blank_canvas(&frame(40, 40, WHITE));
    draw_rounded_rect_filled(&mut c, 5, 5, 20, 20, 4, RED);
    assert_eq!(px(&c, 5, 5), [255, 255, 255, 255]);
    assert_eq!(px(&c, 5, 9), [255, 0, 0, 255]);
    assert_eq!(px(&c, 15, 15), [255, 0, 0, 255]);
    assert_eq!(px(&c, 24, 15), [255, 0, 0, 255]);
    assert_eq!(px(&c, 24, 24), [255, 255, 255, 255]);
    for i in 0..40 {
        assert_eq!(px(&c, 4, i), [255, 255, 255, 255]);
        assert_eq!(px(&c, 25, i), [255, 255, 255, 255]);
        assert_eq!(px(&c, i, 4), [255, 255, 255, 255]);
        assert_eq!(px(&c, i, 25), [255, 255, 255, 255]);
    }
}

fn halving_blend() -> ShadowBlend {
    let table: Vec<u8> = (0..=255u32).map(|v| (v / 2) as u8).collect();
    ShadowBlend { red: table.clone(), green: table.clone(), blue: table }
}

#[test]
fn square_shadow_is_offset() {
    let mut c = blank_canvas(&frame(20, 20, WHITE));
    draw_shadow(&mut c, 0, 0, 10, 10, 2, 0, &halving_blend());
    assert_eq!(px(&c, 1, 1), [255, 255, 255, 255]);
    assert_eq!(px(&c, 2, 2), [127, 127, 127, 255]);
    assert_eq!(px(&c, 11, 11), [127, 127, 127, 255]);
    assert_eq!(px(&c, 12, 11), [255, 255, 255, 255]);
}

#[test]
fn shadow_is_clipped_and_rounded() {
    let mut c = blank_canvas(&frame(10, 10, WHITE));
    draw_shadow(&mut c, -5, -5, 20, 20, 0, 5, &halving_blend());
    assert_eq!(px(&c, 0, 0), [127, 127, 127, 255]);
    assert_eq!(px(&c, 9, 9), [127, 127, 127, 255]);
    let mut d = blank_canvas(&frame(30, 30, WHITE));
    draw_shadow(&mut d, 0, 0, 20, 20, 0, 5, &halving_blend());
    assert_eq!(px(&d, 0, 0), [255, 255, 255, 255]);
    assert_eq!(px(&d, 1, 1), [127, 127, 127, 255]);
}

#[test]
fn decorated_window_chrome() {
    let theme = Theme::default();
    let f = window_frame(100, 50, 16, 0, true, false, &theme);
    let mut c = blank_canvas(&f);
    let blend = halving_blend();
    assert!(window_is_drawable((f.image_width, f.image_height), &f, &theme, true, false));
    draw_window(&mut c, &f, &theme, true, false, &blend);
    assert_eq!(px(&c, 0, 0), [0, 0, 0, 0]);
    assert_eq!(px(&c, 100, 25), [50, 54, 62, 255]);
    assert_eq!(px(&c, 66, 37), [30, 34, 42, 255]);
    assert_eq!(px(&c, 66, 60), [21, 21, 21, 255]);
    assert_eq!(px(&c, 20, 19), [255, 95, 87, 255]);
    assert_eq!(px(&c, 42, 19), [255, 189, 46, 255]);
    assert_eq!(px(&c, 64, 19), [39, 201, 63, 255]);
}

#[test]
fn plain_window_has_border_and_shadow() {
    let theme = Theme::default();
    let f = window_frame(20, 10, 4, 3, false, true, &theme);
    let mut c = blank_canvas(&f);
    let table: Vec<u8> = (0..=255u32).map(|v| (v / 2) as u8).collect();
    let blend = ShadowBlend { red: table.clone(), green: table.clone(), blue: table };
    assert!(window_is_drawable((f.image_width, f.image_height), &f, &theme, false, true));
    draw_window(&mut c, &f, &theme, false, true, &blend);
    assert_eq!(px(&c, 2, 2), [80, 84, 92, 255]);
    assert_eq!(px(&c, 3, 3), [21, 21, 21, 255]);
    assert_eq!((f.image_width, f.image_height), (42, 32));
    assert_eq!(px(&c, 38, 28), [15, 15, 15, 255]);
    assert_eq!(px(&c, 41, 31), [30, 30, 30, 255]);
    assert_eq!(px(&c, 0, 0), [30, 30, 30, 255]);
}

#[test]
fn undrawable_window_is_detected() {
    let theme = Theme::default();
    let mut f = window_frame(100, 50, 16, 0, true, false, &theme);
    f.title_bar_height = 10;
    assert!(!window_is_drawable((f.image_width, f.image_height), &f, &theme, true, false));
}

fn paint(fill: bool, underline: bool) -> CellPaint {
    CellPaint {
        fg: RED,
        bg: Rgba8(0, 0, 255, 255),
        fill_background: fill,
        draw_text: true,
        bold: false,
        underline,
    }
}

#[test]
fn cell_background_and_underline() {
    let mut c = blank_canvas(&frame(20, 20, WHITE));
    paint_cell_background(&mut c, 2, 3, 4, 6, &paint(true, true));
    assert_eq!(px(&c, 2, 3), [0, 0, 255, 255]);
    assert_eq!(px(&c, 5, 8), [0, 0, 255, 255]);
    assert_eq!(px(&c, 6, 8), [255, 255, 255, 255]);
    paint_cell_underline(&mut c, 2, 3, 4, 6, &paint(true, true));
    assert_eq!(px(&c, 2, 7), [255, 0, 0, 255]);
    assert_eq!(px(&c, 5, 7), [255, 0, 0, 255]);
    assert_eq!(px(&c, 2, 8), [0, 0, 255, 255]);
}

#[test]
fn cell_without_background_or_underline_is_untouched() {
    let mut c = blank_canvas(&frame(20, 20, WHITE));
    paint_cell_background(&mut c, 2, 3, 4, 6, &paint(false, false));
    paint_cell_underline(&mut c, 2, 3, 4, 6, &paint(false, false));
    for y in 0..20 {
        for x in 0..20 {
            assert_eq!(px(&c, x, y), [255, 255, 255, 255]);
        }
    }
}

#[test]
fn shadow_outside_the_image_changes_nothing() {
    let mut c = blank_canvas(&frame(5, 5, WHITE));
    draw_shadow(&mut c, 10, 10, 2, 2, 0, 5, &halving_blend());
    for y in 0..5 {
        for x in 0..5 {
            assert_eq!(px(&c, x, y), [255, 255, 255, 255]);
        }
    }
}

#[test]
fn negative_button_radius_draws_no_button() {
    let mut theme = Theme::default();
    theme.button_radius = -3;
    let f = window_frame(100, 50, 16, 0, true, false, &theme);
    let mut c = blank_canvas(&f);
    assert!(window_is_drawable((f.image_width, f.image_height), &f, &theme, true, false));
    draw_window(&mut c, &f, &theme, true, false, &halving_blend());
    assert_eq!(px(&c, 20, 19), [50, 54, 62, 255]);
}

#[test]
fn far_rounded_window_is_drawable() {
    let theme = Theme::default();
    let mut f = window_frame(100, 50, 16, 0, true, false, &theme);
    f.win_x = 0x200_0000;
    assert!(window_is_drawable((f.image_width, f.image_height), &f, &theme, true, false));
    let before = blank_canvas(&f);
    let mut c = blank_canvas(&f);
    draw_window(&mut c, &f, &theme, true, false, &halving_blend());
    for y in 0..f.image_height {
        for x in 0..f.image_width {
            assert_eq!(px(&c, x, y), px(&before, x, y));
        }
    }
}

#[test]
fn window_at_the_edge_of_i32_is_not_drawable() {
    let theme = Theme::default();
    let mut f = window_frame(100, 50, 16, 0, true, false, &theme);
    f.win_x = i32::MAX - 50;
    assert!(!window_is_drawable((f.image_width, f.image_height), &f, &theme, true, false));
}

#[test]
fn larger_radius_cuts_more() {
    for r2 in 1..=10 {
        for r1 in 0..=r2 {
            for py in 0..20 {
                for px in 0..20 {
                    if is_inside_rounded_rect(px, py, 20, 20, r2) {
                        assert!(is_inside_rounded_rect(px, py, 20, 20, r1));
                    }
                }
            }
        }
    }
    assert!(is_inside_rounded_rect(1, 1, 20, 20, 3));
    assert!(!is_inside_rounded_rect(1, 1, 20, 20, 6));
}

#[test]
fn rounded_rect_keeps_all_box_corners() {
    let mut c = blank_canvas(&frame(40, 40, WHITE));
    draw_rounded_rect_filled(&mut c, 5, 5, 20, 20, 4, RED);
    for (x, y) in [(5, 5), (24, 5), (5, 24), (24, 24)] {
        assert_eq!(px(&c, x, y), [255, 255, 255, 255]);
    }
    let mut d = blank_canvas(&frame(40, 40, WHITE));
    draw_rounded_rect_filled(&mut d, 5, 5, 20, 20, 1, RED);
    for (x, y) in [(5, 5), (24, 5), (5, 24), (24, 24)] {
        assert_eq!(px(&d, x, y), [255, 255, 255, 255]);
    }
    assert_eq!(px(&d, 6, 5), [255, 0, 0, 255]);
}
