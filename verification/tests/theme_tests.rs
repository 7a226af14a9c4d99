use rustshot::parser::CellColor;
use rustshot::theme::{ansi_index_to_rgba, resolve_color, Rgba8, Theme};

#[test]
fn standard_colors() {
    assert_eq!(ansi_index_to_rgba(0), Rgba8(0, 0, 0, 255));
    assert_eq!(ansi_index_to_rgba(1), Rgba8(205, 49, 49, 255));
    assert_eq!(ansi_index_to_rgba(8), Rgba8(102, 102, 102, 255));
    assert_eq!(ansi_index_to_rgba(15), Rgba8(255, 255, 255, 255));
}

#[test]
fn color_cube() {
    assert_eq!(ansi_index_to_rgba(16), Rgba8(0, 0, 0, 255));
    assert_eq!(ansi_index_to_rgba(21), Rgba8(0, 0, 255, 255));
    assert_eq!(ansi_index_to_rgba(196), Rgba8(255, 0, 0, 255));
    assert_eq!(ansi_index_to_rgba(110), Rgba8(102, 153, 204, 255));
    assert_eq!(ansi_index_to_rgba(231), Rgba8(255, 255, 255, 255));
}

#[test]
fn gray_ramp() {
    assert_eq!(ansi_index_to_rgba(232), Rgba8(8, 8, 8, 255));
    assert_eq!(ansi_index_to_rgba(244), Rgba8(128, 128, 128, 255));
    assert_eq!(ansi_index_to_rgba(255), Rgba8(238, 238, 238, 255));
}

#[test]
fn palette_is_opaque() {
    for i in 0..=255u8 {
        let c = ansi_index_to_rgba(i);
        assert_eq!(c.3, 255);
        if (16..232).contains(&i) {
            assert!(c.0 % 51 == 0 && c.1 % 51 == 0 && c.2 % 51 == 0);
        }
    }
}

#[test]
fn resolve_default_colors() {
    let theme = Theme::default();
    assert_eq!(resolve_color(&CellColor::Default, true, &theme), Rgba8(211, 211, 211, 255));
    assert_eq!(resolve_color(&CellColor::Default, false, &theme), Rgba8(21, 21, 21, 255));
}

#[test]
fn resolve_indexed_and_rgb() {
    let theme = Theme::default();
    assert_eq!(resolve_color(&CellColor::Indexed(2), true, &theme), Rgba8(13, 188, 121, 255));
    assert_eq!(resolve_color(&CellColor::Rgb(1, 2, 3), false, &theme), Rgba8(1, 2, 3, 255));
}

#[test]
fn default_theme_values() {
    let t = Theme::default();
    assert_eq!(t.bg_color, Rgba8(21, 21, 21, 255));
    assert_eq!(t.title_bar_height, 38);
    assert_eq!(t.button_radius, 7);
    assert_eq!(t.button_spacing, 22);
    assert_eq!(t.corner_radius, 10);
    assert_eq!(t.shadow_color, Rgba8(0, 0, 0, 80));
    assert_eq!(t.shadow_offset, 8);
    assert_eq!(t.cmd_arrow_color, Rgba8(0, 255, 0, 255));
    assert_eq!(t.border_width, 1);
}

#[test]
fn scaled_theme_doubles_sizes() {
    let t = Theme::default().scaled(2);
    assert_eq!(t.title_bar_height, 76);
    assert_eq!(t.button_radius, 14);
    assert_eq!(t.button_y_center, 38);
    assert_eq!(t.button_x_start, 40);
    assert_eq!(t.button_spacing, 44);
    assert_eq!(t.corner_radius, 20);
    assert_eq!(t.shadow_offset, 16);
    assert_eq!(t.divider_height, 4);
    assert_eq!(t.border_width, 2);
    assert_eq!(t.bg_color, Theme::default().bg_color);
    assert_eq!(t.close_color, Theme::default().close_color);
}

#[test]
fn scaling_by_one_is_identity() {
    assert_eq!(Theme::default().scaled(1), Theme::default());
}

#[test]
fn scaling_twice_is_scaling_by_product() {
    let t = Theme::default();
    assert_eq!(t.scaled(2).scaled(3), t.scaled(6));
}
