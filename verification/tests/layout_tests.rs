use rustshot::layout::{
    cell_paint, compute_layout, frame_fits_check, layout_fits, max_columns, window_frame,
    PanelLayout,
};
use rustshot::parser::{CellColor, ParsedOutput, StyledCell};
use rustshot::theme::{Rgba8, Theme};

fn panel(command: &str, rows: usize, cols: usize) -> ParsedOutput {
    ParsedOutput { command: command.to_string(), grid: Vec::new(), rows, cols }
}

fn cell(ch: &str, fg: CellColor, bg: CellColor, inverse: bool) -> StyledCell {
    StyledCell {
        ch: ch.to_string(),
        fg,
        bg,
        bold: false,
        italic: false,
        underline: true,
        inverse,
    }
}

#[test]
fn panels_are_stacked() {
    let panels = vec![panel("ls", 3, 10), panel("", 2, 30)];
    let (layouts, total) = compute_layout(&panels, true, 20);
    assert_eq!(layouts[0], PanelLayout { y_offset: 0, cmd_header_height: 20, content_height: 60 });
    assert_eq!(layouts[1], PanelLayout { y_offset: 80, cmd_header_height: 0, content_height: 40 });
    assert_eq!(total, 120);
    for i in 0..layouts.len() - 1 {
        let l = layouts[i];
        assert_eq!(l.y_offset + l.cmd_header_height + l.content_height, layouts[i + 1].y_offset);
    }
}

#[test]
fn hidden_commands_take_no_room() {
    let panels = vec![panel("ls", 3, 10), panel("pwd", 1, 5)];
    let (layouts, total) = compute_layout(&panels, false, 10);
    assert_eq!(layouts[0].cmd_header_height, 0);
    assert_eq!(layouts[1].y_offset, 30);
    assert_eq!(total, 40);
}

#[test]
fn no_panels_no_height() {
    let (layouts, total) = compute_layout(&[], true, 10);
    assert!(layouts.is_empty());
    assert_eq!(total, 0);
}

#[test]
fn layout_fits_u32() {
    assert!(layout_fits(&[panel("a", 10, 1)], true, 100));
    assert!(!layout_fits(&[panel("a", 10, 1), panel("", 100_000, 1)], true, 100_000));
}

#[test]
fn columns_default_to_eighty() {
    assert_eq!(max_columns(&[], true), 80);
}

#[test]
fn columns_of_output_and_header() {
    let panels = vec![panel("ls", 3, 10), panel("", 2, 30)];
    assert_eq!(max_columns(&panels, true), 30);
    let panels = vec![panel("a very long command line", 3, 10)];
    assert_eq!(max_columns(&panels, true), 26);
    assert_eq!(max_columns(&panels, false), 10);
    let panels = vec![panel("é", 1, 1)];
    assert_eq!(max_columns(&panels, true), 4);
}

#[test]
fn decorated_frame() {
    let theme = Theme::default();
    let f = window_frame(100, 50, 16, 20, true, true, &theme);
    assert_eq!(f.title_bar_height, 38);
    assert_eq!(f.window_width, 132);
    assert_eq!(f.window_height, 120);
    assert_eq!(f.image_width, 180);
    assert_eq!(f.image_height, 168);
    assert_eq!(f.outer_bg, Rgba8(0, 0, 0, 0));
    assert_eq!((f.win_x, f.win_y), (20, 20));
    assert_eq!(f.win_radius, 10);
    assert_eq!((f.content_x, f.content_y), (36, 74));
}

#[test]
fn plain_frame() {
    let theme = Theme::default();
    let f = window_frame(100, 50, 16, 0, false, false, &theme);
    assert_eq!(f.title_bar_height, 0);
    assert_eq!((f.image_width, f.image_height), (132, 82));
    assert_eq!(f.outer_bg, theme.outer_bg_color);
    assert_eq!(f.win_radius, 0);
    assert_eq!((f.content_x, f.content_y), (16, 16));
}

#[test]
fn frame_overflow_is_detected() {
    let theme = Theme::default();
    assert!(frame_fits_check(100, 50, 16, 20, true, true, &theme));
    assert!(!frame_fits_check(u32::MAX - 10, 50, 16, 20, true, true, &theme));
}

#[test]
fn inverse_default_cell_is_plain() {
    let theme = Theme::default();
    let a = cell_paint(&cell("x", CellColor::Default, CellColor::Default, true), &theme);
    let b = cell_paint(&cell("x", CellColor::Default, CellColor::Default, false), &theme);
    assert_eq!(a, b);
    assert_eq!(a.fg, theme.default_fg);
    assert_eq!(a.bg, theme.bg_color);
    assert!(!a.fill_background);
    assert!(a.draw_text && a.underline);
}

#[test]
fn inverse_colored_cell_swaps() {
    let theme = Theme::default();
    let p = cell_paint(&cell("x", CellColor::Indexed(1), CellColor::Default, true), &theme);
    assert_eq!(p.fg, theme.bg_color);
    assert_eq!(p.bg, Rgba8(205, 49, 49, 255));
    assert!(p.fill_background);
}

#[test]
fn blank_cell_draws_no_text() {
    let theme = Theme::default();
    let p = cell_paint(&cell(" ", CellColor::Indexed(2), CellColor::Rgb(1, 2, 3), false), &theme);
    assert!(!p.draw_text);
    assert!(!p.underline);
    assert!(p.fill_background);
    assert_eq!(p.bg, Rgba8(1, 2, 3, 255));
}
