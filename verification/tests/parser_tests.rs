use rustshot::executor::CommandResult;
use rustshot::parser::{grid_from_screen, parse_ansi, CellColor, ParsedOutput, ScreenCell};

fn run(raw: &[u8]) -> ParsedOutput {
    let result = CommandResult { command: String::from("demo"), raw_output: raw.to_vec() };
    parse_ansi(&result, 80, 24)
}

fn plain(text: &str) -> Option<ScreenCell> {
    Some(ScreenCell {
        contents: text.to_string(),
        fg: CellColor::Default,
        bg: CellColor::Default,
        bold: false,
        italic: false,
        underline: false,
        inverse: false,
        wide_continuation: false,
    })
}

#[test]
fn plain_text_is_one_row() {
    let out = run(b"hello");
    assert_eq!(out.rows, 1);
    assert_eq!(out.cols, 5);
    assert_eq!(out.grid.len(), 1);
    assert_eq!(out.grid[0].len(), 80);
    assert_eq!(out.grid[0][0].ch, "h");
    assert_eq!(out.grid[0][4].ch, "o");
    assert_eq!(out.grid[0][5].ch, " ");
    assert_eq!(out.command, "demo");
}

#[test]
fn empty_output_is_empty() {
    let out = run(b"");
    assert_eq!(out.rows, 0);
    assert_eq!(out.cols, 0);
    assert!(out.grid.is_empty());
}

#[test]
fn trailing_blank_rows_are_dropped() {
    let out = run(b"a\r\n\r\nb\r\n\r\n\r\n");
    assert_eq!(out.rows, 3);
    assert_eq!(out.cols, 1);
    assert_eq!(out.grid[2][0].ch, "b");
}

#[test]
fn trailing_spaces_are_not_columns() {
    let out = run(b"ab   ");
    assert_eq!(out.cols, 2);
}

#[test]
fn foreground_colors() {
    let out = run(b"\x1b[31mR\x1b[38;5;196mS\x1b[38;2;10;20;30mT\x1b[0mU");
    assert_eq!(out.grid[0][0].fg, CellColor::Indexed(1));
    assert_eq!(out.grid[0][1].fg, CellColor::Indexed(196));
    assert_eq!(out.grid[0][2].fg, CellColor::Rgb(10, 20, 30));
    assert_eq!(out.grid[0][3].fg, CellColor::Default);
    assert_eq!(out.grid[0][0].bg, CellColor::Default);
}

#[test]
fn colored_space_counts() {
    let out = run(b"\x1b[41m \x1b[0m");
    assert_eq!(out.rows, 1);
    assert_eq!(out.cols, 1);
    assert_eq!(out.grid[0][0].bg, CellColor::Indexed(1));
    assert_eq!(out.grid[0][0].ch, " ");
}

#[test]
fn attributes_are_kept() {
    let out = run(b"\x1b[1;3;4;7mX\x1b[0mY");
    let x = &out.grid[0][0];
    assert!(x.bold && x.italic && x.underline && x.inverse);
    let y = &out.grid[0][1];
    assert!(!y.bold && !y.italic && !y.underline && !y.inverse);
}

#[test]
fn wide_characters_take_one_grid_cell() {
    let out = run("你好".as_bytes());
    assert_eq!(out.grid[0].len(), 78);
    assert_eq!(out.grid[0][0].ch, "你");
    assert_eq!(out.grid[0][1].ch, "好");
    assert_eq!(out.cols, 2);
}

#[test]
fn panel_fits_the_terminal() {
    let result = CommandResult { command: String::new(), raw_output: b"0123456789abcdef".to_vec() };
    let out = parse_ansi(&result, 4, 2);
    assert!(out.rows <= 2);
    assert!(out.cols <= 4);
    assert_eq!(out.rows, 2);
    assert_eq!(out.cols, 4);
}

#[test]
fn screen_grid_trims_and_skips_wide_halves() {
    let mut wide = plain("W").unwrap();
    wide.wide_continuation = true;
    let screen = vec![
        vec![plain("a"), Some(wide), None, plain("")],
        vec![None, plain("b"), plain(" "), None],
        vec![plain(" "), None, None, plain("\u{3000}")],
    ];
    let out = grid_from_screen(String::from("cmd"), screen);
    assert_eq!(out.rows, 2);
    assert_eq!(out.grid.len(), 2);
    assert_eq!(out.grid[0].len(), 3);
    assert_eq!(out.grid[0][0].ch, "a");
    assert_eq!(out.grid[0][1].ch, " ");
    assert_eq!(out.grid[0][2].ch, " ");
    assert_eq!(out.grid[1].len(), 4);
    assert_eq!(out.cols, 2);
    assert_eq!(out.command, "cmd");
}

#[test]
fn blank_screen_is_empty() {
    let screen = vec![vec![None, plain(" ")], vec![plain(""), None]];
    let out = grid_from_screen(String::new(), screen);
    assert_eq!(out.rows, 0);
    assert_eq!(out.cols, 0);
}

#[test]
fn background_makes_a_cell_count() {
    let mut red = plain(" ").unwrap();
    red.bg = CellColor::Indexed(1);
    let screen = vec![vec![None, None, Some(red), None]];
    let out = grid_from_screen(String::new(), screen);
    assert_eq!(out.rows, 1);
    assert_eq!(out.cols, 3);
}

#[test]
fn one_column_terminal_shows_ascii() {
    let result = CommandResult { command: String::new(), raw_output: b"ab".to_vec() };
    let out = parse_ansi(&result, 1, 3);
    assert_eq!(out.rows, 2);
    assert_eq!(out.cols, 1);
    assert_eq!(out.grid[0][0].ch, "a");
    assert_eq!(out.grid[1][0].ch, "b");
}
