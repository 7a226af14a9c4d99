//! The in-memory terminal emulator of the `vt100` crate, seen through the
//! cells of its visible screen.

use vstd::prelude::*;

use crate::parser::{CellColor, ScreenCell};
use vt100::Color;

verus! {

#[verifier::external_type_specification]
#[verifier::external_body]
pub struct ExParser(vt100::Parser);

/// What the visible screen of an emulator holds: for each position
/// `(row, column)` at which `Screen::cell` finds a cell, that cell.
pub uninterp spec fn screen_cells(parser: vt100::Parser) -> Map<(u16, u16), ScreenCell>;

/// The size `(rows, columns)` of an emulator's screen, as `Screen::size`
/// reports it.
pub uninterp spec fn screen_dims(parser: vt100::Parser) -> (u16, u16);

/// The visible screen that `vt100` builds when a fresh emulator of `rows`
/// rows, `cols` columns and no scrollback processes `raw`.
pub uninterp spec fn processed_screen(raw: Seq<u8>, rows: u16, cols: u16) -> Map<
    (u16, u16),
    ScreenCell,
>;

/// The cell at `(row, col)` of a screen, if the screen has one there.
pub open spec fn cell_at(cells: Map<(u16, u16), ScreenCell>, row: u16, col: u16) -> Option<
    ScreenCell,
> {
    if cells.dom().contains((row, col)) {
        Some(cells[(row, col)])
    } else {
        None
    }
}

/// Every byte is ASCII, so the emulator prints no wide character.
pub open spec fn all_ascii(raw: Seq<u8>) -> bool {
    forall|i: int| 0 <= i < raw.len() ==> #[trigger] raw[i] < 0x80
}

/// Runs `raw` through a fresh `vt100::Parser` (`Parser::new` with no
/// scrollback, then `Parser::process`).
///
/// Trusted: the screen is named by `processed_screen`, a function of the
/// bytes and the size alone (the parser is deterministic and `process` feeds
/// the bytes one at a time); the size stays the one it was made with, as
/// nothing but `Parser::set_size` changes it. `Grid::new` subtracts one from
/// the row count and writing a character subtracts its width from the column
/// count (`Screen::text`, `Grid::col_wrap`), so at least one row and one
/// column are needed, and two columns unless the bytes are ASCII: ASCII
/// decodes to characters of width one, and the paths that step back two
/// columns are taken only after a wide character. A tab adds 8 to the `u16`
/// cursor column (`Grid::col_tab`), which can stand one past the last column,
/// so at most 65527 columns keep that sum in range.
#[verifier::external_body]
pub(crate) fn emulate(raw: &[u8], rows: u16, cols: u16) -> (parser: vt100::Parser)
    requires
        rows >= 1,
        1 <= cols <= 65527,
        cols >= 2 || all_ascii(raw@),
    ensures
        screen_cells(parser) == processed_screen(raw@, rows, cols),
        screen_dims(parser) == (rows, cols),
{
    let mut parser = vt100::Parser::new(rows, cols, 0);
    parser.process(raw);
    parser
}

/// `Screen::size` of the emulator's screen.
///
/// Trusted: it returns the size named by `screen_dims`.
#[verifier::external_body]
pub(crate) fn screen_size(parser: &vt100::Parser) -> (size: (u16, u16))
    ensures
        size == screen_dims(*parser),
{
    parser.screen().size()
}

/// `Screen::cell(row, col)`, with the cell's text, colours and attributes
/// copied into a `ScreenCell`.
///
/// Trusted: it returns the cell that `screen_cells` holds at `(row, col)`,
/// or `None` where it holds none.
#[verifier::external_body]
pub(crate) fn screen_cell(parser: &vt100::Parser, row: u16, col: u16) -> (cell: Option<ScreenCell>)
    ensures
        cell == cell_at(screen_cells(*parser), row, col),
{
    let c = parser.screen().cell(row, col)?;
    Some(ScreenCell {
        contents: c.contents(),
        fg: match c.fgcolor() { Color::Default => CellColor::Default, Color::Idx(i) => CellColor::Indexed(i), Color::Rgb(r, g, b) => CellColor::Rgb(r, g, b) },
        bg: match c.bgcolor() { Color::Default => CellColor::Default, Color::Idx(i) => CellColor::Indexed(i), Color::Rgb(r, g, b) => CellColor::Rgb(r, g, b) },
        bold: c.bold(),
        italic: c.italic(),
        underline: c.underline(),
        inverse: c.inverse(),
        wide_continuation: c.is_wide_continuation(),
    })
}

} // verus!
