//! From the raw bytes a command wrote to its terminal to a grid of styled
//! cells, trimmed of the blank rows below and the blank columns to the right
//! of what was drawn.

use vstd::prelude::*;

use crate::executor::CommandResult;
use crate::terminal::{all_ascii, cell_at, emulate, processed_screen, screen_cell, screen_size};
use crate::text::{is_blank_text, is_white_space, text_is_blank};

verus! {

/// The colour of a cell's text or background.
#[derive(Clone, Copy, Debug, PartialEq, Eq, Structural)]
pub enum CellColor {
    Default,
    Indexed(u8),
    Rgb(u8, u8, u8),
}

/// One cell of the rendered grid: its text and how to draw it.
#[derive(Clone, Debug)]
pub struct StyledCell {
    pub ch: String,
    pub fg: CellColor,
    pub bg: CellColor,
    pub bold: bool,
    pub italic: bool,
    pub underline: bool,
    pub inverse: bool,
}

/// One cell of the emulator's screen, as the emulator reports it.
#[derive(Clone, Debug)]
pub struct ScreenCell {
    pub contents: String,
    pub fg: CellColor,
    pub bg: CellColor,
    pub bold: bool,
    pub italic: bool,
    pub underline: bool,
    pub inverse: bool,
    /// The cell holds the right half of a wide character.
    pub wide_continuation: bool,
}

/// The output of one command, ready to be drawn as a panel.
pub struct ParsedOutput {
    pub command: String,
    pub grid: Vec<Vec<StyledCell>>,
    /// The number of rows of `grid` that hold something.
    pub rows: usize,
    /// The number of columns, counted from the left, that hold something.
    pub cols: usize,
}

// ---------------------------------------------------------------------------
// The model: a screen is a sequence of rows, each a sequence of positions
// that hold a cell or nothing.

/// The cells of a screen that are drawn: a position that holds the right half
/// of a wide character is skipped.
pub open spec fn keep_drawn(pos: Option<ScreenCell>) -> Option<Option<ScreenCell>> {
    match pos {
        Some(c) => if c.wide_continuation {
            None
        } else {
            Some(pos)
        },
        None => Some(pos),
    }
}

/// The positions of a screen row that become cells of the grid, in order.
pub open spec fn drawn_cells(row: Seq<Option<ScreenCell>>) -> Seq<Option<ScreenCell>> {
    row.filter_map(|pos: Option<ScreenCell>| keep_drawn(pos))
}

/// The drawn positions of every row.
pub open spec fn drawn_grid(screen: Seq<Seq<Option<ScreenCell>>>) -> Seq<Seq<Option<ScreenCell>>> {
    screen.map_values(|row: Seq<Option<ScreenCell>>| drawn_cells(row))
}

/// The text a cell shows: its contents, or a single space where it has none.
pub open spec fn shown_text(contents: Seq<char>) -> Seq<char> {
    if contents.len() == 0 {
        seq![' ']
    } else {
        contents
    }
}

/// `cell` is how the grid renders the screen position `pos`; a position that
/// holds no cell renders as a space in the default colours with no attribute.
pub open spec fn renders_as(cell: StyledCell, pos: Option<ScreenCell>) -> bool {
    match pos {
        Some(c) => {
            &&& cell.ch@ == shown_text(c.contents@)
            &&& cell.fg == c.fg
            &&& cell.bg == c.bg
            &&& cell.bold == c.bold
            &&& cell.italic == c.italic
            &&& cell.underline == c.underline
            &&& cell.inverse == c.inverse
        },
        None => {
            &&& cell.ch@ == seq![' ']
            &&& cell.fg == CellColor::Default
            &&& cell.bg == CellColor::Default
            &&& !cell.bold
            &&& !cell.italic
            &&& !cell.underline
            &&& !cell.inverse
        },
    }
}

/// `cells` renders the drawn positions `drawn`, one for one.
pub open spec fn renders_row(cells: Seq<StyledCell>, drawn: Seq<Option<ScreenCell>>) -> bool {
    &&& cells.len() == drawn.len()
    &&& forall|i: int| 0 <= i < cells.len() ==> renders_as(#[trigger] cells[i], drawn[i])
}

/// A position is blank when its text is white space only and its background
/// is the default one.
pub open spec fn is_blank_pos(pos: Option<ScreenCell>) -> bool {
    match pos {
        Some(c) => is_blank_text(c.contents@) && c.bg == CellColor::Default,
        None => true,
    }
}

/// A grid cell is blank when its text is white space only and its background
/// is the default one.
pub open spec fn is_blank_cell(cell: StyledCell) -> bool {
    is_blank_text(cell.ch@) && cell.bg == CellColor::Default
}

pub open spec fn is_blank_row(row: Seq<Option<ScreenCell>>) -> bool {
    forall|i: int| 0 <= i < row.len() ==> #[trigger] is_blank_pos(row[i])
}

/// The number of rows left once the blank rows at the bottom are dropped.
pub open spec fn content_rows(grid: Seq<Seq<Option<ScreenCell>>>) -> nat
    decreases grid.len(),
{
    if grid.len() == 0 {
        0
    } else if is_blank_row(grid.last()) {
        content_rows(grid.drop_last())
    } else {
        grid.len()
    }
}

/// One past the last position of a row that is not blank (0 if there is none).
pub open spec fn row_extent(row: Seq<Option<ScreenCell>>) -> nat
    decreases row.len(),
{
    if row.len() == 0 {
        0
    } else if is_blank_pos(row.last()) {
        row_extent(row.drop_last())
    } else {
        row.len()
    }
}

/// The greatest extent of the rows (0 for no rows).
pub open spec fn widest(grid: Seq<Seq<Option<ScreenCell>>>) -> nat
    decreases grid.len(),
{
    if grid.len() == 0 {
        0
    } else {
        let w = row_extent(grid.last());
        let rest = widest(grid.drop_last());
        if w > rest {
            w
        } else {
            rest
        }
    }
}

/// `out` is what a command named `command` shows on the screen `screen`: the
/// drawn cells of its rows down to the last row that is not blank, and as
/// many columns as reach the last cell that is not blank in any of them.
pub open spec fn parsed_from(
    out: ParsedOutput,
    command: Seq<char>,
    screen: Seq<Seq<Option<ScreenCell>>>,
) -> bool {
    let drawn = drawn_grid(screen);
    &&& out.command@ == command
    &&& out.rows == content_rows(drawn)
    &&& out.cols == widest(drawn.take(out.rows as int))
    &&& out.grid@.len() == out.rows
    &&& forall|r: int| 0 <= r < out.rows ==> renders_row(#[trigger] out.grid@[r]@, drawn[r])
}

/// The screen of `rows` × `cols` positions, read off the emulator's cells.
pub open spec fn screen_of(cells: Map<(u16, u16), ScreenCell>, rows: u16, cols: u16) -> Seq<
    Seq<Option<ScreenCell>>,
> {
    Seq::new(
        rows as nat,
        |r: int| Seq::new(cols as nat, |c: int| cell_at(cells, r as u16, c as u16)),
    )
}

/// The rows of a screen held in vectors, as sequences.
pub open spec fn rows_of(screen: Seq<Vec<Option<ScreenCell>>>) -> Seq<Seq<Option<ScreenCell>>> {
    screen.map_values(|row: Vec<Option<ScreenCell>>| row@)
}

// ---------------------------------------------------------------------------
// Lemmas.

proof fn lemma_space_is_blank()
    ensures
        is_blank_text(seq![' ']),
{
    assert(is_white_space(' '));
}

/// Rendering keeps blankness.
proof fn lemma_renders_blank(cell: StyledCell, pos: Option<ScreenCell>)
    requires
        renders_as(cell, pos),
    ensures
        is_blank_cell(cell) == is_blank_pos(pos),
{
    lemma_space_is_blank();
    match pos {
        Some(c) => {
            if c.contents@.len() == 0 {
                assert(is_blank_text(c.contents@));
            }
        },
        None => {},
    }
}

proof fn lemma_drawn_len(row: Seq<Option<ScreenCell>>)
    ensures
        drawn_cells(row).len() <= row.len(),
    decreases row.len(),
{
    if row.len() > 0 {
        lemma_drawn_len(row.drop_last());
    }
}

proof fn lemma_content_rows_props(grid: Seq<Seq<Option<ScreenCell>>>)
    ensures
        content_rows(grid) <= grid.len(),
        forall|r: int|
            content_rows(grid) <= r < grid.len() ==> is_blank_row(#[trigger] grid[r]),
        content_rows(grid) > 0 ==> !is_blank_row(grid[content_rows(grid) - 1]),
    decreases grid.len(),
{
    if grid.len() > 0 {
        let rest = grid.drop_last();
        lemma_content_rows_props(rest);
        if is_blank_row(grid.last()) {
            assert forall|r: int| content_rows(grid) <= r < grid.len() implies is_blank_row(
                #[trigger] grid[r],
            ) by {
                if r < grid.len() - 1 {
                    assert(grid[r] == rest[r]);
                }
            }
            if content_rows(grid) > 0 {
                assert(grid[content_rows(grid) - 1] == rest[content_rows(rest) - 1]);
            }
        }
    }
}

proof fn lemma_row_extent_props(row: Seq<Option<ScreenCell>>)
    ensures
        row_extent(row) <= row.len(),
        forall|i: int| row_extent(row) <= i < row.len() ==> is_blank_pos(#[trigger] row[i]),
        row_extent(row) > 0 ==> !is_blank_pos(row[row_extent(row) - 1]),
    decreases row.len(),
{
    if row.len() > 0 {
        let rest = row.drop_last();
        lemma_row_extent_props(rest);
        if is_blank_pos(row.last()) {
            assert forall|i: int| row_extent(row) <= i < row.len() implies is_blank_pos(
                #[trigger] row[i],
            ) by {
                if i < row.len() - 1 {
                    assert(row[i] == rest[i]);
                }
            }
            if row_extent(row) > 0 {
                assert(row[row_extent(row) - 1] == rest[row_extent(rest) - 1]);
            }
        }
    }
}

proof fn lemma_widest_props(grid: Seq<Seq<Option<ScreenCell>>>)
    ensures
        forall|r: int| 0 <= r < grid.len() ==> row_extent(#[trigger] grid[r]) <= widest(grid),
        widest(grid) > 0 ==> exists|r: int|
            0 <= r < grid.len() && row_extent(#[trigger] grid[r]) == widest(grid),
    decreases grid.len(),
{
    if grid.len() > 0 {
        let rest = grid.drop_last();
        lemma_widest_props(rest);
        assert forall|r: int| 0 <= r < grid.len() implies row_extent(#[trigger] grid[r])
            <= widest(grid) by {
            if r < grid.len() - 1 {
                assert(grid[r] == rest[r]);
            }
        }
        if widest(grid) > 0 {
            if row_extent(grid.last()) == widest(grid) {
                assert(row_extent(grid[grid.len() - 1]) == widest(grid));
            } else {
                let r = choose|r: int| 0 <= r < rest.len() && row_extent(#[trigger] rest[r]) == widest(rest);
                assert(grid[r] == rest[r]);
            }
        }
    }
}

/// Trimming a panel keeps everything that is not blank, and no more: the rows
/// of the screen below the panel's rows are blank, and so are the cells of
/// its rows from column `cols` on; the last row kept holds a cell that is not
/// blank, and so does the last column kept, in some row.
pub proof fn lemma_trim_is_tight(
    out: ParsedOutput,
    command: Seq<char>,
    screen: Seq<Seq<Option<ScreenCell>>>,
)
    requires
        parsed_from(out, command, screen),
    ensures
        out.rows <= screen.len(),
        forall|r: int|
            out.rows <= r < screen.len() ==> is_blank_row(#[trigger] drawn_grid(screen)[r]),
        forall|r: int, c: int|
            0 <= r < out.rows && out.cols <= c < out.grid@[r]@.len() ==> is_blank_cell(
                #[trigger] out.grid@[r]@[c],
            ),
        out.rows > 0 ==> exists|c: int|
            0 <= c < out.grid@[out.rows - 1]@.len() && !is_blank_cell(
                #[trigger] out.grid@[out.rows - 1]@[c],
            ),
        out.cols > 0 ==> exists|r: int|
            0 <= r < out.rows && out.cols - 1 < out.grid@[r]@.len() && !is_blank_cell(
                #[trigger] out.grid@[r]@[out.cols - 1],
            ),
{
    let drawn = drawn_grid(screen);
    let kept = drawn.take(out.rows as int);
    lemma_content_rows_props(drawn);
    lemma_widest_props(kept);
    assert forall|r: int, c: int|
        0 <= r < out.rows && out.cols <= c < out.grid@[r]@.len() implies is_blank_cell(
        #[trigger] out.grid@[r]@[c],
    ) by {
        assert(kept[r] == drawn[r]);
        lemma_row_extent_props(drawn[r]);
        lemma_renders_blank(out.grid@[r]@[c], drawn[r][c]);
    }
    if out.rows > 0 {
        let r = out.rows - 1;
        let row = drawn[r as int];
        assert(!is_blank_row(row));
        let c = choose|c: int| 0 <= c < row.len() && !is_blank_pos(#[trigger] row[c]);
        lemma_renders_blank(out.grid@[r as int]@[c], row[c]);
    }
    if out.cols > 0 {
        let r = choose|r: int| 0 <= r < kept.len() && row_extent(#[trigger] kept[r]) == widest(kept);
        assert(kept[r] == drawn[r]);
        lemma_row_extent_props(drawn[r]);
        lemma_renders_blank(out.grid@[r]@[out.cols - 1], drawn[r][out.cols - 1]);
    }
}

/// Every kept cell of a panel shows its screen position as it is: a cell
/// the emulator holds keeps its text (a space where it has none), both its
/// colours and each of its attributes, every one independently of the
/// others; an empty position shows a plain space.
pub proof fn lemma_cells_keep_attributes(
    out: ParsedOutput,
    command: Seq<char>,
    screen: Seq<Seq<Option<ScreenCell>>>,
    r: int,
    c: int,
)
    requires
        parsed_from(out, command, screen),
        0 <= r < out.rows,
        0 <= c < out.grid@[r]@.len(),
    ensures
        c < drawn_grid(screen)[r].len(),
        ({
            let cell = out.grid@[r]@[c];
            match drawn_grid(screen)[r][c] {
                Some(sc) => {
                    &&& sc.contents@.len() > 0 ==> cell.ch@ == sc.contents@
                    &&& sc.contents@.len() == 0 ==> cell.ch@ == seq![' ']
                    &&& cell.fg == sc.fg
                    &&& cell.bg == sc.bg
                    &&& cell.bold == sc.bold
                    &&& cell.italic == sc.italic
                    &&& cell.underline == sc.underline
                    &&& cell.inverse == sc.inverse
                },
                None => {
                    &&& cell.ch@ == seq![' ']
                    &&& cell.fg == CellColor::Default
                    &&& cell.bg == CellColor::Default
                    &&& !cell.bold && !cell.italic && !cell.underline && !cell.inverse
                },
            }
        }),
{
    assert(renders_row(out.grid@[r]@, drawn_grid(screen)[r]));
    assert(renders_as(out.grid@[r]@[c], drawn_grid(screen)[r][c]));
}

/// A panel never has more rows or columns than the terminal it was read from.
pub proof fn lemma_panel_fits_terminal(
    out: ParsedOutput,
    command: Seq<char>,
    cells: Map<(u16, u16), ScreenCell>,
    rows: u16,
    cols: u16,
)
    requires
        parsed_from(out, command, screen_of(cells, rows, cols)),
    ensures
        out.rows <= rows,
        out.cols <= cols,
{
    let screen = screen_of(cells, rows, cols);
    let drawn = drawn_grid(screen);
    let kept = drawn.take(out.rows as int);
    lemma_content_rows_props(drawn);
    lemma_widest_props(kept);
    if out.cols > 0 {
        let r = choose|r: int| 0 <= r < kept.len() && row_extent(#[trigger] kept[r]) == widest(kept);
        assert(kept[r] == drawn[r]);
        lemma_row_extent_props(drawn[r]);
        lemma_drawn_len(screen[r]);
    }
}

// ---------------------------------------------------------------------------
// Executable code.

/// The grid cell that renders the screen cell `c`.
fn styled_cell(c: &ScreenCell) -> (cell: StyledCell)
    ensures
        renders_as(cell, Some(*c)),
{
    let ch = if c.contents.as_str().is_empty() {
        proof {
            reveal_strlit(" ");
            assert(" "@ =~= seq![' ']);
        }
        String::from_str(" ")
    } else {
        c.contents.clone()
    };
    StyledCell {
        ch,
        fg: c.fg,
        bg: c.bg,
        bold: c.bold,
        italic: c.italic,
        underline: c.underline,
        inverse: c.inverse,
    }
}

/// The grid cell for a position of the screen that holds no cell.
fn empty_cell() -> (cell: StyledCell)
    ensures
        renders_as(cell, None),
{
    proof {
        reveal_strlit(" ");
        assert(" "@ =~= seq![' ']);
    }
    StyledCell {
        ch: String::from_str(" "),
        fg: CellColor::Default,
        bg: CellColor::Default,
        bold: false,
        italic: false,
        underline: false,
        inverse: false,
    }
}

/// The grid row of a screen row: one cell per drawn position.
fn styled_row(line: &Vec<Option<ScreenCell>>) -> (cells: Vec<StyledCell>)
    ensures
        renders_row(cells@, drawn_cells(line@)),
{
    let mut cells: Vec<StyledCell> = Vec::new();
    let mut i: usize = 0;
    while i < line.len()
        invariant
            i <= line.len(),
            renders_row(cells@, drawn_cells(line@.take(i as int))),
        decreases line.len() - i,
    {
        proof {
            line@.lemma_filter_map_take_succ(|pos: Option<ScreenCell>| keep_drawn(pos), i as int);
        }
        match &line[i] {
            Some(c) => {
                if !c.wide_continuation {
                    cells.push(styled_cell(c));
                }
            },
            None => {
                cells.push(empty_cell());
            },
        }
        i = i + 1;
    }
    assert(line@.take(line.len() as int) =~= line@);
    cells
}

/// Whether a grid cell is blank.
fn cell_is_blank(cell: &StyledCell) -> (res: bool)
    ensures
        res == is_blank_cell(*cell),
{
    text_is_blank(cell.ch.as_str()) && matches!(cell.bg, CellColor::Default)
}

/// Whether every cell of a grid row is blank.
fn row_is_blank(cells: &Vec<StyledCell>, Ghost(drawn): Ghost<Seq<Option<ScreenCell>>>) -> (res:
    bool)
    requires
        renders_row(cells@, drawn),
    ensures
        res == is_blank_row(drawn),
{
    let mut i: usize = 0;
    while i < cells.len()
        invariant
            i <= cells.len(),
            renders_row(cells@, drawn),
            forall|j: int| 0 <= j < i ==> #[trigger] is_blank_pos(drawn[j]),
        decreases cells.len() - i,
    {
        proof {
            lemma_renders_blank(cells@[i as int], drawn[i as int]);
        }
        if !cell_is_blank(&cells[i]) {
            return false;
        }
        i = i + 1;
    }
    true
}

/// One past the last cell of a grid row that is not blank.
fn row_width(cells: &Vec<StyledCell>, Ghost(drawn): Ghost<Seq<Option<ScreenCell>>>) -> (w: usize)
    requires
        renders_row(cells@, drawn),
    ensures
        w == row_extent(drawn),
{
    let mut last_non_blank: usize = 0;
    let mut i: usize = 0;
    while i < cells.len()
        invariant
            i <= cells.len(),
            renders_row(cells@, drawn),
            last_non_blank == row_extent(drawn.take(i as int)),
        decreases cells.len() - i,
    {
        proof {
            lemma_renders_blank(cells@[i as int], drawn[i as int]);
            assert(drawn.take(i + 1).drop_last() =~= drawn.take(i as int));
        }
        if !cell_is_blank(&cells[i]) {
            last_non_blank = i + 1;
        }
        i = i + 1;
    }
    assert(drawn.take(cells.len() as int) =~= drawn);
    last_non_blank
}

/// Builds the panel of a command from the screen its output left: `screen`
/// holds, row by row, what the emulator has at each position.
pub fn grid_from_screen(command: String, screen: Vec<Vec<Option<ScreenCell>>>) -> (out:
    ParsedOutput)
    ensures
        parsed_from(out, command@, rows_of(screen@)),
{
    let ghost drawn = drawn_grid(rows_of(screen@));
    let mut grid: Vec<Vec<StyledCell>> = Vec::new();
    let mut r: usize = 0;
    while r < screen.len()
        invariant
            r <= screen.len(),
            drawn == drawn_grid(rows_of(screen@)),
            grid@.len() == r,
            forall|k: int| 0 <= k < r ==> renders_row(#[trigger] grid@[k]@, drawn[k]),
        decreases screen.len() - r,
    {
        let line = styled_row(&screen[r]);
        grid.push(line);
        r = r + 1;
    }
    // Drop the blank rows at the bottom.
    let mut actual_rows: usize = grid.len();
    assert(drawn.take(actual_rows as int) =~= drawn);
    while actual_rows > 0 && row_is_blank(&grid[actual_rows - 1], Ghost(drawn[actual_rows - 1]))
        invariant
            actual_rows <= grid@.len(),
            grid@.len() == drawn.len(),
            forall|k: int| 0 <= k < grid@.len() ==> renders_row(#[trigger] grid@[k]@, drawn[k]),
            content_rows(drawn) == content_rows(drawn.take(actual_rows as int)),
        decreases actual_rows,
    {
        assert(drawn.take(actual_rows as int).drop_last() =~= drawn.take(actual_rows - 1));
        actual_rows = actual_rows - 1;
    }
    assert(content_rows(drawn) == actual_rows);
    grid.truncate(actual_rows);
    // The widest row decides the number of columns.
    let mut cols: usize = 0;
    let mut k: usize = 0;
    while k < actual_rows
        invariant
            k <= actual_rows,
            actual_rows == grid@.len(),
            actual_rows <= drawn.len(),
            forall|j: int| 0 <= j < grid@.len() ==> renders_row(#[trigger] grid@[j]@, drawn[j]),
            cols == widest(drawn.take(k as int)),
        decreases actual_rows - k,
    {
        let w = row_width(&grid[k], Ghost(drawn[k as int]));
        assert(drawn.take(k + 1).drop_last() =~= drawn.take(k as int));
        if w > cols {
            cols = w;
        }
        k = k + 1;
    }
    ParsedOutput { command, grid, rows: actual_rows, cols }
}

/// Parses the raw output of a command on a terminal of `pty_rows` rows and
/// `pty_cols` columns into the grid of styled cells it shows. The emulator
/// needs at least one row and one column, and two columns when the output
/// is not all ASCII (it may hold a wide character); a tab overflows its
/// cursor column on terminals wider than 65527 columns.
pub fn parse_ansi(result: &CommandResult, pty_cols: u16, pty_rows: u16) -> (out: ParsedOutput)
    requires
        pty_rows >= 1,
        1 <= pty_cols <= 65527,
        pty_cols >= 2 || all_ascii(result.raw_output@),
    ensures
        parsed_from(
            out,
            result.command@,
            screen_of(processed_screen(result.raw_output@, pty_rows, pty_cols), pty_rows, pty_cols),
        ),
{
    let parser = emulate(result.raw_output.as_slice(), pty_rows, pty_cols);
    let (rows, cols) = screen_size(&parser);
    let ghost cells = processed_screen(result.raw_output@, pty_rows, pty_cols);
    let mut screen: Vec<Vec<Option<ScreenCell>>> = Vec::new();
    let mut row: u16 = 0;
    while row < rows
        invariant
            row <= rows,
            rows == pty_rows,
            cols == pty_cols,
            cells == crate::terminal::screen_cells(parser),
            screen@.len() == row,
            forall|r: int| 0 <= r < row ==> #[trigger] screen@[r]@ == screen_of(cells, rows, cols)[r],
        decreases rows - row,
    {
        let mut line: Vec<Option<ScreenCell>> = Vec::new();
        let mut col: u16 = 0;
        while col < cols
            invariant
                col <= cols,
                cells == crate::terminal::screen_cells(parser),
                line@.len() == col,
                forall|c: int| 0 <= c < col ==> #[trigger] line@[c] == cell_at(cells, row, c as u16),
            decreases cols - col,
        {
            line.push(screen_cell(&parser, row, col));
            col = col + 1;
        }
        assert(line@ =~= screen_of(cells, rows, cols)[row as int]);
        screen.push(line);
        row = row + 1;
    }
    assert(rows_of(screen@) =~= screen_of(cells, rows, cols));
    grid_from_screen(result.command.clone(), screen)
}

} // verus!
