//! Where things go in the picture: the panels stacked in the window, the
//! size of the window and of the image around it, and how each cell is
//! painted.

use vstd::prelude::*;

use crate::parser::{is_blank_cell, CellColor, ParsedOutput, StyledCell};
use crate::text::{is_blank_text, text_is_blank};
use crate::theme::{resolve_color, resolved_color, Rgba8, Theme};
use vstd::utf8::encode_utf8;

verus! {

/// Where one panel starts, measured from the top of the content area, and
/// how tall its parts are.
#[derive(Clone, Copy, Debug, PartialEq, Eq, Structural)]
pub struct PanelLayout {
    pub y_offset: u32,
    pub cmd_header_height: u32,
    pub content_height: u32,
}

/// The height of a panel's command line: one cell when commands are shown
/// and the panel has one.
pub open spec fn header_height(p: ParsedOutput, show_cmd: bool, cell_height: u32) -> int {
    if show_cmd && p.command@.len() > 0 {
        cell_height as int
    } else {
        0
    }
}

/// The height of a panel's rows.
pub open spec fn body_height(p: ParsedOutput, cell_height: u32) -> int {
    (p.rows as u32) * cell_height
}

/// The height of the panels stacked one below the other.
pub open spec fn stack_height(panels: Seq<ParsedOutput>, show_cmd: bool, cell_height: u32) -> int
    decreases panels.len(),
{
    if panels.len() == 0 {
        0
    } else {
        stack_height(panels.drop_last(), show_cmd, cell_height) + header_height(
            panels.last(),
            show_cmd,
            cell_height,
        ) + body_height(panels.last(), cell_height)
    }
}

/// `layouts` stacks `panels` from the top with no gap between them.
pub open spec fn stacked(
    layouts: Seq<PanelLayout>,
    panels: Seq<ParsedOutput>,
    show_cmd: bool,
    cell_height: u32,
) -> bool {
    &&& layouts.len() == panels.len()
    &&& forall|i: int|
        0 <= i < panels.len() ==> {
            &&& (#[trigger] layouts[i]).y_offset == stack_height(
                panels.take(i),
                show_cmd,
                cell_height,
            )
            &&& layouts[i].cmd_header_height == header_height(panels[i], show_cmd, cell_height)
            &&& layouts[i].content_height == body_height(panels[i], cell_height)
        }
}

proof fn lemma_stack_height_mono(panels: Seq<ParsedOutput>, show_cmd: bool, cell_height: u32, i: int)
    requires
        0 <= i <= panels.len(),
    ensures
        0 <= stack_height(panels.take(i), show_cmd, cell_height) <= stack_height(
            panels,
            show_cmd,
            cell_height,
        ),
    decreases panels.len(),
{
    if panels.len() > 0 {
        if i == panels.len() {
            assert(panels.take(i) =~= panels);
            lemma_stack_height_mono(panels.drop_last(), show_cmd, cell_height, i - 1);
            assert(panels.drop_last().take(i - 1) =~= panels.drop_last());
        } else {
            lemma_stack_height_mono(panels.drop_last(), show_cmd, cell_height, i);
            assert(panels.drop_last().take(i) =~= panels.take(i));
        }
        assert(0 <= (panels.last().rows as u32) * cell_height) by (nonlinear_arith);
    }
}

/// Stacks the panels: each starts where the one above ends; the total height
/// comes second.
pub fn compute_layout(panels: &[ParsedOutput], show_cmd: bool, cell_height: u32) -> (res: (
    Vec<PanelLayout>,
    u32,
))
    requires
        stack_height(panels@, show_cmd, cell_height) <= u32::MAX,
    ensures
        stacked(res.0@, panels@, show_cmd, cell_height),
        res.1 == stack_height(panels@, show_cmd, cell_height),
{
    let mut layouts: Vec<PanelLayout> = Vec::new();
    let mut y: u32 = 0;
    let mut i: usize = 0;
    while i < panels.len()
        invariant
            i <= panels@.len(),
            stack_height(panels@, show_cmd, cell_height) <= u32::MAX,
            y == stack_height(panels@.take(i as int), show_cmd, cell_height),
            layouts@.len() == i,
            forall|k: int|
                0 <= k < i ==> {
                    &&& (#[trigger] layouts@[k]).y_offset == stack_height(
                        panels@.take(k),
                        show_cmd,
                        cell_height,
                    )
                    &&& layouts@[k].cmd_header_height == header_height(
                        panels@[k],
                        show_cmd,
                        cell_height,
                    )
                    &&& layouts@[k].content_height == body_height(panels@[k], cell_height)
                },
        decreases panels.len() - i,
    {
        let panel = &panels[i];
        proof {
            lemma_stack_height_mono(panels@, show_cmd, cell_height, i + 1);
            assert(panels@.take(i + 1).drop_last() =~= panels@.take(i as int));
            assert(0 <= (panel.rows as u32) * cell_height) by (nonlinear_arith);
        }
        let cmd_h: u32 = if show_cmd && !panel.command.as_str().is_empty() {
            cell_height
        } else {
            0
        };
        let content_h: u32 = panel.rows as u32 * cell_height;
        layouts.push(PanelLayout { y_offset: y, cmd_header_height: cmd_h, content_height: content_h });
        y = y + cmd_h + content_h;
        i = i + 1;
    }
    assert(panels@.take(panels@.len() as int) =~= panels@);
    (layouts, y)
}

/// The widest panel output in columns (80 when there are no panels).
pub open spec fn widest_output(panels: Seq<ParsedOutput>) -> int
    decreases panels.len(),
{
    if panels.len() == 0 {
        80
    } else if panels.len() == 1 {
        panels[0].cols as int
    } else {
        let rest = widest_output(panels.drop_last());
        let c = panels.last().cols as int;
        if c > rest {
            c
        } else {
            rest
        }
    }
}

/// The widest command line in columns: its length in bytes plus the two of
/// the prompt, over the panels that have a command (0 when commands are not
/// shown or none has one).
pub open spec fn widest_header(panels: Seq<ParsedOutput>, show_cmd: bool) -> int
    decreases panels.len(),
{
    if !show_cmd || panels.len() == 0 {
        0
    } else {
        let rest = widest_header(panels.drop_last(), show_cmd);
        let p = panels.last();
        let h: int = if p.command@.len() > 0 {
            encode_utf8(p.command@).len() as int + 2
        } else {
            0
        };
        if h > rest {
            h
        } else {
            rest
        }
    }
}

/// How many columns wide the content area is.
pub open spec fn content_columns(panels: Seq<ParsedOutput>, show_cmd: bool) -> int {
    let o = widest_output(panels);
    let h = widest_header(panels, show_cmd);
    if o >= h {
        o
    } else {
        h
    }
}

/// Panel `p` gets a command line: commands are shown and it has one.
pub open spec fn has_header(p: ParsedOutput, show_cmd: bool) -> bool {
    show_cmd && p.command@.len() > 0
}

proof fn lemma_widest_output_bounds(panels: Seq<ParsedOutput>)
    ensures
        forall|i: int| 0 <= i < panels.len() ==> (#[trigger] panels[i]).cols <= widest_output(panels),
        panels.len() == 0 ==> widest_output(panels) == 80,
        panels.len() > 0 ==> exists|i: int|
            0 <= i < panels.len() && widest_output(panels) == (#[trigger] panels[i]).cols,
    decreases panels.len(),
{
    if panels.len() > 1 {
        let rest = panels.drop_last();
        lemma_widest_output_bounds(rest);
        assert forall|i: int| 0 <= i < panels.len() implies (#[trigger] panels[i]).cols <= widest_output(
            panels,
        ) by {
            if i < panels.len() - 1 {
                assert(rest[i] == panels[i]);
            }
        }
        if widest_output(panels) != panels.last().cols {
            let j = choose|j: int| 0 <= j < rest.len() && widest_output(rest) == (#[trigger] rest[j]).cols;
            assert(panels[j] == rest[j]);
        } else {
            assert(panels[panels.len() - 1] == panels.last());
        }
    } else if panels.len() == 1 {
        assert(widest_output(panels) == panels[0].cols);
    }
}

proof fn lemma_widest_header_bounds(panels: Seq<ParsedOutput>, show_cmd: bool)
    ensures
        widest_header(panels, show_cmd) >= 0,
        forall|i: int|
            0 <= i < panels.len() && has_header(#[trigger] panels[i], show_cmd) ==> encode_utf8(
                panels[i].command@,
            ).len() + 2 <= widest_header(panels, show_cmd),
        widest_header(panels, show_cmd) > 0 ==> exists|i: int|
            0 <= i < panels.len() && has_header(#[trigger] panels[i], show_cmd) && widest_header(
                panels,
                show_cmd,
            ) == encode_utf8(panels[i].command@).len() + 2,
    decreases panels.len(),
{
    if show_cmd && panels.len() > 0 {
        let rest = panels.drop_last();
        lemma_widest_header_bounds(rest, show_cmd);
        assert forall|i: int|
            0 <= i < panels.len() && has_header(#[trigger] panels[i], show_cmd) implies encode_utf8(
            panels[i].command@,
        ).len() + 2 <= widest_header(panels, show_cmd) by {
            if i < panels.len() - 1 {
                assert(rest[i] == panels[i]);
            }
        }
        let last = panels.last();
        let hl: int = if last.command@.len() > 0 {
            encode_utf8(last.command@).len() as int + 2
        } else {
            0
        };
        if widest_header(panels, show_cmd) > 0 {
            if hl > widest_header(rest, show_cmd) {
                assert(panels[panels.len() - 1] == last);
            } else {
                let j = choose|j: int|
                    0 <= j < rest.len() && has_header(#[trigger] rest[j], show_cmd) && widest_header(
                        rest,
                        show_cmd,
                    ) == encode_utf8(rest[j].command@).len() + 2;
                assert(panels[j] == rest[j]);
            }
        }
    }
}

/// The content area is exactly as wide as it must be: no narrower than any
/// panel's output or any shown command line with its prompt, and as wide as
/// one of them (80 columns when there are no panels).
pub proof fn lemma_content_columns_is_widest(panels: Seq<ParsedOutput>, show_cmd: bool)
    ensures
        forall|i: int|
            0 <= i < panels.len() ==> (#[trigger] panels[i]).cols <= content_columns(panels, show_cmd),
        forall|i: int|
            0 <= i < panels.len() && has_header(#[trigger] panels[i], show_cmd) ==> encode_utf8(
                panels[i].command@,
            ).len() + 2 <= content_columns(panels, show_cmd),
        panels.len() == 0 ==> content_columns(panels, show_cmd) == 80,
        panels.len() > 0 ==> exists|i: int|
            0 <= i < panels.len() && (content_columns(panels, show_cmd) == (#[trigger] panels[i]).cols
                || (has_header(panels[i], show_cmd) && content_columns(panels, show_cmd)
                == encode_utf8(panels[i].command@).len() + 2)),
{
    lemma_widest_output_bounds(panels);
    lemma_widest_header_bounds(panels, show_cmd);
    if panels.len() == 0 {
        assert(widest_header(panels, show_cmd) == 0);
    } else if widest_output(panels) >= widest_header(panels, show_cmd) {
        let i = choose|i: int| 0 <= i < panels.len() && widest_output(panels) == (#[trigger] panels[i]).cols;
        assert(content_columns(panels, show_cmd) == panels[i].cols);
    } else {
        let i = choose|i: int|
            0 <= i < panels.len() && has_header(#[trigger] panels[i], show_cmd) && widest_header(
                panels,
                show_cmd,
            ) == encode_utf8(panels[i].command@).len() + 2;
        assert(has_header(panels[i], show_cmd));
    }
}

/// The number of columns the content area needs: the widest output, or the
/// widest command line with its prompt when commands are shown.
pub fn max_columns(panels: &[ParsedOutput], show_cmd: bool) -> (cols: usize)
    requires
        forall|i: int|
            0 <= i < panels@.len() ==> encode_utf8((#[trigger] panels@[i]).command@).len() + 2
                <= usize::MAX,
    ensures
        cols == content_columns(panels@, show_cmd),
{
    let mut out: usize = 80;
    let mut hdr: usize = 0;
    let mut i: usize = 0;
    while i < panels.len()
        invariant
            i <= panels@.len(),
            out == widest_output(panels@.take(i as int)),
            forall|j: int|
                0 <= j < panels@.len() ==> encode_utf8((#[trigger] panels@[j]).command@).len() + 2
                    <= usize::MAX,
            hdr == widest_header(panels@.take(i as int), show_cmd),
        decreases panels.len() - i,
    {
        let p = &panels[i];
        proof {
            assert(panels@.take(i + 1).drop_last() =~= panels@.take(i as int));
            assert(panels@.take(i + 1).last() == p);
            if i == 0 {
                assert(panels@.take(1)[0] == p);
            }
        }
        if i == 0 || p.cols > out {
            out = p.cols;
        }
        if show_cmd && !p.command.as_str().is_empty() {
            let s = p.command.as_str();
            let len = s.len();
            assert(encode_utf8(p.command@).len() + 2 <= usize::MAX);
            assert(len == encode_utf8(p.command@).len());
            if len + 2 > hdr {
                hdr = len + 2;
            }
        }
        i = i + 1;
    }
    assert(panels@.take(panels@.len() as int) =~= panels@);
    if out >= hdr {
        out
    } else {
        hdr
    }
}

/// The size and place of the window and of the image around it.
#[derive(Clone, Copy, Debug, PartialEq, Eq, Structural)]
pub struct WindowFrame {
    pub title_bar_height: u32,
    pub window_width: u32,
    pub window_height: u32,
    pub image_width: u32,
    pub image_height: u32,
    /// The image's colour outside the window.
    pub outer_bg: Rgba8,
    pub win_x: i32,
    pub win_y: i32,
    pub win_radius: u32,
    pub content_x: i32,
    pub content_y: i32,
}

/// The title bar's height: the theme's when the window is decorated.
pub open spec fn title_height(decoration: bool, theme: Theme) -> int {
    if decoration {
        theme.title_bar_height as int
    } else {
        0
    }
}

/// The room the shadow takes beside the window.
pub open spec fn shadow_room(shadow: bool, theme: Theme) -> int {
    if shadow {
        theme.shadow_offset as int
    } else {
        0
    }
}

/// The frame fits its integer types.
pub open spec fn frame_fits(
    content_width: u32,
    content_height: u32,
    padding: u32,
    margin: u32,
    decoration: bool,
    shadow: bool,
    theme: Theme,
) -> bool {
    let ww = content_width + padding * 2;
    let wh = content_height + padding * 2 + title_height(decoration, theme);
    &&& ww + margin * 2 + shadow_room(shadow, theme) <= u32::MAX
    &&& wh + margin * 2 + shadow_room(shadow, theme) <= u32::MAX
    &&& (margin as i32) + (padding as i32) <= i32::MAX
    &&& (margin as i32) + (title_height(decoration, theme) as u32 as i32) <= i32::MAX
    &&& (margin as i32) + (title_height(decoration, theme) as u32 as i32) + (padding as i32)
        <= i32::MAX
    &&& i32::MIN <= (margin as i32) + (padding as i32)
    &&& i32::MIN <= (margin as i32) + (title_height(decoration, theme) as u32 as i32)
    &&& i32::MIN <= (margin as i32) + (title_height(decoration, theme) as u32 as i32) + (
    padding as i32)
}

/// The frame of a window around a content area of the given size.
pub open spec fn frame_of(
    content_width: u32,
    content_height: u32,
    padding: u32,
    margin: u32,
    decoration: bool,
    shadow: bool,
    theme: Theme,
) -> WindowFrame {
    let th = title_height(decoration, theme);
    let ww = content_width + padding * 2;
    let wh = content_height + padding * 2 + th;
    let win = margin as i32;
    WindowFrame {
        title_bar_height: th as u32,
        window_width: ww as u32,
        window_height: wh as u32,
        image_width: (ww + margin * 2 + shadow_room(shadow, theme)) as u32,
        image_height: (wh + margin * 2 + shadow_room(shadow, theme)) as u32,
        outer_bg: if decoration {
            Rgba8(0, 0, 0, 0)
        } else {
            theme.outer_bg_color
        },
        win_x: win,
        win_y: win,
        win_radius: if decoration {
            theme.corner_radius
        } else {
            0
        },
        content_x: (win + (padding as i32)) as i32,
        content_y: (win + (th as u32 as i32) + (padding as i32)) as i32,
    }
}

/// Lays out the window around a content area of `content_width` ×
/// `content_height` pixels: `padding` inside it, `margin` outside, a title
/// bar when `decoration` is set, room for the shadow when `shadow` is.
pub fn window_frame(
    content_width: u32,
    content_height: u32,
    padding: u32,
    margin: u32,
    decoration: bool,
    shadow: bool,
    theme: &Theme,
) -> (frame: WindowFrame)
    requires
        frame_fits(content_width, content_height, padding, margin, decoration, shadow, *theme),
    ensures
        frame == frame_of(content_width, content_height, padding, margin, decoration, shadow, *theme),
{
    let title_bar_h: u32 = if decoration {
        theme.title_bar_height
    } else {
        0
    };
    let window_width = content_width + padding * 2;
    let window_height = content_height + padding * 2 + title_bar_h;
    let shadow_extra: u32 = if shadow {
        theme.shadow_offset
    } else {
        0
    };
    let img_width = window_width + margin * 2 + shadow_extra;
    let img_height = window_height + margin * 2 + shadow_extra;
    let outer_bg = if decoration {
        Rgba8(0, 0, 0, 0)
    } else {
        theme.outer_bg_color
    };
    let win_x = margin as i32;
    let win_y = margin as i32;
    let win_radius = if decoration {
        theme.corner_radius
    } else {
        0
    };
    let content_x = win_x + padding as i32;
    let content_y = win_y + title_bar_h as i32 + padding as i32;
    WindowFrame {
        title_bar_height: title_bar_h,
        window_width,
        window_height,
        image_width: img_width,
        image_height: img_height,
        outer_bg,
        win_x,
        win_y,
        win_radius,
        content_x,
        content_y,
    }
}

/// Whether `compute_layout` can stack the panels: their total height fits a
/// `u32`.
pub fn layout_fits(panels: &[ParsedOutput], show_cmd: bool, cell_height: u32) -> (ok: bool)
    ensures
        ok == (stack_height(panels@, show_cmd, cell_height) <= u32::MAX),
{
    let mut total: u64 = 0;
    let mut i: usize = 0;
    while i < panels.len()
        invariant
            i <= panels@.len(),
            total == stack_height(panels@.take(i as int), show_cmd, cell_height),
            total <= u32::MAX,
        decreases panels.len() - i,
    {
        let panel = &panels[i];
        proof {
            assert(panels@.take(i + 1).drop_last() =~= panels@.take(i as int));
            assert(0 <= (panel.rows as u32) * cell_height <= u32::MAX * u32::MAX) by (nonlinear_arith)
                requires
                    (panel.rows as u32) <= u32::MAX,
                    cell_height <= u32::MAX,
            ;
        }
        let cmd_h: u64 = if show_cmd && !panel.command.as_str().is_empty() {
            cell_height as u64
        } else {
            0
        };
        let content_h: u64 = (panel.rows as u32) as u64 * cell_height as u64;
        if content_h > u32::MAX as u64 || total + cmd_h + content_h > u32::MAX as u64 {
            proof {
                lemma_stack_height_mono(panels@, show_cmd, cell_height, i + 1);
            }
            return false;
        }
        total = total + cmd_h + content_h;
        i = i + 1;
    }
    assert(panels@.take(panels@.len() as int) =~= panels@);
    true
}

/// Whether `window_frame` can lay out the window: its sizes fit a `u32` and
/// its positions an `i32`.
pub fn frame_fits_check(
    content_width: u32,
    content_height: u32,
    padding: u32,
    margin: u32,
    decoration: bool,
    shadow: bool,
    theme: &Theme,
) -> (ok: bool)
    ensures
        ok == frame_fits(content_width, content_height, padding, margin, decoration, shadow, *theme),
{
    let th: u32 = if decoration {
        theme.title_bar_height
    } else {
        0
    };
    let sh: u32 = if shadow {
        theme.shadow_offset
    } else {
        0
    };
    let ww = content_width as u64 + padding as u64 * 2;
    let wh = content_height as u64 + padding as u64 * 2 + th as u64;
    let m = margin as i32 as i64;
    let p = padding as i32 as i64;
    let t = th as i32 as i64;
    ww + margin as u64 * 2 + sh as u64 <= u32::MAX as u64 && wh + margin as u64 * 2 + sh as u64
        <= u32::MAX as u64 && m + p <= i32::MAX as i64 && m + t <= i32::MAX as i64 && m + t + p
        <= i32::MAX as i64 && i32::MIN as i64 <= m + p && i32::MIN as i64 <= m + t && i32::MIN
        as i64 <= m + t + p
}

/// How to paint one cell.
#[derive(Clone, Copy, Debug, PartialEq, Eq, Structural)]
pub struct CellPaint {
    pub fg: Rgba8,
    pub bg: Rgba8,
    /// The background differs from the window's and is filled in.
    pub fill_background: bool,
    /// The cell has text that is not white space.
    pub draw_text: bool,
    pub bold: bool,
    /// An underline is drawn below the text.
    pub underline: bool,
}

/// The text and background colours of a cell: resolved from its colours,
/// exchanged when it is inverse, unless both are the default ones.
pub open spec fn paint_colors(cell: StyledCell, theme: Theme) -> (Rgba8, Rgba8) {
    if cell.inverse {
        if cell.fg == CellColor::Default && cell.bg == CellColor::Default {
            (resolved_color(cell.fg, true, theme), resolved_color(cell.bg, false, theme))
        } else {
            (resolved_color(cell.bg, false, theme), resolved_color(cell.fg, true, theme))
        }
    } else {
        (resolved_color(cell.fg, true, theme), resolved_color(cell.bg, false, theme))
    }
}

pub open spec fn paint_of(cell: StyledCell, theme: Theme) -> CellPaint {
    let (fg, bg) = paint_colors(cell, theme);
    let text = !is_blank_text(cell.ch@);
    CellPaint {
        fg,
        bg,
        fill_background: bg != theme.bg_color,
        draw_text: text,
        bold: cell.bold,
        underline: text && cell.underline,
    }
}

fn same_color(a: Rgba8, b: Rgba8) -> (res: bool)
    ensures
        res == (a == b),
{
    a.0 == b.0 && a.1 == b.1 && a.2 == b.2 && a.3 == b.3
}

/// Decides how a cell is painted with `theme`.
pub fn cell_paint(cell: &StyledCell, theme: &Theme) -> (paint: CellPaint)
    ensures
        paint == paint_of(*cell, *theme),
{
    let (mut fg_color, mut bg_color) = if cell.inverse {
        (resolve_color(&cell.bg, false, theme), resolve_color(&cell.fg, true, theme))
    } else {
        (resolve_color(&cell.fg, true, theme), resolve_color(&cell.bg, false, theme))
    };
    if cell.inverse && matches!(cell.fg, CellColor::Default) && matches!(cell.bg, CellColor::Default) {
        let t = fg_color;
        fg_color = bg_color;
        bg_color = t;
    }
    let fill = !same_color(bg_color, theme.bg_color);
    let text = !text_is_blank(cell.ch.as_str());
    CellPaint {
        fg: fg_color,
        bg: bg_color,
        fill_background: fill,
        draw_text: text,
        bold: cell.bold,
        underline: text && cell.underline,
    }
}

// ---------------------------------------------------------------------------
// Laws.

/// The panels follow each other with no gap and no overlap: each starts
/// where the one above ends, and the last ends at the total height.
pub proof fn lemma_panels_abut(
    layouts: Seq<PanelLayout>,
    panels: Seq<ParsedOutput>,
    show_cmd: bool,
    cell_height: u32,
    total: int,
)
    requires
        stacked(layouts, panels, show_cmd, cell_height),
        total == stack_height(panels, show_cmd, cell_height),
    ensures
        forall|i: int|
            0 <= i < panels.len() - 1 ==> #[trigger] layouts[i].y_offset
                + layouts[i].cmd_header_height + layouts[i].content_height == layouts[i
                + 1].y_offset,
        panels.len() > 0 ==> layouts[panels.len() - 1].y_offset + layouts[panels.len()
            - 1].cmd_header_height + layouts[panels.len() - 1].content_height == total,
        panels.len() == 0 ==> total == 0,
{
    assert forall|i: int| 0 <= i < panels.len() - 1 implies #[trigger] layouts[i].y_offset
        + layouts[i].cmd_header_height + layouts[i].content_height == layouts[i + 1].y_offset by {
        assert(panels.take(i + 1).drop_last() =~= panels.take(i));
        assert(layouts[i + 1].y_offset == stack_height(panels.take(i + 1), show_cmd, cell_height));
    }
    if panels.len() > 0 {
        let n = panels.len() - 1;
        assert(panels.drop_last() =~= panels.take(n));
        assert(layouts[n].y_offset == stack_height(panels.take(n), show_cmd, cell_height));
    }
}

/// Inverse video changes nothing on a cell in the default colours.
pub proof fn lemma_inverse_default_is_plain(cell: StyledCell, theme: Theme)
    requires
        cell.fg == CellColor::Default,
        cell.bg == CellColor::Default,
    ensures
        paint_of(cell, theme) == paint_of(StyledCell { inverse: !cell.inverse, ..cell }, theme),
        paint_of(cell, theme).fg == theme.default_fg,
        paint_of(cell, theme).bg == theme.bg_color,
        !paint_of(cell, theme).fill_background,
{
}

/// A blank cell is painted with no text and no underline, and its
/// background is filled only when it is inverse.
pub proof fn lemma_blank_cell_has_no_text(cell: StyledCell, theme: Theme)
    requires
        is_blank_cell(cell),
    ensures
        !paint_of(cell, theme).draw_text,
        !paint_of(cell, theme).underline,
        !paint_of(cell, theme).fill_background || cell.inverse,
{
}

} // verus!
