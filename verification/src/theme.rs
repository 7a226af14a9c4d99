//! Colours and sizes of the picture, and the mapping of terminal colours to
//! RGBA.

use vstd::prelude::*;

use crate::parser::CellColor;

verus! {

/// A colour: red, green, blue and alpha, 0 to 255 each.
#[derive(Clone, Copy, Debug, PartialEq, Eq, Structural)]
pub struct Rgba8(pub u8, pub u8, pub u8, pub u8);

/// The colours and sizes of the terminal window.
#[derive(Clone, Copy, Debug, PartialEq, Eq, Structural)]
pub struct Theme {
    pub bg_color: Rgba8,
    pub title_bar_color: Rgba8,
    pub title_bar_height: u32,
    pub button_radius: i32,
    pub button_y_center: i32,
    pub button_x_start: i32,
    pub button_spacing: i32,
    pub close_color: Rgba8,
    pub minimize_color: Rgba8,
    pub maximize_color: Rgba8,
    pub corner_radius: u32,
    pub shadow_color: Rgba8,
    pub shadow_offset: u32,
    pub default_fg: Rgba8,
    pub divider_color: Rgba8,
    pub divider_height: u32,
    pub cmd_header_color: Rgba8,
    pub cmd_arrow_color: Rgba8,
    pub outer_bg_color: Rgba8,
    pub border_color: Rgba8,
    pub border_width: u32,
}

/// The theme with every size multiplied by `s` (the signed sizes by `s` taken
/// as an `i32`) and every colour kept.
pub open spec fn scaled_theme(t: Theme, s: u32) -> Theme {
    let si = s as i32;
    Theme {
        title_bar_height: (t.title_bar_height * s) as u32,
        button_radius: (t.button_radius * si) as i32,
        button_y_center: (t.button_y_center * si) as i32,
        button_x_start: (t.button_x_start * si) as i32,
        button_spacing: (t.button_spacing * si) as i32,
        corner_radius: (t.corner_radius * s) as u32,
        shadow_offset: (t.shadow_offset * s) as u32,
        divider_height: (t.divider_height * s) as u32,
        border_width: (t.border_width * s) as u32,
        ..t
    }
}

pub open spec fn fits_u32(x: int) -> bool {
    0 <= x <= u32::MAX
}

pub open spec fn fits_i32(x: int) -> bool {
    i32::MIN <= x <= i32::MAX
}

/// Every size of `t` times `s` fits its type.
pub open spec fn can_scale(t: Theme, s: u32) -> bool {
    let si = s as i32;
    &&& fits_u32(t.title_bar_height * s)
    &&& fits_i32(t.button_radius * si)
    &&& fits_i32(t.button_y_center * si)
    &&& fits_i32(t.button_x_start * si)
    &&& fits_i32(t.button_spacing * si)
    &&& fits_u32(t.corner_radius * s)
    &&& fits_u32(t.shadow_offset * s)
    &&& fits_u32(t.divider_height * s)
    &&& fits_u32(t.border_width * s)
}

/// The theme the picture is drawn with unless told otherwise.
pub open spec fn default_theme() -> Theme {
    Theme {
        bg_color: Rgba8(21, 21, 21, 255),
        title_bar_color: Rgba8(50, 54, 62, 255),
        title_bar_height: 38,
        button_radius: 7,
        button_y_center: 19,
        button_x_start: 20,
        button_spacing: 22,
        close_color: Rgba8(255, 95, 87, 255),
        minimize_color: Rgba8(255, 189, 46, 255),
        maximize_color: Rgba8(39, 201, 63, 255),
        corner_radius: 10,
        shadow_color: Rgba8(0, 0, 0, 80),
        shadow_offset: 8,
        default_fg: Rgba8(211, 211, 211, 255),
        divider_color: Rgba8(60, 64, 72, 255),
        divider_height: 2,
        cmd_header_color: Rgba8(128, 128, 128, 255),
        cmd_arrow_color: Rgba8(0, 255, 0, 255),
        outer_bg_color: Rgba8(30, 30, 30, 255),
        border_color: Rgba8(80, 84, 92, 255),
        border_width: 1,
    }
}

impl Theme {
    /// The theme for a picture drawn `s` times larger.
    pub fn scaled(&self, s: u32) -> (out: Theme)
        requires
            can_scale(*self, s),
        ensures
            out == scaled_theme(*self, s),
    {
        let si = s as i32;
        Theme {
            bg_color: self.bg_color,
            title_bar_color: self.title_bar_color,
            title_bar_height: self.title_bar_height * s,
            button_radius: self.button_radius * si,
            button_y_center: self.button_y_center * si,
            button_x_start: self.button_x_start * si,
            button_spacing: self.button_spacing * si,
            close_color: self.close_color,
            minimize_color: self.minimize_color,
            maximize_color: self.maximize_color,
            corner_radius: self.corner_radius * s,
            shadow_color: self.shadow_color,
            shadow_offset: self.shadow_offset * s,
            default_fg: self.default_fg,
            divider_color: self.divider_color,
            divider_height: self.divider_height * s,
            cmd_header_color: self.cmd_header_color,
            cmd_arrow_color: self.cmd_arrow_color,
            outer_bg_color: self.outer_bg_color,
            border_color: self.border_color,
            border_width: self.border_width * s,
        }
    }
}

impl Default for Theme {
    fn default() -> (t: Self)
        ensures
            t == default_theme(),
    {
        Theme {
            bg_color: Rgba8(21, 21, 21, 255),
            title_bar_color: Rgba8(50, 54, 62, 255),
            title_bar_height: 38,
            button_radius: 7,
            button_y_center: 19,
            button_x_start: 20,
            button_spacing: 22,
            close_color: Rgba8(255, 95, 87, 255),
            minimize_color: Rgba8(255, 189, 46, 255),
            maximize_color: Rgba8(39, 201, 63, 255),
            corner_radius: 10,
            shadow_color: Rgba8(0, 0, 0, 80),
            shadow_offset: 8,
            default_fg: Rgba8(211, 211, 211, 255),
            divider_color: Rgba8(60, 64, 72, 255),
            divider_height: 2,
            cmd_header_color: Rgba8(128, 128, 128, 255),
            cmd_arrow_color: Rgba8(0, 255, 0, 255),
            outer_bg_color: Rgba8(30, 30, 30, 255),
            border_color: Rgba8(80, 84, 92, 255),
            border_width: 1,
        }
    }
}

/// The sixteen standard ANSI colours (0-7 normal, 8-15 bright).
pub open spec fn standard_color(idx: u8) -> Rgba8 {
    if idx == 0 {
        Rgba8(0, 0, 0, 255)
    } else if idx == 1 {
        Rgba8(205, 49, 49, 255)
    } else if idx == 2 {
        Rgba8(13, 188, 121, 255)
    } else if idx == 3 {
        Rgba8(229, 229, 16, 255)
    } else if idx == 4 {
        Rgba8(36, 114, 200, 255)
    } else if idx == 5 {
        Rgba8(188, 63, 188, 255)
    } else if idx == 6 {
        Rgba8(17, 168, 205, 255)
    } else if idx == 7 {
        Rgba8(229, 229, 229, 255)
    } else if idx == 8 {
        Rgba8(102, 102, 102, 255)
    } else if idx == 9 {
        Rgba8(241, 76, 76, 255)
    } else if idx == 10 {
        Rgba8(35, 209, 139, 255)
    } else if idx == 11 {
        Rgba8(245, 245, 67, 255)
    } else if idx == 12 {
        Rgba8(59, 142, 234, 255)
    } else if idx == 13 {
        Rgba8(214, 112, 214, 255)
    } else if idx == 14 {
        Rgba8(41, 184, 219, 255)
    } else {
        Rgba8(255, 255, 255, 255)
    }
}

/// The 256-colour palette: the sixteen standard colours, a 6×6×6 colour cube
/// with steps of 51, and 24 greys from 8 in steps of 10.
pub open spec fn palette_color(idx: u8) -> Rgba8 {
    if idx < 16 {
        standard_color(idx)
    } else if idx < 232 {
        let i = idx - 16;
        Rgba8((i / 36 * 51) as u8, (i % 36 / 6 * 51) as u8, (i % 6 * 51) as u8, 255)
    } else {
        let gray = (8 + (idx - 232) * 10) as u8;
        Rgba8(gray, gray, gray, 255)
    }
}

/// The colour that a cell colour is drawn in: the theme's text or background
/// colour for the default one.
pub open spec fn resolved_color(color: CellColor, is_fg: bool, theme: Theme) -> Rgba8 {
    match color {
        CellColor::Default => if is_fg {
            theme.default_fg
        } else {
            theme.bg_color
        },
        CellColor::Indexed(idx) => palette_color(idx),
        CellColor::Rgb(r, g, b) => Rgba8(r, g, b, 255),
    }
}

/// The RGBA colour of entry `idx` of the 256-colour palette.
pub fn ansi_index_to_rgba(idx: u8) -> (c: Rgba8)
    ensures
        c == palette_color(idx),
{
    if idx < 16 {
        return if idx == 0 {
            Rgba8(0, 0, 0, 255)
        } else if idx == 1 {
            Rgba8(205, 49, 49, 255)
        } else if idx == 2 {
            Rgba8(13, 188, 121, 255)
        } else if idx == 3 {
            Rgba8(229, 229, 16, 255)
        } else if idx == 4 {
            Rgba8(36, 114, 200, 255)
        } else if idx == 5 {
            Rgba8(188, 63, 188, 255)
        } else if idx == 6 {
            Rgba8(17, 168, 205, 255)
        } else if idx == 7 {
            Rgba8(229, 229, 229, 255)
        } else if idx == 8 {
            Rgba8(102, 102, 102, 255)
        } else if idx == 9 {
            Rgba8(241, 76, 76, 255)
        } else if idx == 10 {
            Rgba8(35, 209, 139, 255)
        } else if idx == 11 {
            Rgba8(245, 245, 67, 255)
        } else if idx == 12 {
            Rgba8(59, 142, 234, 255)
        } else if idx == 13 {
            Rgba8(214, 112, 214, 255)
        } else if idx == 14 {
            Rgba8(41, 184, 219, 255)
        } else {
            Rgba8(255, 255, 255, 255)
        };
    }
    if idx < 232 {
        let idx = idx - 16;
        let r = (idx / 36) * 51;
        let g = ((idx % 36) / 6) * 51;
        let b = (idx % 6) * 51;
        return Rgba8(r, g, b, 255);
    }
    let gray = 8 + (idx - 232) * 10;
    Rgba8(gray, gray, gray, 255)
}

/// The RGBA colour a cell colour is drawn in, as text (`is_fg`) or as
/// background.
pub fn resolve_color(color: &CellColor, is_fg: bool, theme: &Theme) -> (c: Rgba8)
    ensures
        c == resolved_color(*color, is_fg, *theme),
{
    match color {
        CellColor::Default => {
            if is_fg {
                theme.default_fg
            } else {
                theme.bg_color
            }
        },
        CellColor::Indexed(idx) => ansi_index_to_rgba(*idx),
        CellColor::Rgb(r, g, b) => Rgba8(*r, *g, *b, 255),
    }
}

// ---------------------------------------------------------------------------
// Laws.

/// Scaling by one changes nothing.
pub proof fn lemma_scale_by_one(t: Theme)
    ensures
        can_scale(t, 1),
        scaled_theme(t, 1) == t,
{
    assert((1u32 as i32) == 1);
    assert(scaled_theme(t, 1) == t);
}

/// Scaling twice is scaling once by the product, wherever no size
/// overflows.
pub proof fn lemma_scale_twice(t: Theme, a: u32, b: u32)
    requires
        a * b <= u32::MAX,
        can_scale(t, a),
        can_scale(scaled_theme(t, a), b),
        can_scale(t, (a * b) as u32),
    ensures
        scaled_theme(scaled_theme(t, a), b) == scaled_theme(t, (a * b) as u32),
{
    lemma_scale_u32(t.title_bar_height, a, b);
    lemma_scale_u32(t.corner_radius, a, b);
    lemma_scale_u32(t.shadow_offset, a, b);
    lemma_scale_u32(t.divider_height, a, b);
    lemma_scale_u32(t.border_width, a, b);
    lemma_scale_i32(t.button_radius, a, b);
    lemma_scale_i32(t.button_y_center, a, b);
    lemma_scale_i32(t.button_x_start, a, b);
    lemma_scale_i32(t.button_spacing, a, b);
}

proof fn lemma_scale_u32(x: u32, a: u32, b: u32)
    requires
        a * b <= u32::MAX,
        fits_u32(x * a),
        fits_u32(((x * a) as u32) * b),
    ensures
        fits_u32(x * ((a * b) as u32)),
        (((x * a) as u32) * b) as u32 == (x * ((a * b) as u32)) as u32,
{
    assert((x * a) * b == x * (a * b)) by (nonlinear_arith);
    assert(0 <= a * b) by (nonlinear_arith);
}

proof fn lemma_scale_i32(x: i32, a: u32, b: u32)
    requires
        a * b <= u32::MAX,
        fits_i32(x * (a as i32)),
        fits_i32(((x * (a as i32)) as i32) * (b as i32)),
        fits_i32(x * ((a * b) as u32 as i32)),
    ensures
        (((x * (a as i32)) as i32) * (b as i32)) as i32 == (x * ((a * b) as u32 as i32)) as i32,
{
    if a * b <= i32::MAX {
        lemma_scale_i32_small(x, a, b);
    } else if a > i32::MAX {
        assert(b == 1) by (nonlinear_arith)
            requires
                a * b <= u32::MAX,
                a > i32::MAX,
                a * b > i32::MAX,
        ;
        assert(a * b == a);
        assert((b as i32) == 1);
        assert(((a * b) as u32) == a);
        let y = (x * (a as i32)) as i32;
        assert(y * 1 == y);
        assert((((x * (a as i32)) as i32) * (b as i32)) as i32 == y);
    } else if b > i32::MAX {
        assert(a == 1) by (nonlinear_arith)
            requires
                a * b <= u32::MAX,
                b > i32::MAX,
                a * b > i32::MAX,
        ;
        assert(a * b == b);
        assert((a as i32) == 1);
        assert(((a * b) as u32) == b);
        assert(x * 1 == x);
    } else {
        assert((a as i32) == a && (b as i32) == b);
        assert((x * a) * b == x * (a * b)) by (nonlinear_arith);
        assert(x == 0 || (x == -1 && a * b == 0x8000_0000)) by (nonlinear_arith)
            requires
                i32::MIN <= x * (a * b) <= i32::MAX,
                a * b > i32::MAX,
        ;
        if x == -1 {
            let ab = (a * b) as u32;
            assert(ab == 0x8000_0000u32);
            assert((ab as i32) == i32::MIN) by (bit_vector)
                requires
                    ab == 0x8000_0000u32,
            ;
            assert(false);
        }
        assert(x * (a as i32) == 0);
        assert(x * ((a * b) as u32 as i32) == 0);
    }
}

proof fn lemma_scale_i32_small(x: i32, a: u32, b: u32)
    requires
        a * b <= i32::MAX,
        fits_i32(x * (a as i32)),
        fits_i32(((x * (a as i32)) as i32) * (b as i32)),
    ensures
        fits_i32(x * ((a * b) as u32 as i32)),
        (((x * (a as i32)) as i32) * (b as i32)) as i32 == (x * ((a * b) as u32 as i32)) as i32,
{
    assert(0 <= a * b) by (nonlinear_arith);
    if a == 0 {
        assert((a as i32) == 0);
        assert(x * (a as i32) == 0);
        assert(a * b == 0);
        assert(((a * b) as u32 as i32) == 0);
        assert(x * ((a * b) as u32 as i32) == 0);
        assert(0 * (b as i32) == 0);
    } else if b == 0 {
        assert((b as i32) == 0);
        assert(a * b == 0);
        assert(((a * b) as u32 as i32) == 0);
        assert(x * ((a * b) as u32 as i32) == 0);
        let y = (x * (a as i32)) as i32;
        assert(y * (b as i32) == 0) by (nonlinear_arith)
            requires
                (b as i32) == 0,
        ;
    } else {
        assert(a <= i32::MAX && b <= i32::MAX) by (nonlinear_arith)
            requires
                a * b <= i32::MAX,
                a >= 1,
                b >= 1,
        ;
        let sa = a as int;
        let sb = b as int;
        assert((a as i32) == sa && (b as i32) == sb);
        assert(((a * b) as u32 as i32) == sa * sb);
        assert((x * sa) * sb == x * (sa * sb)) by (nonlinear_arith);
    }
}

/// Channel `i` (0 red, 1 green, 2 blue) of colour `c`.
pub open spec fn channel(c: Rgba8, i: int) -> int {
    if i == 0 {
        c.0 as int
    } else if i == 1 {
        c.1 as int
    } else {
        c.2 as int
    }
}

/// Whether standard colour `idx` has channel `i` switched on: bit `i` of
/// its number among the eight (1 red, 2 green, 4 blue).
pub open spec fn ansi_lit(idx: int, i: int) -> bool {
    let k = idx % 8;
    if i == 0 {
        k % 2 == 1
    } else if i == 1 {
        k / 2 % 2 == 1
    } else {
        k / 4 == 1
    }
}

/// The sixteen standard colours follow the ANSI numbering: in colour `idx`
/// (taken modulo 8) the red, green and blue channels are switched on by bits
/// 1, 2 and 4, and every channel that is on is brighter than every channel
/// that is off; black and white (0 and 7) are greys. Each bright colour
/// (8 to 15) is at least as bright in every channel as its normal one and
/// brighter overall.
pub proof fn lemma_standard_colors_follow_ansi(idx: u8, i: int, j: int)
    requires
        idx < 16,
        0 <= i < 3,
        0 <= j < 3,
    ensures
        ansi_lit(idx as int, i) && !ansi_lit(idx as int, j) ==> channel(palette_color(idx), i)
            > channel(palette_color(idx), j),
        (idx % 8 == 0 || idx % 8 == 7) ==> channel(palette_color(idx), i) == channel(
            palette_color(idx),
            j,
        ),
        idx < 8 ==> channel(palette_color(idx), i) <= channel(palette_color((idx + 8) as u8), i),
        idx < 8 ==> palette_color(idx).0 + palette_color(idx).1 + palette_color(idx).2 < palette_color(
            (idx + 8) as u8,
        ).0 + palette_color((idx + 8) as u8).1 + palette_color((idx + 8) as u8).2,
{
}

/// The cube and the grey ramp can be read back: a cube colour's channels,
/// divided by 51, are the base-6 digits of its number past 16 (red the most
/// significant), and a grey's level is 8 plus 10 for each step past 232.
pub proof fn lemma_palette_reads_back(idx: u8)
    ensures
        16 <= idx < 232 ==> 16 + 36 * (palette_color(idx).0 / 51) + 6 * (palette_color(idx).1 / 51)
            + palette_color(idx).2 / 51 == idx,
        16 <= idx < 232 ==> palette_color(idx).0 / 51 < 6 && palette_color(idx).1 / 51 < 6
            && palette_color(idx).2 / 51 < 6,
        232 <= idx ==> palette_color(idx).0 == 8 + 10 * (idx - 232),
{
}

/// How a cell colour is drawn: a palette entry or an RGB colour looks the
/// same as text and as background under every theme, an RGB colour is drawn
/// as given and opaque, and the default colour is the theme's text colour for
/// text and its background colour for backgrounds.
pub proof fn lemma_resolved_colors(color: CellColor, t1: Theme, t2: Theme)
    ensures
        !(color is Default) ==> resolved_color(color, true, t1) == resolved_color(color, false, t2),
        color matches CellColor::Rgb(r, g, b) ==> resolved_color(color, true, t1) == Rgba8(r, g, b, 255),
        color is Default ==> resolved_color(color, true, t1) == t1.default_fg,
        color is Default ==> resolved_color(color, false, t1) == t1.bg_color,
{
}

/// The sixteen standard colours, entry by entry.
pub proof fn lemma_standard_table()
    ensures
        palette_color(0) == Rgba8(0, 0, 0, 255),
        palette_color(1) == Rgba8(205, 49, 49, 255),
        palette_color(2) == Rgba8(13, 188, 121, 255),
        palette_color(3) == Rgba8(229, 229, 16, 255),
        palette_color(4) == Rgba8(36, 114, 200, 255),
        palette_color(5) == Rgba8(188, 63, 188, 255),
        palette_color(6) == Rgba8(17, 168, 205, 255),
        palette_color(7) == Rgba8(229, 229, 229, 255),
        palette_color(8) == Rgba8(102, 102, 102, 255),
        palette_color(9) == Rgba8(241, 76, 76, 255),
        palette_color(10) == Rgba8(35, 209, 139, 255),
        palette_color(11) == Rgba8(245, 245, 67, 255),
        palette_color(12) == Rgba8(59, 142, 234, 255),
        palette_color(13) == Rgba8(214, 112, 214, 255),
        palette_color(14) == Rgba8(41, 184, 219, 255),
        palette_color(15) == Rgba8(255, 255, 255, 255),
{
}

/// Every palette colour is opaque; the colours of the cube have channels that
/// are multiples of 51 and the greys run from 8 to 238.
pub proof fn lemma_palette_shape(idx: u8)
    ensures
        palette_color(idx).3 == 255,
        16 <= idx < 232 ==> palette_color(idx).0 % 51 == 0 && palette_color(idx).1 % 51 == 0
            && palette_color(idx).2 % 51 == 0,
        232 <= idx ==> palette_color(idx).0 == palette_color(idx).1 == palette_color(idx).2 && 8
            <= palette_color(idx).0 <= 238,
{
}

} // verus!
