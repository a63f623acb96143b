//! Palettes: from an iteration count to the glyph and colours of a cell.

use colored::Colorize;
use vstd::prelude::*;
use crate::julia::MAX_ITERATIONS;

verus! {

/// The selectable palettes, in the order in which they are cycled.
#[derive(Clone, Copy, Debug, PartialEq, Eq, Structural)]
pub enum ColorScheme {
    Rainbow,
    Blues,
    Greens,
    Purples,
    Grays,
}

/// The character drawn in a cell, from densest to empty.
#[derive(Clone, Copy, Debug, PartialEq, Eq, Structural)]
pub enum Glyph {
    Full,
    Dark,
    Medium,
    Light,
    Blank,
}

/// A terminal colour.
#[derive(Clone, Copy, Debug, PartialEq, Eq, Structural)]
pub enum Tone {
    Black,
    Red,
    Green,
    Yellow,
    Blue,
    Magenta,
    Cyan,
    White,
    BrightBlack,
    BrightGreen,
    BrightBlue,
    BrightMagenta,
    BrightWhite,
}

/// Which of a cell's two colours are set.
#[derive(Clone, Copy, Debug, PartialEq, Eq, Structural)]
pub enum Paint {
    /// Only the glyph's own colour.
    Fore(Tone),
    /// Only the background.
    Back(Tone),
    /// The glyph's colour, then the background.
    Both(Tone, Tone),
}

/// How one cell is drawn.
#[derive(Clone, Copy, Debug, PartialEq, Eq, Structural)]
pub struct CellStyle {
    pub glyph: Glyph,
    pub paint: Paint,
}

impl ColorScheme {
    /// The palette that follows `self` in the cycle.
    pub open spec fn next_spec(self) -> ColorScheme {
        match self {
            ColorScheme::Rainbow => ColorScheme::Blues,
            ColorScheme::Blues => ColorScheme::Greens,
            ColorScheme::Greens => ColorScheme::Purples,
            ColorScheme::Purples => ColorScheme::Grays,
            ColorScheme::Grays => ColorScheme::Rainbow,
        }
    }

    /// The palette that follows `self`; after the last comes the first.
    pub fn next(&self) -> (r: ColorScheme)
        ensures
            r == self.next_spec(),
            r != *self,
    {
        match self {
            ColorScheme::Rainbow => ColorScheme::Blues,
            ColorScheme::Blues => ColorScheme::Greens,
            ColorScheme::Greens => ColorScheme::Purples,
            ColorScheme::Purples => ColorScheme::Grays,
            ColorScheme::Grays => ColorScheme::Rainbow,
        }
    }
}

/// The palettes form one cycle of length five: five steps lead back to the
/// start, and no fewer do.
pub proof fn lemma_scheme_cycle(s: ColorScheme)
    ensures
        s.next_spec().next_spec().next_spec().next_spec().next_spec() == s,
        s.next_spec() != s,
        s.next_spec().next_spec() != s,
        s.next_spec().next_spec().next_spec() != s,
        s.next_spec().next_spec().next_spec().next_spec() != s,
{
}

impl Glyph {
    /// The glyph as text.
    pub open spec fn text_spec(self) -> Seq<char> {
        match self {
            Glyph::Full => "\u{2588}"@,
            Glyph::Dark => "\u{2593}"@,
            Glyph::Medium => "\u{2592}"@,
            Glyph::Light => "\u{2591}"@,
            Glyph::Blank => " "@,
        }
    }

    /// The glyph as text: one block character, or a space.
    pub fn text(&self) -> (r: &'static str)
        ensures
            r@ == self.text_spec(),
    {
        match self {
            Glyph::Full => "\u{2588}",
            Glyph::Dark => "\u{2593}",
            Glyph::Medium => "\u{2592}",
            Glyph::Light => "\u{2591}",
            Glyph::Blank => " ",
        }
    }
}

impl Tone {
    /// The colour's name.
    pub open spec fn name_spec(self) -> Seq<char> {
        match self {
            Tone::Black => "black"@,
            Tone::Red => "red"@,
            Tone::Green => "green"@,
            Tone::Yellow => "yellow"@,
            Tone::Blue => "blue"@,
            Tone::Magenta => "magenta"@,
            Tone::Cyan => "cyan"@,
            Tone::White => "white"@,
            Tone::BrightBlack => "bright black"@,
            Tone::BrightGreen => "bright green"@,
            Tone::BrightBlue => "bright blue"@,
            Tone::BrightMagenta => "bright magenta"@,
            Tone::BrightWhite => "bright white"@,
        }
    }

    /// The colour's name, in lower case, `bright` first where it applies.
    pub fn name(&self) -> (r: &'static str)
        ensures
            r@ == self.name_spec(),
    {
        match self {
            Tone::Black => "black",
            Tone::Red => "red",
            Tone::Green => "green",
            Tone::Yellow => "yellow",
            Tone::Blue => "blue",
            Tone::Magenta => "magenta",
            Tone::Cyan => "cyan",
            Tone::White => "white",
            Tone::BrightBlack => "bright black",
            Tone::BrightGreen => "bright green",
            Tone::BrightBlue => "bright blue",
            Tone::BrightMagenta => "bright magenta",
            Tone::BrightWhite => "bright white",
        }
    }
}

impl Paint {
    /// Name of the glyph's colour, if one is set.
    pub open spec fn fore_name(self) -> Option<Seq<char>> {
        match self {
            Paint::Fore(f) => Some(f.name_spec()),
            Paint::Back(_) => None,
            Paint::Both(f, _) => Some(f.name_spec()),
        }
    }

    /// Name of the background colour, if one is set.
    pub open spec fn back_name(self) -> Option<Seq<char>> {
        match self {
            Paint::Fore(_) => None,
            Paint::Back(b) => Some(b.name_spec()),
            Paint::Both(_, b) => Some(b.name_spec()),
        }
    }
}

/// The glyph of an escaping cell: the count picks one of the four blocks in
/// turn.
pub open spec fn base_glyph(iterations: int) -> Glyph {
    let k = iterations % 4;
    if k == 0 {
        Glyph::Full
    } else if k == 1 {
        Glyph::Dark
    } else if k == 2 {
        Glyph::Medium
    } else {
        Glyph::Light
    }
}

/// The sixteen colours of the rainbow palette, by count modulo sixteen.
pub open spec fn rainbow_tones() -> Seq<Tone> {
    seq![
        Tone::Black,
        Tone::Blue,
        Tone::Cyan,
        Tone::Green,
        Tone::Magenta,
        Tone::Magenta,
        Tone::Red,
        Tone::Yellow,
        Tone::Blue,
        Tone::Cyan,
        Tone::Green,
        Tone::Magenta,
        Tone::Blue,
        Tone::Cyan,
        Tone::Blue,
        Tone::Cyan,
    ]
}

/// The plain colour of a single-hue palette; gray for the rainbow.
pub open spec fn hue(scheme: ColorScheme) -> Tone {
    match scheme {
        ColorScheme::Blues => Tone::Blue,
        ColorScheme::Greens => Tone::Green,
        ColorScheme::Purples => Tone::Magenta,
        _ => Tone::BrightBlack,
    }
}

/// The bright colour of a single-hue palette; white for gray.
pub open spec fn bright_hue(scheme: ColorScheme) -> Tone {
    match scheme {
        ColorScheme::Blues => Tone::BrightBlue,
        ColorScheme::Greens => Tone::BrightGreen,
        ColorScheme::Purples => Tone::BrightMagenta,
        _ => Tone::White,
    }
}

/// Whether the palette is one of the three coloured single-hue palettes.
pub open spec fn is_hued(scheme: ColorScheme) -> bool {
    scheme == ColorScheme::Blues || scheme == ColorScheme::Greens || scheme
        == ColorScheme::Purples
}

/// The colours of a single-hue palette. Counts above eight are bright white
/// on the bright hue, above six white on the hue (bright white alone for
/// gray), above four the bright hue, above two the hue; a count of two is
/// dark (bright black on itself, black on bright black for gray) and lower
/// counts are black on black.
pub open spec fn gradient_paint(iterations: int, scheme: ColorScheme) -> Paint {
    if iterations > 8 {
        Paint::Both(Tone::BrightWhite, bright_hue(scheme))
    } else if iterations > 6 {
        if is_hued(scheme) {
            Paint::Both(Tone::White, hue(scheme))
        } else {
            Paint::Fore(Tone::BrightWhite)
        }
    } else if iterations > 4 {
        Paint::Fore(bright_hue(scheme))
    } else if iterations > 2 {
        Paint::Fore(hue(scheme))
    } else if iterations > 1 {
        if is_hued(scheme) {
            Paint::Both(Tone::BrightBlack, Tone::BrightBlack)
        } else {
            Paint::Both(Tone::Black, Tone::BrightBlack)
        }
    } else {
        Paint::Both(Tone::Black, Tone::Black)
    }
}

/// The style of a cell whose point took `iterations` steps to escape: a
/// blank on black where it never did, else the glyph by the count and the
/// colours by the palette.
pub open spec fn cell_style_spec(iterations: int, scheme: ColorScheme) -> CellStyle {
    if iterations == MAX_ITERATIONS {
        CellStyle { glyph: Glyph::Blank, paint: Paint::Back(Tone::Black) }
    } else if scheme == ColorScheme::Rainbow {
        CellStyle {
            glyph: base_glyph(iterations),
            paint: Paint::Fore(rainbow_tones()[iterations % 16]),
        }
    } else {
        CellStyle { glyph: base_glyph(iterations), paint: gradient_paint(iterations, scheme) }
    }
}

/// The colour of the rainbow palette for a count.
fn rainbow_tone(iterations: u32) -> (t: Tone)
    ensures
        t == rainbow_tones()[iterations as int % 16],
{
    let k: u32 = iterations % 16;
    match k {
        0 => Tone::Black,
        1 => Tone::Blue,
        2 => Tone::Cyan,
        3 => Tone::Green,
        4 => Tone::Magenta,
        5 => Tone::Magenta,
        6 => Tone::Red,
        7 => Tone::Yellow,
        8 => Tone::Blue,
        9 => Tone::Cyan,
        10 => Tone::Green,
        11 => Tone::Magenta,
        12 => Tone::Blue,
        13 => Tone::Cyan,
        14 => Tone::Blue,
        _ => Tone::Cyan,
    }
}

/// The style of a cell in a single-hue palette. The rainbow palette has no
/// hue of its own and is drawn in gray here.
pub fn color_gradient(iterations: u32, base_char: Glyph, color_type: ColorScheme) -> (style:
    CellStyle)
    ensures
        style.glyph == base_char,
        style.paint == gradient_paint(iterations as int, color_type),
{
    let (plain, bright, hued) = match color_type {
        ColorScheme::Blues => (Tone::Blue, Tone::BrightBlue, true),
        ColorScheme::Greens => (Tone::Green, Tone::BrightGreen, true),
        ColorScheme::Purples => (Tone::Magenta, Tone::BrightMagenta, true),
        _ => (Tone::BrightBlack, Tone::White, false),
    };
    let paint = if iterations > 8 {
        Paint::Both(Tone::BrightWhite, bright)
    } else if iterations > 6 {
        if hued {
            Paint::Both(Tone::White, plain)
        } else {
            Paint::Fore(Tone::BrightWhite)
        }
    } else if iterations > 4 {
        Paint::Fore(bright)
    } else if iterations > 2 {
        Paint::Fore(plain)
    } else if iterations > 1 {
        if hued {
            Paint::Both(Tone::BrightBlack, Tone::BrightBlack)
        } else {
            Paint::Both(Tone::Black, Tone::BrightBlack)
        }
    } else {
        Paint::Both(Tone::Black, Tone::Black)
    };
    CellStyle { glyph: base_char, paint }
}

/// Chooses glyph and colours for a cell from its iteration count.
pub fn cell_style(iterations: u32, scheme: ColorScheme) -> (style: CellStyle)
    ensures
        style == cell_style_spec(iterations as int, scheme),
{
    if iterations == MAX_ITERATIONS {
        return CellStyle { glyph: Glyph::Blank, paint: Paint::Back(Tone::Black) };
    }
    let selector: u32 = iterations % 4;
    let base_char = if selector == 0 {
        Glyph::Full
    } else if selector == 1 {
        Glyph::Dark
    } else if selector == 2 {
        Glyph::Medium
    } else {
        Glyph::Light
    };
    match scheme {
        ColorScheme::Rainbow => CellStyle {
            glyph: base_char,
            paint: Paint::Fore(rainbow_tone(iterations)),
        },
        _ => color_gradient(iterations, base_char, scheme),
    }
}

/// The text that a terminal shows as `text` in the named colours: what
/// `colored` writes for a string with these colours while colouring is on,
/// escape sequences included.
pub uninterp spec fn ansi_form(text: Seq<char>, fore: Option<Seq<char>>, back: Option<Seq<char>>)
    -> Seq<char>;

/// What a styled cell may be rendered as: its bare glyph where colouring is
/// off, else the glyph's coloured form.
pub open spec fn is_rendering(style: CellStyle, out: Seq<char>) -> bool {
    out == style.glyph.text_spec() || out == ansi_form(
        style.glyph.text_spec(),
        style.paint.fore_name(),
        style.paint.back_name(),
    )
}

/// Renders a styled cell as text for the terminal.
pub fn render_style(style: CellStyle) -> (out: String)
    ensures
        is_rendering(style, out@),
{
    let text = style.glyph.text();
    match style.paint {
        Paint::Fore(f) => paint_fore(text, f.name()),
        Paint::Back(b) => paint_back(text, b.name()),
        Paint::Both(f, b) => paint_both(text, f.name(), b.name()),
    }
}

/// The text that draws a cell of the given iteration count in the given
/// palette.
pub fn get_color(iterations: u32, scheme: ColorScheme) -> (out: String)
    ensures
        is_rendering(cell_style_spec(iterations as int, scheme), out@),
{
    render_style(cell_style(iterations, scheme))
}

/// `colored::Colorize::color` on `text` with the colour named `fore`, then
/// `to_string`. Whether `colored` colours at all is settled by the process
/// environment and by its override switch, so the result is either `text`
/// itself or its coloured form. This supposes that nobody flips the switch
/// while the call runs.
#[verifier::external_body]
fn paint_fore(text: &str, fore: &str) -> (out: String)
    ensures
        out@ == text@ || out@ == ansi_form(text@, Some(fore@), None),
{
    text.color(fore).to_string()
}

/// `colored::Colorize::on_color` on `text` with the colour named `back`,
/// then `to_string`; under the same supposition the result is `text` itself
/// or its coloured form.
#[verifier::external_body]
fn paint_back(text: &str, back: &str) -> (out: String)
    ensures
        out@ == text@ || out@ == ansi_form(text@, None, Some(back@)),
{
    text.on_color(back).to_string()
}

/// `colored::Colorize::color` and then `on_color` on `text`, then
/// `to_string`; under the same supposition the result is `text` itself or
/// its coloured form.
#[verifier::external_body]
fn paint_both(text: &str, fore: &str, back: &str) -> (out: String)
    ensures
        out@ == text@ || out@ == ansi_form(text@, Some(fore@), Some(back@)),
{
    text.color(fore).on_color(back).to_string()
}

} // verus!
