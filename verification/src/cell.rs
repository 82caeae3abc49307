//! Grid cells as the emulator reports them, and their serialization to text
//! with SGR (color and attribute) sequences.

use vstd::prelude::*;

use crate::text;

verus! {

/// Direct color.
#[derive(Clone, Copy, Debug, PartialEq, Eq, Structural)]
pub struct RgbColor {
    pub r: u8,
    pub g: u8,
    pub b: u8,
}

/// A color of a style.
#[derive(Clone, Copy, Debug, PartialEq, Eq, Structural)]
pub enum StyleColor {
    /// The terminal's default.
    Unset,
    /// Index into the palette.
    Palette(u8),
    /// Direct color.
    Rgb(RgbColor),
}

/// Kind of underline.
#[derive(Clone, Copy, Debug, PartialEq, Eq, Structural)]
pub enum Underline {
    Off,
    Single,
    Double,
    Curly,
    Dotted,
    Dashed,
    /// A kind that has no sequence here.
    Other,
}

/// Visual attributes of a cell.
#[derive(Clone, Copy, Debug, PartialEq, Eq, Structural)]
pub struct Style {
    pub fg_color: StyleColor,
    pub bg_color: StyleColor,
    pub underline_color: StyleColor,
    pub bold: bool,
    pub italic: bool,
    pub faint: bool,
    pub blink: bool,
    pub inverse: bool,
    pub invisible: bool,
    pub strikethrough: bool,
    pub overline: bool,
    pub underline: Underline,
}

/// Width behavior of a cell.
#[derive(Clone, Copy, Debug, PartialEq, Eq, Structural)]
pub enum CellWide {
    /// One column.
    Narrow,
    /// First of two columns.
    Wide,
    /// Second column of a wide character.
    SpacerTail,
    /// Filler before a wide character that was wrapped.
    SpacerHead,
}

/// Kind of content of a cell.
#[derive(Clone, Copy, Debug, PartialEq, Eq, Structural)]
pub enum CellContentTag {
    Codepoint,
    CodepointGrapheme,
    BgColorPalette,
    BgColorRgb,
}

/// What the grid knows of a cell beyond its packed value.
#[derive(Debug)]
pub struct GridCell {
    /// Style of the cell, `None` if the query failed.
    pub style: Option<Style>,
    /// Text that the cell shows: its grapheme cluster, or a blank.
    pub text: String,
}

/// A cell of the emulator's grid. Each query that the emulator may refuse is
/// an `Option`, `None` where it was refused.
#[derive(Debug)]
pub struct Cell {
    /// Identity of the packed value: two cells have the same one exactly when
    /// the emulator compares them equal.
    pub id: u64,
    pub wide: Option<CellWide>,
    pub has_text: Option<bool>,
    pub has_styling: Option<bool>,
    pub content_tag: Option<CellContentTag>,
    pub bg_color_palette: Option<u8>,
    pub bg_color_rgb: Option<RgbColor>,
    /// What the grid holds at the cell's position, `None` if the position
    /// could not be resolved.
    pub grid: Option<GridCell>,
}

impl Style {
    /// The style of an unstyled cell.
    pub open spec fn plain() -> Style {
        Style {
            fg_color: StyleColor::Unset,
            bg_color: StyleColor::Unset,
            underline_color: StyleColor::Unset,
            bold: false,
            italic: false,
            faint: false,
            blink: false,
            inverse: false,
            invisible: false,
            strikethrough: false,
            overline: false,
            underline: Underline::Off,
        }
    }
}

impl Default for Style {
    fn default() -> (style: Style)
        ensures
            style == Style::plain(),
    {
        Style {
            fg_color: StyleColor::Unset,
            bg_color: StyleColor::Unset,
            underline_color: StyleColor::Unset,
            bold: false,
            italic: false,
            faint: false,
            blink: false,
            inverse: false,
            invisible: false,
            strikethrough: false,
            overline: false,
            underline: Underline::Off,
        }
    }
}

/// Whether the arithmetic on the parameter base stays within a byte.
pub open spec fn color_fits(color: StyleColor, base: u8) -> bool {
    match color {
        StyleColor::Unset => true,
        StyleColor::Palette(p) => if p < 8 {
            base + p <= u8::MAX
        } else if p < 16 {
            base + 52 + p <= u8::MAX
        } else {
            base + 8 <= u8::MAX
        },
        StyleColor::Rgb(_) => base + 8 <= u8::MAX,
    }
}

/// SGR parameters that select `color`; `base` is 30 for the foreground and 40
/// for the background.
pub open spec fn color_params(color: StyleColor, base: u8) -> Seq<char> {
    match color {
        StyleColor::Unset => ""@,
        StyleColor::Palette(p) => if p < 8 {
            text::dec((base + p) as nat)
        } else if p < 16 {
            text::dec((base + 52 + p) as nat)
        } else {
            text::dec((base + 8) as nat) + ";5;"@ + text::dec(p as nat)
        },
        StyleColor::Rgb(rgb) => text::dec((base + 8) as nat) + ";2;"@ + text::dec(rgb.r as nat)
            + ";"@ + text::dec(rgb.g as nat) + ";"@ + text::dec(rgb.b as nat),
    }
}

/// `s` if `on`, nothing otherwise.
pub open spec fn when(on: bool, s: Seq<char>) -> Seq<char> {
    if on {
        s
    } else {
        Seq::empty()
    }
}

/// SGR parameter of an underline kind, with its leading semicolon.
pub open spec fn underline_param(underline: Underline) -> Seq<char> {
    match underline {
        Underline::Off => Seq::empty(),
        Underline::Single => ";4"@,
        Underline::Double => ";4:2"@,
        Underline::Curly => ";4:3"@,
        Underline::Dotted => ";4:4"@,
        Underline::Dashed => ";4:5"@,
        Underline::Other => Seq::empty(),
    }
}

/// SGR parameters of a color with their leading semicolon, nothing for an
/// unset color.
pub open spec fn color_param(color: StyleColor, base: u8) -> Seq<char> {
    when(color != StyleColor::Unset, ";"@ + color_params(color, base))
}

/// The SGR sequence that replaces whatever style is active by `style`.
pub open spec fn style_seq(style: Style) -> Seq<char> {
    "\x1b[0"@ + color_param(style.fg_color, 30) + color_param(style.bg_color, 40) + when(
        style.bold,
        ";1"@,
    ) + when(style.faint, ";2"@) + when(style.italic, ";3"@) + underline_param(style.underline)
        + when(style.blink, ";5"@) + when(style.inverse, ";7"@) + when(style.strikethrough, ";9"@)
        + "m"@
}

/// Appends the SGR parameters of a color.
pub fn dump_color(out: &mut String, color: &StyleColor, base: u8)
    requires
        color_fits(*color, base),
    ensures
        final(out)@ == old(out)@ + color_params(*color, base),
{
    match *color {
        StyleColor::Unset => {
            proof {
                reveal_strlit("");
            }
        },
        StyleColor::Palette(p) => {
            if p < 8 {
                text::push_dec(out, (base + p) as u64);
            } else if p < 16 {
                text::push_dec(out, (base + 52 + p) as u64);
            } else {
                text::push_dec(out, (base + 8) as u64);
                out.append(";5;");
                text::push_dec(out, p as u64);
            }
        },
        StyleColor::Rgb(rgb) => {
            text::push_dec(out, (base + 8) as u64);
            out.append(";2;");
            text::push_dec(out, rgb.r as u64);
            out.append(";");
            text::push_dec(out, rgb.g as u64);
            out.append(";");
            text::push_dec(out, rgb.b as u64);
        },
    }
    assert(out@ =~= old(out)@ + color_params(*color, base));
}

/// Appends `s` if `on`.
fn append_when(out: &mut String, on: bool, s: &str)
    ensures
        final(out)@ == old(out)@ + when(on, s@),
{
    if on {
        out.append(s);
    }
    assert(out@ =~= old(out)@ + when(on, s@));
}

/// Appends the SGR parameters of a color that is set, with their semicolon.
fn append_color(out: &mut String, color: &StyleColor, base: u8)
    requires
        color_fits(*color, base),
    ensures
        final(out)@ == old(out)@ + color_param(*color, base),
{
    if *color != StyleColor::Unset {
        out.append(";");
        dump_color(out, color, base);
    }
    assert(out@ =~= old(out)@ + color_param(*color, base));
}

/// Appends the SGR parameter of an underline kind.
fn append_underline(out: &mut String, underline: Underline)
    ensures
        final(out)@ == old(out)@ + underline_param(underline),
{
    match underline {
        Underline::Off => {},
        Underline::Single => out.append(";4"),
        Underline::Double => out.append(";4:2"),
        Underline::Curly => out.append(";4:3"),
        Underline::Dotted => out.append(";4:4"),
        Underline::Dashed => out.append(";4:5"),
        Underline::Other => {},
    }
    assert(out@ =~= old(out)@ + underline_param(underline));
}

/// Appends the SGR sequence of a style.
pub fn dump_style(out: &mut String, style: &Style)
    ensures
        final(out)@ == old(out)@ + style_seq(*style),
{
    out.append("\x1b[0");
    append_color(out, &style.fg_color, 30);
    append_color(out, &style.bg_color, 40);
    append_when(out, style.bold, ";1");
    append_when(out, style.faint, ";2");
    append_when(out, style.italic, ";3");
    append_underline(out, style.underline);
    append_when(out, style.blink, ";5");
    append_when(out, style.inverse, ";7");
    append_when(out, style.strikethrough, ";9");
    out.append("m");
    proof {
        let base = old(out)@;
        let s0 = "\x1b[0"@;
        let s1 = s0 + color_param(style.fg_color, 30);
        let s2 = s1 + color_param(style.bg_color, 40);
        let s3 = s2 + when(style.bold, ";1"@);
        let s4 = s3 + when(style.faint, ";2"@);
        let s5 = s4 + when(style.italic, ";3"@);
        let s6 = s5 + underline_param(style.underline);
        let s7 = s6 + when(style.blink, ";5"@);
        let s8 = s7 + when(style.inverse, ";7"@);
        let s9 = s8 + when(style.strikethrough, ";9"@);
        text::lemma_cat(base, s0, color_param(style.fg_color, 30));
        text::lemma_cat(base, s1, color_param(style.bg_color, 40));
        text::lemma_cat(base, s2, when(style.bold, ";1"@));
        text::lemma_cat(base, s3, when(style.faint, ";2"@));
        text::lemma_cat(base, s4, when(style.italic, ";3"@));
        text::lemma_cat(base, s5, underline_param(style.underline));
        text::lemma_cat(base, s6, when(style.blink, ";5"@));
        text::lemma_cat(base, s7, when(style.inverse, ";7"@));
        text::lemma_cat(base, s8, when(style.strikethrough, ";9"@));
        text::lemma_cat(base, s9, "m"@);
    }
}

impl Cell {
    /// Whether the cell only fills up the columns of a wide character.
    pub open spec fn is_spacer(self) -> bool {
        self.wide == Some(CellWide::SpacerTail) || self.wide == Some(CellWide::SpacerHead)
    }

    /// Whether the cell has a background fill and no text.
    pub open spec fn is_bg_only(self) -> bool {
        self.content_tag == Some(CellContentTag::BgColorPalette) || self.content_tag == Some(
            CellContentTag::BgColorRgb,
        )
    }

    /// Whether the cell is known to show something: a refused query counts as
    /// a no.
    pub open spec fn is_inked(self) -> bool {
        self.has_text == Some(true) || self.has_styling == Some(true) || self.is_bg_only()
    }

    /// Whether the cell is known to show nothing: a refused query counts
    /// against it.
    pub open spec fn is_blank(self) -> bool {
        &&& self.has_text == Some(false)
        &&& self.has_styling == Some(false)
        &&& self.content_tag is Some
        &&& !self.is_bg_only()
    }

    /// Style in which the cell is drawn.
    pub open spec fn drawn_style(self) -> Style {
        match self.content_tag {
            Some(CellContentTag::Codepoint) | Some(CellContentTag::CodepointGrapheme) => {
                if self.has_styling == Some(true) && self.grid is Some
                    && self.grid->0.style is Some {
                    self.grid->0.style->0
                } else {
                    Style::plain()
                }
            },
            Some(CellContentTag::BgColorPalette) => Style {
                bg_color: match self.bg_color_palette {
                    Some(p) => StyleColor::Palette(p),
                    None => StyleColor::Unset,
                },
                ..Style::plain()
            },
            Some(CellContentTag::BgColorRgb) => Style {
                bg_color: match self.bg_color_rgb {
                    Some(rgb) => StyleColor::Rgb(rgb),
                    None => StyleColor::Unset,
                },
                ..Style::plain()
            },
            None => Style::plain(),
        }
    }
}

/// A row serialized up to some cell.
pub struct RowPrefix {
    /// What was emitted.
    pub text: Seq<char>,
    /// The style that is active at its end.
    pub style: Style,
    /// Number of blank cells passed since the last one that was emitted.
    pub pending: nat,
}

/// What switches the terminal from style `from` to style `to`.
pub open spec fn style_change(from: Style, to: Style) -> Seq<char> {
    if to == from {
        Seq::empty()
    } else if to == Style::plain() {
        "\x1b[0m"@
    } else {
        style_seq(to)
    }
}

/// One more cell: spacers and unresolved cells leave no trace, blank cells are
/// held back, and a cell with ink is preceded by the blanks before it and by
/// the change to its style.
pub open spec fn row_step(row: RowPrefix, cell: Cell) -> RowPrefix {
    if cell.is_spacer() || cell.grid is None {
        row
    } else if !cell.is_inked() {
        RowPrefix { pending: row.pending + 1, ..row }
    } else {
        RowPrefix {
            text: row.text + text::run(' ', row.pending) + style_change(
                row.style,
                cell.drawn_style(),
            ) + cell.grid->0.text@,
            style: cell.drawn_style(),
            pending: 0,
        }
    }
}

/// The first `n` cells of a row, serialized.
pub open spec fn row_prefix(cells: Seq<Cell>, n: int) -> RowPrefix
    decreases n,
{
    if n <= 0 {
        RowPrefix { text: Seq::empty(), style: Style::plain(), pending: 0 }
    } else {
        row_step(row_prefix(cells, n - 1), cells[n - 1])
    }
}

/// A row, serialized: its cells without trailing blanks, and a reset if a
/// style is still active at the end.
pub open spec fn row_text(cells: Seq<Cell>) -> Seq<char> {
    let row = row_prefix(cells, cells.len() as int);
    row.text + when(row.style != Style::plain(), "\x1b[0m"@)
}

/// Whether a row is known to show nothing.
pub open spec fn blank_row(cells: Seq<Cell>) -> bool {
    forall|i: int| 0 <= i < cells.len() ==> (#[trigger] cells[i]).is_blank()
}

/// The identities of a row's cells.
pub open spec fn row_ids(cells: Seq<Cell>) -> Seq<u64> {
    cells.map_values(|cell: Cell| cell.id)
}

/// Whether an optional answer is a given one.
fn answered(answer: Option<bool>, value: bool) -> (yes: bool)
    ensures
        yes == (answer == Some(value)),
{
    match answer {
        Some(v) => v == value,
        None => false,
    }
}

/// Whether a cell has a background fill and no text.
fn is_bg_only(cell: &Cell) -> (yes: bool)
    ensures
        yes == cell.is_bg_only(),
{
    match cell.content_tag {
        Some(CellContentTag::BgColorPalette) => true,
        Some(CellContentTag::BgColorRgb) => true,
        _ => false,
    }
}

/// Whether every cell of a row is known to be blank: no text, no styling, no
/// background fill. A cell of which one of these is not known is not blank.
pub fn is_blank_cells(cells: &[Cell]) -> (blank: bool)
    ensures
        blank == blank_row(cells@),
{
    let mut i: usize = 0;
    while i < cells.len()
        invariant
            i <= cells.len(),
            forall|j: int| 0 <= j < i ==> (#[trigger] cells@[j]).is_blank(),
        decreases cells.len() - i,
    {
        let cell = &cells[i];
        if !(answered(cell.has_text, false) && answered(cell.has_styling, false)
            && cell.content_tag.is_some() && !is_bg_only(cell)) {
            assert(!cells@[i as int].is_blank());
            return false;
        }
        i = i + 1;
    }
    true
}

/// Style in which a cell is drawn.
pub fn cell_style(cell: &Cell) -> (style: Style)
    ensures
        style == cell.drawn_style(),
{
    match cell.content_tag {
        Some(CellContentTag::Codepoint) | Some(CellContentTag::CodepointGrapheme) => {
            if answered(cell.has_styling, true) {
                match &cell.grid {
                    Some(grid) => match grid.style {
                        Some(style) => style,
                        None => Style::default(),
                    },
                    None => Style::default(),
                }
            } else {
                Style::default()
            }
        },
        Some(CellContentTag::BgColorPalette) => {
            let mut style = Style::default();
            if let Some(index) = cell.bg_color_palette {
                style.bg_color = StyleColor::Palette(index);
            }
            style
        },
        Some(CellContentTag::BgColorRgb) => {
            let mut style = Style::default();
            if let Some(rgb) = cell.bg_color_rgb {
                style.bg_color = StyleColor::Rgb(rgb);
            }
            style
        },
        None => Style::default(),
    }
}

/// Appends a row as text with SGR sequences.
pub fn dump_row_from_cells(out: &mut String, cells: &[Cell])
    ensures
        final(out)@ == old(out)@ + row_text(cells@),
{
    let default_style = Style::default();
    let mut cur_style = default_style;
    let mut blank_cells: usize = 0;
    let mut x: usize = 0;
    let ghost start = out@;
    assert(out@ =~= start + row_prefix(cells@, 0).text);
    while x < cells.len()
        invariant
            x <= cells.len(),
            blank_cells <= x,
            default_style == Style::plain(),
            cur_style == row_prefix(cells@, x as int).style,
            blank_cells == row_prefix(cells@, x as int).pending,
            out@ == start + row_prefix(cells@, x as int).text,
        decreases cells.len() - x,
    {
        let cell = &cells[x];
        let ghost row = row_prefix(cells@, x as int);
        assert(row_prefix(cells@, x + 1) == row_step(row, *cell));
        x = x + 1;
        let spacer = match cell.wide {
            Some(CellWide::SpacerTail) => true,
            Some(CellWide::SpacerHead) => true,
            _ => false,
        };
        if spacer {
            continue;
        }
        if let Some(grid) = &cell.grid {
            if !answered(cell.has_text, true) && !answered(cell.has_styling, true) && !is_bg_only(
                cell,
            ) {
                blank_cells = blank_cells + 1;
                continue;
            }
            text::push_run(out, ' ', blank_cells);
            blank_cells = 0;
            let new_style = cell_style(cell);
            let ghost old_style = cur_style;
            let ghost blanks = text::run(' ', row.pending);
            if new_style != cur_style {
                if new_style == default_style {
                    out.append("\x1b[0m");
                } else {
                    dump_style(out, &new_style);
                }
                cur_style = new_style;
            } else {
                assert(out@ + Seq::<char>::empty() =~= out@);
            }
            let ghost change = style_change(old_style, new_style);
            assert(out@ == (start + row.text + blanks) + change);
            out.append(grid.text.as_str());
            proof {
                text::lemma_cat(start, row.text, blanks);
                text::lemma_cat(start, row.text + blanks, change);
                text::lemma_cat(start, row.text + blanks + change, grid.text@);
            }
        }
    }
    let ghost row = row_prefix(cells@, cells@.len() as int);
    append_when(out, cur_style != default_style, "\x1b[0m");
    proof {
        text::lemma_cat(start, row.text, when(row.style != Style::plain(), "\x1b[0m"@));
    }
}

/// A row that is known to be blank serializes to nothing.
pub proof fn blank_row_has_no_text(cells: Seq<Cell>)
    requires
        blank_row(cells),
    ensures
        row_text(cells) == Seq::<char>::empty(),
{
    lemma_blank_prefix(cells, cells.len() as int);
    assert(row_text(cells) =~= Seq::<char>::empty());
}

proof fn lemma_blank_prefix(cells: Seq<Cell>, n: int)
    requires
        blank_row(cells),
        0 <= n <= cells.len(),
    ensures
        row_prefix(cells, n).text == Seq::<char>::empty(),
        row_prefix(cells, n).style == Style::plain(),
    decreases n,
{
    if n > 0 {
        lemma_blank_prefix(cells, n - 1);
        assert(cells[n - 1].is_blank());
    }
}

} // verus!
