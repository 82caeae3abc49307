//! What a terminal shows after the library has written to it.

use vstd::prelude::*;

use crate::ansi;
use crate::cell;
use crate::cell::{Cell, CellContentTag, CellWide, Style, StyleColor, Underline};
use crate::renderer;
use crate::renderer::{RendererState, RowFate, Screen, Scrollback};
use crate::terminal;
use crate::terminal::{Expect, Glyph, Ink, Param, Pen, Reading, Terminal};
use crate::text;

verus! {

pub(crate) proof fn lemma_nothing(t: Terminal)
    ensures
        t.after(Seq::empty()) == t,
{
    reveal(Terminal::after);
}

pub(crate) proof fn lemma_after_push(t: Terminal, s: Seq<char>, c: char)
    ensures
        t.after(s.push(c)) == t.after(s).step(c),
{
    terminal::lemma_after_cat(t, s, seq![c]);
    assert(s + seq![c] =~= s.push(c));
    reveal(Terminal::after);
    reveal_with_fuel(Terminal::after_chars, 2);
}

/// A terminal in the midst of a sequence, with a number read.
spec fn reads(t: Terminal, private: bool, done: Seq<Param>, value: nat, sub: Option<nat>) -> Terminal {
    Terminal { reading: Reading::Csi { private, done, last: Param { value, sub } }, ..t }
}

proof fn lemma_number(t: Terminal, private: bool, done: Seq<Param>, n: nat)
    ensures
        reads(t, private, done, 0, None).after(text::dec(n)) == reads(t, private, done, n, None),
    decreases n,
{
    let u = reads(t, private, done, 0, None);
    if n < 10 {
        reveal(Terminal::after);
        reveal_with_fuel(Terminal::after_chars, 2);
        assert(text::dec(n).len() == 1);
        assert(u.after(text::dec(n)) == u.step(text::dec(n)[0]));
    } else {
        lemma_number(t, private, done, n / 10);
        lemma_after_push(u, text::dec(n / 10), text::digit(n % 10));
    }
}

proof fn lemma_begin(t: Terminal)
    requires
        t.reading is Text,
    ensures
        t.after("\x1b["@) == reads(t, false, Seq::empty(), 0, None),
{
    reveal_strlit("\x1b[");
    reveal(Terminal::after);
    reveal_with_fuel(Terminal::after_chars, 3);
}

proof fn lemma_next(t: Terminal, private: bool, done: Seq<Param>, value: nat, sub: Option<nat>)
    ensures
        reads(t, private, done, value, sub).after(";"@) == reads(
            t,
            private,
            done.push(Param { value, sub }),
            0,
            None,
        ),
{
    reveal_strlit(";");
    reveal(Terminal::after);
    reveal_with_fuel(Terminal::after_chars, 2);
}

pub(crate) proof fn lemma_move(t: Terminal, col: nat, row: nat)
    requires
        t.reading is Text,
    ensures
        t.after(ansi::move_to_seq(col, row)) == (Terminal { row: row as int, col: col as int, ..t }),
{
    let s1 = "\x1b["@;
    let s2 = s1 + text::dec(row + 1);
    let s3 = s2 + ";"@;
    let s4 = s3 + text::dec(col + 1);
    let none = Seq::<Param>::empty();
    let one = none.push(Param { value: row + 1, sub: None });
    lemma_begin(t);
    lemma_number(t, false, none, row + 1);
    lemma_next(t, false, none, row + 1, None);
    lemma_number(t, false, one, col + 1);
    terminal::lemma_after_cat(t, s1, text::dec(row + 1));
    terminal::lemma_after_cat(t, s2, ";"@);
    terminal::lemma_after_cat(t, s3, text::dec(col + 1));
    terminal::lemma_after_cat(t, s4, "H"@);
    reveal_strlit("H");
    reveal(Terminal::after);
    reveal_with_fuel(Terminal::after_chars, 2);
    let u = t.after(s4);
    assert(u == reads(t, false, one, col + 1, None));
    assert(u.after("H"@) == u.step('H'));
    let params = one.push(Param { value: col + 1, sub: None });
    assert(params.len() == 2 && params[0].value == row + 1 && params[1].value == col + 1);
    assert(u.step('H') == (Terminal { row: row as int, col: col as int, ..t }));
}

pub(crate) proof fn lemma_region(t: Terminal, bottom: nat)
    requires
        t.reading is Text,
    ensures
        t.after(ansi::scroll_region_seq(1, bottom)) == (Terminal {
            top: 0,
            bottom: bottom as int,
            row: 0,
            col: 0,
            ..t
        }),
{
    let s1 = "\x1b["@;
    let s2 = s1 + text::dec(1);
    let s3 = s2 + ";"@;
    let s4 = s3 + text::dec(bottom);
    let none = Seq::<Param>::empty();
    let one = none.push(Param { value: 1, sub: None });
    lemma_begin(t);
    lemma_number(t, false, none, 1);
    lemma_next(t, false, none, 1, None);
    lemma_number(t, false, one, bottom);
    terminal::lemma_after_cat(t, s1, text::dec(1));
    terminal::lemma_after_cat(t, s2, ";"@);
    terminal::lemma_after_cat(t, s3, text::dec(bottom));
    terminal::lemma_after_cat(t, s4, "r"@);
    reveal_strlit("r");
    reveal(Terminal::after);
    reveal_with_fuel(Terminal::after_chars, 2);
    let u = t.after(s4);
    assert(u.after("r"@) == u.step('r'));
    let params = one.push(Param { value: bottom, sub: None });
    assert(params.len() == 2 && params[0].value == 1 && params[1].value == bottom);
}

/// A sequence of one number.
proof fn lemma_short(t: Terminal, s: Seq<char>, a: char, last: char)
    requires
        t.reading is Text,
        s.len() == 4,
        s[0] == '\x1b',
        s[1] == '[',
        s[2] == a,
        '0' <= a <= '9',
        s[3] == last,
        last == 'J' || last == 'K' || last == 'm',
    ensures
        t.after(s) == t.act(
            false,
            Seq::empty().push(Param { value: (a as int - '0' as int) as nat, sub: None }),
            last,
        ),
{
    reveal(Terminal::after);
    reveal_with_fuel(Terminal::after_chars, 5);
    let u = t.after_chars(s, 3);
    assert(u == reads(t, false, Seq::empty(), (a as int - '0' as int) as nat, None));
    assert(t.after(s) == u.step(last));
    assert((Terminal { reading: Reading::Text, ..u }) == t);
}

pub(crate) proof fn lemma_erase_line(t: Terminal)
    requires
        t.reading is Text,
    ensures
        t.after(ansi::erase_seq(ansi::Erase::Line)) == (Terminal {
            lines: t.lines.update(t.row, Seq::empty()),
            ..t
        }),
{
    reveal_strlit("\x1b[2K");
    lemma_short(t, "\x1b[2K"@, '2', 'K');
}

pub(crate) proof fn lemma_erase_screen(t: Terminal)
    requires
        t.reading is Text,
    ensures
        t.after(ansi::erase_seq(ansi::Erase::Screen)) == (Terminal {
            lines: Seq::new(t.lines.len(), |i: int| Seq::empty()),
            ..t
        }),
{
    reveal_strlit("\x1b[2J");
    lemma_short(t, "\x1b[2J"@, '2', 'J');
}

pub(crate) proof fn lemma_erase_above(t: Terminal)
    requires
        t.reading is Text,
    ensures
        t.after(ansi::erase_seq(ansi::Erase::Scrollback)) == (Terminal {
            above: Seq::empty(),
            ..t
        }),
{
    reveal_strlit("\x1b[3J");
    lemma_short(t, "\x1b[3J"@, '3', 'J');
}

pub(crate) proof fn lemma_plain(t: Terminal)
    requires
        t.reading is Text,
    ensures
        t.after("\x1b[0m"@) == (Terminal { pen: Pen::plain(), ..t }),
{
    reveal_strlit("\x1b[0m");
    lemma_short(t, "\x1b[0m"@, '0', 'm');
    let none = Seq::<Param>::empty();
    let params = none.push(Param { value: 0, sub: None });
    assert(params.drop_last() =~= none);
    reveal_with_fuel(terminal::selected, 3);
}

pub(crate) proof fn lemma_region_reset(t: Terminal)
    requires
        t.reading is Text,
    ensures
        t.after(ansi::reset_scroll_region_seq()) == (Terminal {
            top: 0,
            bottom: t.lines.len() as int,
            row: 0,
            col: 0,
            ..t
        }),
{
    reveal_strlit("\x1b[r");
    reveal(Terminal::after);
    reveal_with_fuel(Terminal::after_chars, 4);
}

pub(crate) proof fn lemma_modes(t: Terminal)
    requires
        t.reading is Text,
    ensures
        t.after(ansi::show_cursor_seq()) == (Terminal { visible: true, ..t }),
        t.after(ansi::hide_cursor_seq()) == (Terminal { visible: false, ..t }),
        t.after(ansi::begin_sync_seq()) == (Terminal { held: true, ..t }),
        t.after(ansi::end_sync_seq()) == (Terminal { held: false, ..t }),
{
    reveal_strlit("\x1b[?25h");
    reveal_strlit("\x1b[?25l");
    reveal_strlit("\x1b[?2026h");
    reveal_strlit("\x1b[?2026l");
    reveal(Terminal::after);
    reveal_with_fuel(Terminal::after_chars, 9);
    let e = Seq::<Param>::empty();
    assert(t.after_chars("\x1b[?25h"@, 5) == reads(t, true, e, 25, None));
    assert(t.after_chars("\x1b[?25l"@, 5) == reads(t, true, e, 25, None));
    assert(t.after_chars("\x1b[?2026h"@, 7) == reads(t, true, e, 2026, None));
    assert(t.after_chars("\x1b[?2026l"@, 7) == reads(t, true, e, 2026, None));
}

pub(crate) proof fn lemma_origin(t: Terminal)
    requires
        t.reading is Text,
    ensures
        t.after("\x1b[?6l"@) == (Terminal { origin: false, ..t }),
{
    reveal_strlit("\x1b[?6l");
    reveal(Terminal::after);
    reveal_with_fuel(Terminal::after_chars, 6);
    assert(t.after_chars("\x1b[?6l"@, 4) == reads(t, true, Seq::empty(), 6, None));
}

pub(crate) proof fn lemma_saved(t: Terminal)
    requires
        t.reading is Text,
    ensures
        t.after(ansi::save_cursor_seq()) == (Terminal { saved: (t.row, t.col), ..t }),
        t.after(ansi::restore_cursor_seq()) == (Terminal {
            row: t.saved.0,
            col: t.saved.1,
            ..t
        }),
{
    reveal_strlit("\x1b7");
    reveal_strlit("\x1b8");
    reveal(Terminal::after);
    reveal_with_fuel(Terminal::after_chars, 3);
}

/// The ink of a color.
pub open spec fn ink_of(color: StyleColor) -> Ink {
    match color {
        StyleColor::Unset => Ink::Normal,
        StyleColor::Palette(index) => Ink::Indexed(index as nat),
        StyleColor::Rgb(rgb) => Ink::Direct(rgb.r as nat, rgb.g as nat, rgb.b as nat),
    }
}

/// The pen of a style.
pub open spec fn pen_of(style: Style) -> Pen {
    Pen {
        fg: ink_of(style.fg_color),
        bg: ink_of(style.bg_color),
        bold: style.bold,
        faint: style.faint,
        italic: style.italic,
        underline: match style.underline {
            Underline::Off => 0,
            Underline::Single => 1,
            Underline::Double => 2,
            Underline::Curly => 3,
            Underline::Dotted => 4,
            Underline::Dashed => 5,
            Underline::Other => 0,
        },
        blink: style.blink,
        inverse: style.inverse,
        strikethrough: style.strikethrough,
    }
}

/// A terminal in the midst of a sequence, with these parameters read.
#[verifier::opaque]
spec fn csi(t: Terminal, params: Seq<Param>) -> Terminal {
    reads(t, false, params.drop_last(), params.last().value, params.last().sub)
}

spec fn number(n: nat) -> Param {
    Param { value: n, sub: None }
}

proof fn lemma_selected(pen: Pen, params: Seq<Param>, p: Param)
    ensures
        terminal::selected(pen, params.push(p)) == terminal::select(
            terminal::selected(pen, params),
            p,
        ),
{
    assert(params.push(p).drop_last() =~= params);
}

/// One more parameter, a number.
proof fn lemma_param(t: Terminal, params: Seq<Param>, n: nat)
    requires
        params.len() > 0,
    ensures
        csi(t, params).after(";"@ + text::dec(n)) == csi(t, params.push(number(n))),
{
    reveal(csi);
    let last = params.last();
    lemma_next(t, false, params.drop_last(), last.value, last.sub);
    assert(params.drop_last().push(last) =~= params);
    lemma_number(t, false, params, n);
    terminal::lemma_after_cat(csi(t, params), ";"@, text::dec(n));
    assert(params.push(number(n)).drop_last() =~= params);
}

/// One more parameter of one digit.
proof fn lemma_digit(t: Terminal, params: Seq<Param>, s: Seq<char>, c: char)
    requires
        params.len() > 0,
        s.len() == 2,
        s[0] == ';',
        s[1] == c,
        '0' <= c <= '9',
    ensures
        csi(t, params).after(s) == csi(
            t,
            params.push(number((c as int - '0' as int) as nat)),
        ),
{
    reveal(csi);
    reveal(Terminal::after);
    reveal_with_fuel(Terminal::after_chars, 3);
    let n = (c as int - '0' as int) as nat;
    assert(params.drop_last().push(params.last()) =~= params);
    assert(params.push(number(n)).drop_last() =~= params);
}

proof fn lemma_kind(t: Terminal, params: Seq<Param>, s: Seq<char>, c: char)
    requires
        params.len() > 0,
        s.len() == 4,
        s[0] == ';',
        s[1] == '4',
        s[2] == ':',
        s[3] == c,
        '0' <= c <= '9',
    ensures
        csi(t, params).after(s) == csi(
            t,
            params.push(Param { value: 4, sub: Some((c as int - '0' as int) as nat) }),
        ),
{
    reveal(csi);
    reveal(Terminal::after);
    reveal_with_fuel(Terminal::after_chars, 5);
    let p = Param { value: 4, sub: Some((c as int - '0' as int) as nat) };
    assert(params.drop_last().push(params.last()) =~= params);
    assert(params.push(p).drop_last() =~= params);
}

/// The number of a color and the kind of it, up to where its value comes.
proof fn lemma_color_kind(t: Terminal, params: Seq<Param>, n: nat, s: Seq<char>, c: char)
    requires
        params.len() > 0,
        s.len() == 3,
        s[0] == ';',
        s[1] == c,
        s[2] == ';',
        '0' <= c <= '9',
    ensures
        csi(t, params).after(";"@).after(text::dec(n) + s) == reads(
            t,
            false,
            params.push(number(n)).push(number((c as int - '0' as int) as nat)),
            0,
            None,
        ),
{
    reveal(csi);
    let last = params.last();
    lemma_next(t, false, params.drop_last(), last.value, last.sub);
    assert(params.drop_last().push(last) =~= params);
    lemma_number(t, false, params, n);
    let u = csi(t, params).after(";"@);
    terminal::lemma_after_cat(u, text::dec(n), s);
    assert(reads(t, false, params, n, None).after(s) == reads(
        t,
        false,
        params.push(number(n)).push(number((c as int - '0' as int) as nat)),
        0,
        None,
    )) by {
        reveal(Terminal::after);
        reveal_with_fuel(Terminal::after_chars, 4);
    }
}

proof fn lemma_color(t: Terminal, params: Seq<Param>, pen: Pen, color: StyleColor, fg: bool) -> (more:
    Seq<Param>)
    requires
        params.len() > 0,
        terminal::selected(t.pen, params) == (pen, Expect::Attribute),
    ensures
        more.len() > 0,
        csi(t, params).after(
            cell::color_param(
                color,
                if fg {
                    30
                } else {
                    40
                },
            ),
        ) == csi(t, more),
        terminal::selected(t.pen, more) == (
            if color is Unset {
                pen
            } else {
                terminal::with_ink(pen, fg, ink_of(color))
            },
            Expect::Attribute,
        ),
{
    reveal(csi);
    let base: u8 = if fg {
        30
    } else {
        40
    };
    let u = csi(t, params);
    reveal_strlit(";5;");
    reveal_strlit(";2;");
    match color {
        StyleColor::Unset => {
            lemma_nothing(u);
            params
        },
        StyleColor::Palette(p) => {
            if p < 16 {
                let n: nat = if p < 8 {
                    (base + p) as nat
                } else {
                    (base + 52 + p) as nat
                };
                lemma_param(t, params, n);
                lemma_selected(t.pen, params, number(n));
                params.push(number(n))
            } else {
                let n = (base + 8) as nat;
                lemma_color_kind(t, params, n, ";5;"@, '5');
                let b = params.push(number(n)).push(number(5));
                lemma_number(t, false, b, p as nat);
                lemma_selected(t.pen, params, number(n));
                lemma_selected(t.pen, params.push(number(n)), number(5));
                lemma_selected(t.pen, b, number(p as nat));
                let s1 = text::dec(n) + ";5;"@;
                terminal::lemma_after_cat(u, ";"@, s1 + text::dec(p as nat));
                terminal::lemma_after_cat(u.after(";"@), s1, text::dec(p as nat));
                assert(b.push(number(p as nat)).drop_last() =~= b);
                b.push(number(p as nat))
            }
        },
        StyleColor::Rgb(rgb) => {
            let n = (base + 8) as nat;
            let (r, g, l) = (rgb.r as nat, rgb.g as nat, rgb.b as nat);
            lemma_color_kind(t, params, n, ";2;"@, '2');
            let b = params.push(number(n)).push(number(2));
            let c = b.push(number(r));
            let d = c.push(number(g));
            lemma_number(t, false, b, r);
            lemma_next(t, false, b, r, None);
            lemma_number(t, false, c, g);
            lemma_next(t, false, c, g, None);
            lemma_number(t, false, d, l);
            lemma_selected(t.pen, params, number(n));
            lemma_selected(t.pen, params.push(number(n)), number(2));
            lemma_selected(t.pen, b, number(r));
            lemma_selected(t.pen, c, number(g));
            lemma_selected(t.pen, d, number(l));
            let s1 = text::dec(n) + ";2;"@;
            let s2 = s1 + text::dec(r);
            let s3 = s2 + ";"@;
            let s4 = s3 + text::dec(g);
            let s5 = s4 + ";"@;
            let v = u.after(";"@);
            terminal::lemma_after_cat(u, ";"@, s5 + text::dec(l));
            terminal::lemma_after_cat(v, s5, text::dec(l));
            terminal::lemma_after_cat(v, s4, ";"@);
            terminal::lemma_after_cat(v, s3, text::dec(g));
            terminal::lemma_after_cat(v, s2, ";"@);
            terminal::lemma_after_cat(v, s1, text::dec(r));
            assert(d.push(number(l)).drop_last() =~= d);
            d.push(number(l))
        },
    }
}

/// An attribute that is on or off.
proof fn lemma_flag(t: Terminal, params: Seq<Param>, on: bool, s: Seq<char>, c: char) -> (more: Seq<
    Param,
>)
    requires
        params.len() > 0,
        s.len() == 2,
        s[0] == ';',
        s[1] == c,
        '0' <= c <= '9',
        terminal::selected(t.pen, params).1 is Attribute,
    ensures
        more.len() > 0,
        csi(t, params).after(cell::when(on, s)) == csi(t, more),
        terminal::selected(t.pen, more) == (if on {
            terminal::attribute(
                terminal::selected(t.pen, params).0,
                number((c as int - '0' as int) as nat),
            )
        } else {
            terminal::selected(t.pen, params)
        }),
{
    lemma_nothing(csi(t, params));
    if on {
        let n = (c as int - '0' as int) as nat;
        lemma_digit(t, params, s, c);
        lemma_selected(t.pen, params, number(n));
        params.push(number(n))
    } else {
        params
    }
}

proof fn lemma_underline(t: Terminal, params: Seq<Param>, pen: Pen, underline: Underline) -> (more: Seq<
    Param,
>)
    requires
        params.len() > 0,
        terminal::selected(t.pen, params) == (pen, Expect::Attribute),
        pen.underline == 0,
    ensures
        more.len() > 0,
        csi(t, params).after(cell::underline_param(underline)) == csi(t, more),
        terminal::selected(t.pen, more) == (
            Pen { underline: pen_of(Style { underline, ..Style::plain() }).underline, ..pen },
            Expect::Attribute,
        ),
{
    reveal_strlit(";4");
    reveal_strlit(";4:2");
    reveal_strlit(";4:3");
    reveal_strlit(";4:4");
    reveal_strlit(";4:5");
    lemma_nothing(csi(t, params));
    match underline {
        Underline::Off => params,
        Underline::Other => params,
        Underline::Single => {
            lemma_digit(t, params, ";4"@, '4');
            lemma_selected(t.pen, params, number(4));
            params.push(number(4))
        },
        Underline::Double => {
            lemma_kind(t, params, ";4:2"@, '2');
            lemma_selected(t.pen, params, Param { value: 4, sub: Some(2) });
            params.push(Param { value: 4, sub: Some(2) })
        },
        Underline::Curly => {
            lemma_kind(t, params, ";4:3"@, '3');
            lemma_selected(t.pen, params, Param { value: 4, sub: Some(3) });
            params.push(Param { value: 4, sub: Some(3) })
        },
        Underline::Dotted => {
            lemma_kind(t, params, ";4:4"@, '4');
            lemma_selected(t.pen, params, Param { value: 4, sub: Some(4) });
            params.push(Param { value: 4, sub: Some(4) })
        },
        Underline::Dashed => {
            lemma_kind(t, params, ";4:5"@, '5');
            lemma_selected(t.pen, params, Param { value: 4, sub: Some(5) });
            params.push(Param { value: 4, sub: Some(5) })
        },
    }
}

/// The parameters of a style, and the pen that they select.
proof fn lemma_attributes(t: Terminal, p0: Seq<Param>, style: Style) -> (p9: Seq<Param>)
    requires
        p0.len() > 0,
        terminal::selected(t.pen, p0) == (Pen::plain(), Expect::Attribute),
    ensures
        p9.len() > 0,
        csi(t, p0).after(cell::color_param(style.fg_color, 30)).after(
            cell::color_param(style.bg_color, 40),
        ).after(cell::when(style.bold, ";1"@)).after(cell::when(style.faint, ";2"@)).after(
            cell::when(style.italic, ";3"@),
        ).after(cell::underline_param(style.underline)).after(
            cell::when(style.blink, ";5"@),
        ).after(cell::when(style.inverse, ";7"@)).after(cell::when(style.strikethrough, ";9"@))
            == csi(t, p9),
        terminal::selected(t.pen, p9) == (pen_of(style), Expect::Attribute),
{
    reveal_strlit(";1");
    reveal_strlit(";2");
    reveal_strlit(";3");
    reveal_strlit(";5");
    reveal_strlit(";7");
    reveal_strlit(";9");
    let n0 = Pen::plain();
    let p1 = lemma_color(t, p0, n0, style.fg_color, true);
    let n1 = Pen { fg: ink_of(style.fg_color), ..n0 };
    let p2 = lemma_color(t, p1, n1, style.bg_color, false);
    let n2 = Pen { bg: ink_of(style.bg_color), ..n1 };
    let p3 = lemma_flag(t, p2, style.bold, ";1"@, '1');
    let n3 = Pen { bold: style.bold, ..n2 };
    assert(terminal::selected(t.pen, p3) == (n3, Expect::Attribute));
    let p4 = lemma_flag(t, p3, style.faint, ";2"@, '2');
    let n4 = Pen { faint: style.faint, ..n3 };
    assert(terminal::selected(t.pen, p4) == (n4, Expect::Attribute));
    let p5 = lemma_flag(t, p4, style.italic, ";3"@, '3');
    let n5 = Pen { italic: style.italic, ..n4 };
    assert(terminal::selected(t.pen, p5) == (n5, Expect::Attribute));
    let p6 = lemma_underline(t, p5, n5, style.underline);
    let n6 = terminal::selected(t.pen, p6).0;
    let p7 = lemma_flag(t, p6, style.blink, ";5"@, '5');
    let n7 = Pen { blink: style.blink, ..n6 };
    assert(terminal::selected(t.pen, p7) == (n7, Expect::Attribute));
    let p8 = lemma_flag(t, p7, style.inverse, ";7"@, '7');
    let n8 = Pen { inverse: style.inverse, ..n7 };
    assert(terminal::selected(t.pen, p8) == (n8, Expect::Attribute));
    lemma_flag(t, p8, style.strikethrough, ";9"@, '9')
}

proof fn lemma_eleven(
    t: Terminal,
    a: Seq<char>,
    b: Seq<char>,
    c: Seq<char>,
    d: Seq<char>,
    e: Seq<char>,
    f: Seq<char>,
    g: Seq<char>,
    h: Seq<char>,
    i: Seq<char>,
    j: Seq<char>,
    k: Seq<char>,
)
    ensures
        t.after(a + b + c + d + e + f + g + h + i + j + k) == t.after(a).after(b).after(c).after(
            d,
        ).after(e).after(f).after(g).after(h).after(i).after(j).after(k),
{
    terminal::lemma_after_cat(t, a, b);
    terminal::lemma_after_cat(t, a + b, c);
    terminal::lemma_after_cat(t, a + b + c, d);
    terminal::lemma_after_cat(t, a + b + c + d, e);
    terminal::lemma_after_cat(t, a + b + c + d + e, f);
    terminal::lemma_after_cat(t, a + b + c + d + e + f, g);
    terminal::lemma_after_cat(t, a + b + c + d + e + f + g, h);
    terminal::lemma_after_cat(t, a + b + c + d + e + f + g + h, i);
    terminal::lemma_after_cat(t, a + b + c + d + e + f + g + h + i, j);
    terminal::lemma_after_cat(t, a + b + c + d + e + f + g + h + i + j, k);
}

proof fn lemma_first_param(t: Terminal)
    requires
        t.reading is Text,
    ensures
        t.after("\x1b[0"@) == csi(t, Seq::empty().push(number(0))),
        terminal::selected(t.pen, Seq::empty().push(number(0))) == (
            Pen::plain(),
            Expect::Attribute,
        ),
{
    reveal(csi);
    reveal(Terminal::after);
    reveal_strlit("\x1b[0");
    reveal_with_fuel(Terminal::after_chars, 4);
    let none = Seq::<Param>::empty();
    assert(none.push(number(0)).drop_last() =~= none);
    lemma_selected(t.pen, none, number(0));
}

proof fn lemma_last_param(t: Terminal, params: Seq<Param>)
    requires
        t.reading is Text,
        params.len() > 0,
    ensures
        csi(t, params).after("m"@) == (Terminal {
            pen: terminal::selected(t.pen, params).0,
            ..t
        }),
{
    reveal(csi);
    reveal(Terminal::after);
    reveal_strlit("m");
    reveal_with_fuel(Terminal::after_chars, 2);
    assert(params.drop_last().push(params.last()) =~= params);
    assert(csi(t, params).after("m"@) == csi(t, params).step('m'));
}

/// After the sequence of a style a terminal writes in exactly that style,
/// whatever it wrote in before, and nothing else about it has changed.
pub proof fn style_is_selected(t: Terminal, style: Style)
    requires
        t.reading is Text,
    ensures
        t.after(cell::style_seq(style)) == (Terminal { pen: pen_of(style), ..t }),
{
    lemma_first_param(t);
    let p9 = lemma_attributes(t, Seq::empty().push(number(0)), style);
    lemma_last_param(t, p9);
    lemma_eleven(
        t,
        "\x1b[0"@,
        cell::color_param(style.fg_color, 30),
        cell::color_param(style.bg_color, 40),
        cell::when(style.bold, ";1"@),
        cell::when(style.faint, ";2"@),
        cell::when(style.italic, ";3"@),
        cell::underline_param(style.underline),
        cell::when(style.blink, ";5"@),
        cell::when(style.inverse, ";7"@),
        cell::when(style.strikethrough, ";9"@),
        "m"@,
    );
}

/// Whether a cell leaves no trace in its row: it fills up a wide character, or
/// is not to be had.
pub open spec fn passed_over(c: Cell) -> bool {
    c.wide == Some(CellWide::SpacerTail) || c.wide == Some(CellWide::SpacerHead) || c.grid is None
}

/// Whether a cell is known to show something: text, a style or a background.
pub open spec fn has_ink(c: Cell) -> bool {
    &&& !passed_over(c)
    &&& c.has_text == Some(true) || c.has_styling == Some(true) || c.content_tag == Some(
        CellContentTag::BgColorPalette,
    ) || c.content_tag == Some(CellContentTag::BgColorRgb)
}

/// The pen of a cell: that of its style, or its background alone.
pub open spec fn cell_pen(c: Cell) -> Pen {
    match c.content_tag {
        Some(CellContentTag::BgColorPalette) => Pen {
            bg: match c.bg_color_palette {
                Some(index) => Ink::Indexed(index as nat),
                None => Ink::Normal,
            },
            ..Pen::plain()
        },
        Some(CellContentTag::BgColorRgb) => Pen {
            bg: match c.bg_color_rgb {
                Some(rgb) => Ink::Direct(rgb.r as nat, rgb.g as nat, rgb.b as nat),
                None => Ink::Normal,
            },
            ..Pen::plain()
        },
        Some(_) => if c.has_styling == Some(true) && c.grid is Some && c.grid->0.style is Some {
            pen_of(c.grid->0.style->0)
        } else {
            Pen::plain()
        },
        None => Pen::plain(),
    }
}

/// A text in one pen.
pub open spec fn written_in(s: Seq<char>, pen: Pen) -> Seq<Glyph> {
    Seq::new(s.len(), |i: int| Glyph { code: s[i] as int, pen })
}

/// The pen of the last cell with ink among the first `n`.
pub open spec fn pen_before(cells: Seq<Cell>, n: int) -> Pen
    decreases n,
{
    if n <= 0 {
        Pen::plain()
    } else if has_ink(cells[n - 1]) {
        cell_pen(cells[n - 1])
    } else {
        pen_before(cells, n - 1)
    }
}

/// The first `n` cells, side by side: the texts of those with ink, each in its
/// pen, and a blank for each of the others.
pub open spec fn side_by_side(cells: Seq<Cell>, n: int) -> Seq<Glyph>
    decreases n,
{
    if n <= 0 {
        Seq::empty()
    } else if passed_over(cells[n - 1]) {
        side_by_side(cells, n - 1)
    } else if has_ink(cells[n - 1]) {
        side_by_side(cells, n - 1) + written_in(
            cells[n - 1].grid->0.text@,
            cell_pen(cells[n - 1]),
        )
    } else {
        side_by_side(cells, n - 1) + written_in(seq![' '], pen_before(cells, n - 1))
    }
}

/// One more than the last cell with ink among the first `n`.
pub open spec fn ink_end(cells: Seq<Cell>, n: int) -> int
    decreases n,
{
    if n <= 0 {
        0
    } else if has_ink(cells[n - 1]) {
        n
    } else {
        ink_end(cells, n - 1)
    }
}

/// What a row of cells shows: its cells side by side, up to the last with ink.
pub open spec fn shown(cells: Seq<Cell>) -> Seq<Glyph> {
    side_by_side(cells, ink_end(cells, cells.len() as int))
}

/// Whether a text holds no control characters.
pub open spec fn printable(s: Seq<char>) -> bool {
    forall|i: int| 0 <= i < s.len() ==> #[trigger] s[i] != '\x1b' && s[i] != '\n'
}

/// Whether a row can be shown in so many columns, one for each character.
pub open spec fn showable(cells: Seq<Cell>, cols: int) -> bool {
    &&& shown(cells).len() <= cols
    &&& forall|i: int|
        0 <= i < cells.len() && (#[trigger] cells[i]).grid is Some ==> printable(
            cells[i].grid->0.text@,
        )
}

proof fn lemma_print_chars(t: Terminal, s: Seq<char>, n: int)
    requires
        t.reading is Text,
        printable(s),
        0 <= t.row < t.lines.len(),
        t.col == t.lines[t.row].len(),
        t.col + s.len() <= t.cols,
        0 <= n <= s.len(),
    ensures
        t.after_chars(s, n) == (Terminal {
            lines: t.lines.update(t.row, t.lines[t.row] + written_in(s.take(n), t.pen)),
            col: t.col + n,
            ..t
        }),
    decreases n,
{
    let line = t.lines[t.row];
    if n > 0 {
        lemma_print_chars(t, s, n - 1);
        let u = t.after_chars(s, n - 1);
        let before = line + written_in(s.take(n - 1), t.pen);
        let glyph = Glyph { code: s[n - 1] as int, pen: t.pen };
        assert(before.len() == t.col + n - 1);
        assert(terminal::put(before, u.col, glyph) =~= before.push(glyph));
        assert(before.push(glyph) =~= line + written_in(s.take(n), t.pen));
        assert(u.lines[t.row] == before);
        assert(u.step(s[n - 1]) == u.print(s[n - 1]));
        assert(u.lines.update(t.row, before.push(glyph)) =~= t.lines.update(
            t.row,
            before.push(glyph),
        ));
    } else {
        assert(line + written_in(s.take(0), t.pen) =~= line);
        assert(t.lines.update(t.row, line) =~= t.lines);
    }
}

proof fn lemma_print(t: Terminal, s: Seq<char>)
    requires
        t.reading is Text,
        printable(s),
        0 <= t.row < t.lines.len(),
        t.col == t.lines[t.row].len(),
        t.col + s.len() <= t.cols,
    ensures
        t.after(s) == (Terminal {
            lines: t.lines.update(t.row, t.lines[t.row] + written_in(s, t.pen)),
            col: t.col + s.len(),
            ..t
        }),
{
    reveal(Terminal::after);
    lemma_print_chars(t, s, s.len() as int);
    assert(s.take(s.len() as int) =~= s);
}

proof fn lemma_side_grows(cells: Seq<Cell>, m: int, n: int)
    requires
        m <= n,
    ensures
        side_by_side(cells, m).len() <= side_by_side(cells, n).len(),
        ink_end(cells, m) <= ink_end(cells, n),
        ink_end(cells, n) <= n || n < 0,
    decreases n - m, (if n > 0 { n } else { 0 }),
{
    if m < n {
        lemma_side_grows(cells, m, n - 1);
    } else if n > 0 {
        lemma_side_grows(cells, m - 1, n - 1);
    }
}

proof fn lemma_change(t: Terminal, from: Style, to: Style)
    requires
        t.reading is Text,
        t.pen == pen_of(from),
    ensures
        t.after(cell::style_change(from, to)) == (Terminal { pen: pen_of(to), ..t }),
{
    lemma_nothing(t);
    lemma_plain(t);
    style_is_selected(t, to);
}

/// The terminal after the first `n` cells of a row.
spec fn with_cells(t: Terminal, cells: Seq<Cell>, n: int) -> Terminal {
    let glyphs = side_by_side(cells, ink_end(cells, n));
    Terminal {
        lines: t.lines.update(t.row, glyphs),
        col: glyphs.len() as int,
        pen: pen_before(cells, n),
        ..t
    }
}

proof fn lemma_row_prefix(t: Terminal, cells: Seq<Cell>, n: int)
    requires
        t.reading is Text,
        t.pen == Pen::plain(),
        t.col == 0,
        0 <= t.row < t.lines.len(),
        t.lines[t.row].len() == 0,
        0 <= n <= cells.len(),
        showable(cells, t.cols),
    ensures
        t.after(cell::row_prefix(cells, n).text) == with_cells(t, cells, n),
        pen_of(cell::row_prefix(cells, n).style) == pen_before(cells, n),
        side_by_side(cells, n) == side_by_side(cells, ink_end(cells, n)) + written_in(
            text::run(' ', cell::row_prefix(cells, n).pending),
            pen_before(cells, n),
        ),
    decreases n,
{
    if n > 0 {
        lemma_row_prefix(t, cells, n - 1);
        let row = cell::row_prefix(cells, n - 1);
        let c = cells[n - 1];
        let pen = pen_before(cells, n - 1);
        let before = side_by_side(cells, ink_end(cells, n - 1));
        if passed_over(c) {
        } else if !has_ink(c) {
            assert(text::run(' ', row.pending + 1) =~= text::run(' ', row.pending) + seq![' ']);
            assert(written_in(text::run(' ', row.pending + 1), pen) =~= written_in(
                text::run(' ', row.pending),
                pen,
            ) + written_in(seq![' '], pen));
            assert(side_by_side(cells, n) =~= before + written_in(
                text::run(' ', row.pending + 1),
                pen,
            ));
        } else {
            let blanks = text::run(' ', row.pending);
            let change = cell::style_change(row.style, c.drawn_style());
            let s = c.grid->0.text@;
            let all = cells.len() as int;
            lemma_side_grows(cells, n, all);
            lemma_side_grows(cells, n, ink_end(cells, all));
            let u = t.after(row.text);
            terminal::lemma_after_cat(t, row.text, blanks);
            lemma_print(u, blanks);
            let v = u.after(blanks);
            assert(v.lines[v.row] == side_by_side(cells, n - 1));
            terminal::lemma_after_cat(t, row.text + blanks, change);
            lemma_change(v, row.style, c.drawn_style());
            let w = v.after(change);
            assert(pen_of(c.drawn_style()) == cell_pen(c));
            terminal::lemma_after_cat(t, row.text + blanks + change, s);
            lemma_print(w, s);
            assert(w.after(s).lines =~= t.lines.update(t.row, side_by_side(cells, n)));
            assert(text::run(' ', 0) =~= Seq::empty());
            assert(side_by_side(cells, n) =~= side_by_side(cells, n) + written_in(
                text::run(' ', 0),
                cell_pen(c),
            ));
        }
    } else {
        lemma_nothing(t);
        assert(t.lines[t.row] =~= Seq::empty());
        assert(t.lines.update(t.row, Seq::empty()) =~= t.lines);
        assert(written_in(text::run(' ', 0), Pen::plain()) =~= Seq::empty());
        assert(Seq::<Glyph>::empty() + Seq::<Glyph>::empty() =~= Seq::empty());
    }
}

/// A row of cells, written into a blank line of a terminal, shows there what
/// the cells show, and leaves the pen plain.
pub proof fn row_is_shown(t: Terminal, cells: Seq<Cell>)
    requires
        t.reading is Text,
        t.pen == Pen::plain(),
        t.col == 0,
        0 <= t.row < t.lines.len(),
        t.lines[t.row].len() == 0,
        showable(cells, t.cols),
    ensures
        t.after(cell::row_text(cells)) == (Terminal {
            lines: t.lines.update(t.row, shown(cells)),
            col: shown(cells).len() as int,
            ..t
        }),
{
    let row = cell::row_prefix(cells, cells.len() as int);
    lemma_row_prefix(t, cells, cells.len() as int);
    let u = t.after(row.text);
    terminal::lemma_after_cat(t, row.text, cell::when(row.style != Style::plain(), "\x1b[0m"@));
    lemma_nothing(u);
    lemma_plain(u);
}

/// A terminal whose line is full, with the cursor where the next character
/// will be.
pub open spec fn wrapped(t: Terminal) -> Terminal {
    Terminal { row: t.row + 1, col: 0, ..t }
}

proof fn lemma_same_start(t: Terminal, u: Terminal, s: Seq<char>, n: int)
    requires
        0 < n <= s.len(),
        t.step(s[0]) == u.step(s[0]),
    ensures
        t.after_chars(s, n) == u.after_chars(s, n),
    decreases n,
{
    reveal_with_fuel(Terminal::after_chars, 2);
    if n > 1 {
        lemma_same_start(t, u, s, n - 1);
    }
}

proof fn lemma_wraps(t: Terminal, s: Seq<char>)
    requires
        t.reading is Text,
        printable(s),
        s.len() > 0,
        0 < t.cols <= t.col,
        t.row + 1 != t.bottom,
    ensures
        t.after(s) == wrapped(t).after(s),
{
    reveal(Terminal::after);
    assert(t.step(s[0]) == t.print(s[0]));
    assert(wrapped(t).step(s[0]) == wrapped(t).print(s[0]));
    lemma_same_start(t, wrapped(t), s, s.len() as int);
}

/// How a row is written from the end of a full line: nothing moves until its
/// first character.
proof fn lemma_row_prefix_wrapped(t: Terminal, cells: Seq<Cell>, n: int)
    requires
        t.reading is Text,
        t.pen == Pen::plain(),
        0 < t.cols <= t.col,
        t.row + 1 != t.bottom,
        0 <= t.row + 1 < t.lines.len(),
        t.lines[t.row + 1].len() == 0,
        0 <= n <= cells.len(),
        showable(cells, t.cols),
    ensures
        ({
            let a = t.after(cell::row_prefix(cells, n).text);
            let b = wrapped(t).after(cell::row_prefix(cells, n).text);
            if side_by_side(cells, ink_end(cells, n)).len() == 0 {
                a == (Terminal { pen: pen_before(cells, n), ..t }) && b == wrapped(a)
            } else {
                a == b
            }
        }),
    decreases n,
{
    let u = wrapped(t);
    lemma_row_prefix(u, cells, n);
    if n > 0 {
        lemma_row_prefix_wrapped(t, cells, n - 1);
        lemma_row_prefix(u, cells, n - 1);
        let row = cell::row_prefix(cells, n - 1);
        let c = cells[n - 1];
        if !passed_over(c) && has_ink(c) {
            let blanks = text::run(' ', row.pending);
            let change = cell::style_change(row.style, c.drawn_style());
            let s = c.grid->0.text@;
            terminal::lemma_after_cat(t, row.text, blanks);
            terminal::lemma_after_cat(t, row.text + blanks, change);
            terminal::lemma_after_cat(t, row.text + blanks + change, s);
            terminal::lemma_after_cat(u, row.text, blanks);
            terminal::lemma_after_cat(u, row.text + blanks, change);
            terminal::lemma_after_cat(u, row.text + blanks + change, s);
            let a = t.after(row.text);
            let b = u.after(row.text);
            if side_by_side(cells, ink_end(cells, n - 1)).len() == 0 {
                if row.pending > 0 {
                    lemma_wraps(a, blanks);
                    assert(side_by_side(cells, n - 1).len() > 0);
                } else {
                    assert(blanks =~= Seq::empty());
                    lemma_nothing(a);
                    lemma_nothing(b);
                    assert(side_by_side(cells, n - 1).len() == 0);
                    lemma_change(a, row.style, c.drawn_style());
                    lemma_change(b, row.style, c.drawn_style());
                    let a2 = a.after(change);
                    if s.len() > 0 {
                        lemma_wraps(a2, s);
                    } else {
                        assert(s =~= Seq::empty());
                        lemma_nothing(a2);
                        lemma_nothing(wrapped(a2));
                        assert(pen_of(c.drawn_style()) == cell_pen(c));
                    }
                }
            }
        }
    } else {
        lemma_nothing(t);
        lemma_nothing(u);
    }
}

/// A row written from the end of a full line shows in the next line.
pub proof fn wrapped_row_is_shown(t: Terminal, cells: Seq<Cell>)
    requires
        t.reading is Text,
        t.pen == Pen::plain(),
        0 < t.cols <= t.col,
        t.row + 1 != t.bottom,
        0 <= t.row + 1 < t.lines.len(),
        t.lines[t.row + 1].len() == 0,
        showable(cells, t.cols),
    ensures
        ({
            let u = t.after(cell::row_text(cells));
            &&& u == (Terminal {
                lines: t.lines.update(t.row + 1, shown(cells)),
                row: u.row,
                col: u.col,
                ..t
            })
            &&& shown(cells).len() > 0 ==> u.row == t.row + 1 && u.col == shown(cells).len()
        }),
{
    let n = cells.len() as int;
    let row = cell::row_prefix(cells, n);
    let rest = cell::when(row.style != Style::plain(), "\x1b[0m"@);
    lemma_row_prefix_wrapped(t, cells, n);
    lemma_row_prefix(wrapped(t), cells, n);
    row_is_shown(wrapped(t), cells);
    terminal::lemma_after_cat(t, row.text, rest);
    terminal::lemma_after_cat(wrapped(t), row.text, rest);
    let a = t.after(row.text);
    lemma_nothing(a);
    lemma_plain(a);
    if shown(cells).len() == 0 {
        assert(shown(cells) =~= t.lines[t.row + 1]);
        assert(t.lines.update(t.row + 1, shown(cells)) =~= t.lines);
    }
}

} // verus!
