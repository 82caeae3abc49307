//! The terminal mirrors the emulator: what it shows after the frames of a
//! session, and what it has in its scrollback.

use vstd::prelude::*;

use crate::ansi;
use crate::batch::BatchState;
use crate::cell;
use crate::cell::{Cell, CellContentTag};
use crate::event_loop::{LoopState, Purpose};
use crate::frame;
use crate::perf::Perf;
use crate::renderer;
use crate::renderer::{CursorState, RendererState, RowFate, Screen, Scrollback};
use crate::session;
use crate::session::{EscapeState, ShellSession};
use crate::shown;
use crate::terminal;
use crate::terminal::{Glyph, Pen, Reading, Terminal};
use crate::text;

verus! {

/// Whether a terminal is ready for a frame.
pub open spec fn ready(t: Terminal) -> bool {
    t.reading is Text && t.pen == Pen::plain()
}

/// Whether row `i` of the screen has a place in the terminal, above the rows
/// that are not to be drawn into.
pub open spec fn in_view(r: RendererState, screen: Screen, i: int) -> bool {
    0 <= i < screen.rows && i + r.row_offset < r.content_rows
}

/// Whether the frame has reason to look at row `i`: it looks at all of them, or
/// nothing says that the row did not change.
pub open spec fn suspect(r: RendererState, legacy: bool, screen: Screen, i: int) -> bool {
    r.force_full || legacy || i >= screen.dirty@.len() || screen.dirty@[i] != Some(false)
}

/// Whether the identities are those of the cells.
pub open spec fn identifies(ids: Seq<u64>, cells: Seq<Cell>) -> bool {
    &&& ids.len() == cells.len()
    &&& forall|j: int| 0 <= j < ids.len() ==> #[trigger] ids[j] == cells[j].id
}

/// Whether every cell is known to show nothing.
pub open spec fn nothing_in(cells: Seq<Cell>) -> bool {
    forall|j: int|
        0 <= j < cells.len() ==> {
            let c = #[trigger] cells[j];
            &&& c.has_text == Some(false)
            &&& c.has_styling == Some(false)
            &&& c.content_tag is Some
            &&& c.content_tag != Some(CellContentTag::BgColorPalette)
            &&& c.content_tag != Some(CellContentTag::BgColorRgb)
        }
}

/// Whether the terminal shows row `i` of the screen, below `offset` rows.
pub open spec fn shows_row(t: Terminal, screen: Screen, offset: int, i: int) -> bool {
    t.lines[i + offset] == shown::shown(screen.line(i))
}

/// What the renderer remembers is true: a row of which it remembers the cells is
/// shown already, and after a clear a row is blank in the terminal.
pub open spec fn memory_is_true(t: Terminal, r: RendererState, screen: Screen) -> bool {
    &&& forall|i: int|
        #![trigger screen.line(i)]
        in_view(r, screen, i) && i < r.lines.len() && screen.line(i).len() > 0 && identifies(
            r.lines[i],
            screen.line(i),
        ) ==> shows_row(t, screen, r.row_offset as int, i)
    &&& r.cleared ==> forall|i: int|
        in_view(r, screen, i) ==> (#[trigger] t.lines[i + r.row_offset]).len() == 0
}

/// The marks are true: a row that the frame has no reason to look at is shown
/// already.
pub open spec fn marks_are_true(t: Terminal, r: RendererState, legacy: bool, screen: Screen) -> bool {
    forall|i: int|
        #![trigger screen.line(i)]
        in_view(r, screen, i) && !suspect(r, legacy, screen, i) ==> shows_row(
            t,
            screen,
            r.row_offset as int,
            i,
        )
}

/// The rows of the screen that have a place in the terminal can be shown there.
pub open spec fn fits(t: Terminal, r: RendererState, screen: Screen) -> bool {
    &&& r.content_rows <= t.lines.len()
    &&& forall|i: int|
        #![trigger screen.line(i)]
        in_view(r, screen, i) ==> screen.line(i).len() > 0 && shown::showable(
            screen.line(i),
            t.cols,
        )
}

/// The terminal shows the screen, below `offset` rows.
pub open spec fn mirrors(t: Terminal, r: RendererState, screen: Screen) -> bool {
    forall|i: int|
        #![trigger screen.line(i)]
        in_view(r, screen, i) ==> shows_row(t, screen, r.row_offset as int, i)
}

proof fn lemma_row(t: Terminal, r: RendererState, screen: Screen, i: int)
    requires
        ready(t),
        0 <= i,
        i + r.row_offset < t.lines.len(),
        shown::showable(screen.line(i), t.cols),
    ensures
        t.after(r.row_seq(screen, i)) == (Terminal {
            lines: t.lines.update(i + r.row_offset, shown::shown(screen.line(i))),
            row: i + r.row_offset,
            col: shown::shown(screen.line(i)).len() as int,
            ..t
        }),
{
    let k = i + r.row_offset;
    let a = ansi::move_to_seq(0, k as nat);
    let b = ansi::erase_seq(ansi::Erase::Line);
    let c = cell::row_text(screen.line(i));
    let d = ansi::reset_color_seq();
    terminal::lemma_after_cat(t, a, b);
    terminal::lemma_after_cat(t, a + b, c);
    terminal::lemma_after_cat(t, a + b + c, d);
    shown::lemma_move(t, 0, k as nat);
    let t1 = t.after(a);
    shown::lemma_erase_line(t1);
    let t2 = t1.after(b);
    assert(t2.lines[k] =~= Seq::empty());
    shown::row_is_shown(t2, screen.line(i));
    let t3 = t2.after(c);
    assert(t3.lines =~= t.lines.update(k, shown::shown(screen.line(i))));
    shown::lemma_plain(t3);
}

proof fn lemma_rows(t: Terminal, r: RendererState, legacy: bool, screen: Screen, n: int)
    requires
        ready(t),
        0 <= n <= r.limit(screen),
        fits(t, r, screen),
    ensures
        ({
            let u = t.after(r.rows_seq(legacy, screen, n));
            &&& u == (Terminal { lines: u.lines, row: u.row, col: u.col, ..t })
            &&& u.lines.len() == t.lines.len()
            &&& forall|k: int|
                0 <= k < t.lines.len() ==> #[trigger] u.lines[k] == (if 0 <= k - r.row_offset < n
                    && r.fate(legacy, screen, k - r.row_offset) == RowFate::Redrawn {
                    shown::shown(screen.line(k - r.row_offset))
                } else {
                    t.lines[k]
                })
        }),
    decreases n,
{
    if n > 0 {
        lemma_rows(t, r, legacy, screen, n - 1);
        if r.fate(legacy, screen, n - 1) == RowFate::Redrawn {
            assert(in_view(r, screen, n - 1));
            assert(shown::showable(screen.line(n - 1), t.cols));
            let u = t.after(r.rows_seq(legacy, screen, n - 1));
            lemma_row(u, r, screen, n - 1);
            terminal::lemma_after_cat(
                t,
                r.rows_seq(legacy, screen, n - 1),
                r.row_seq(screen, n - 1),
            );
        }
    } else {
        shown::lemma_nothing(t);
    }
}

/// The terminal's row of the cursor.
pub open spec fn at(t: Terminal, cursor: CursorState, offset: int) -> bool {
    t.row == cursor.row + offset && t.col == cursor.col
}

proof fn lemma_cursor(t: Terminal, from: CursorState, to: CursorState, offset: u16)
    requires
        t.reading is Text,
        to.row + offset < 0x1_0000,
        t.visible == from.visible,
    ensures
        ({
            let u = t.after(renderer::cursor_update_seq(from, to, offset));
            &&& u == (Terminal { row: u.row, col: u.col, visible: to.visible, ..t })
            &&& to != from ==> at(u, to, offset as int)
            &&& to == from ==> u == t
        }),
{
    shown::lemma_nothing(t);
    shown::lemma_modes(t);
    let place = renderer::place_seq(to, offset);
    terminal::lemma_after_cat(t, ansi::show_cursor_seq(), place);
    terminal::lemma_after_cat(t, ansi::hide_cursor_seq(), place);
    shown::lemma_move(t, to.col as nat, (to.row + offset) as nat);
    shown::lemma_move(
        t.after(ansi::show_cursor_seq()),
        to.col as nat,
        (to.row + offset) as nat,
    );
    shown::lemma_move(
        t.after(ansi::hide_cursor_seq()),
        to.col as nat,
        (to.row + offset) as nat,
    );
}

/// After a frame the terminal shows what the emulator shows, in every row that
/// has a place in it, provided that what the renderer remembers and what the
/// marks say is true. Nothing else of the terminal changes but its cursor, which
/// is shown or hidden as the emulator's is, and is where that is if it moved.
pub proof fn frame_mirrors_the_screen(t: Terminal, r: RendererState, legacy: bool, screen: Screen)
    requires
        ready(t),
        fits(t, r, screen),
        memory_is_true(t, r, screen),
        marks_are_true(t, r, legacy, screen),
        screen.cursor.row + r.row_offset < 0x1_0000,
        t.visible == r.cursor.visible,
    ensures
        ({
            let u = t.after(r.frame_seq(legacy, screen));
            &&& mirrors(u, r, screen)
            &&& u.lines.len() == t.lines.len()
            &&& forall|k: int|
                0 <= k < t.lines.len() && !in_view(r, screen, k - r.row_offset)
                    ==> #[trigger] u.lines[k] == t.lines[k]
            &&& u == (Terminal {
                lines: u.lines,
                row: u.row,
                col: u.col,
                visible: screen.cursor.visible,
                ..t
            })
            &&& screen.cursor != r.cursor ==> at(u, screen.cursor, r.row_offset as int)
        }),
{
    let n = r.limit(screen) as int;
    lemma_rows(t, r, legacy, screen, n);
    let rows = r.rows_seq(legacy, screen, n);
    let u = t.after(rows);
    lemma_cursor(u, r.cursor, screen.cursor, r.row_offset);
    let cursor = renderer::cursor_update_seq(r.cursor, screen.cursor, r.row_offset);
    terminal::lemma_after_cat(t, rows, cursor);
    assert forall|i: int|
        #![trigger screen.line(i)]
        in_view(r, screen, i) implies shows_row(u, screen, r.row_offset as int, i) by {
        assert(0 <= i < n);
        let k = i + r.row_offset;
        assert(u.lines[k] == (if r.fate(legacy, screen, i) == RowFate::Redrawn {
            shown::shown(screen.line(i))
        } else {
            t.lines[k]
        }));
        if r.fate(legacy, screen, i) != RowFate::Redrawn {
            lemma_fate(t, r, legacy, screen, i);
        }
    }
}

/// A row that is not drawn is shown already.
proof fn lemma_fate(t: Terminal, r: RendererState, legacy: bool, screen: Screen, i: int)
    requires
        in_view(r, screen, i),
        fits(t, r, screen),
        memory_is_true(t, r, screen),
        marks_are_true(t, r, legacy, screen),
        r.fate(legacy, screen, i) != RowFate::Redrawn,
    ensures
        shows_row(t, screen, r.row_offset as int, i),
{
    let cells = screen.line(i);
    assert(shown::showable(cells, t.cols));
    if !suspect(r, legacy, screen, i) {
    } else if r.cleared && cell::blank_row(cells) {
        assert(nothing_in(cells)) by {
            assert forall|j: int| 0 <= j < cells.len() implies (#[trigger] cells[j]).is_blank() by {}
        }
        lemma_blank_shown(cells, cells.len() as int);
        assert(t.lines[i + r.row_offset].len() == 0);
        assert(shown::shown(cells) =~= t.lines[i + r.row_offset]);
    } else {
        assert(identifies(r.lines[i], cells)) by {
            let ids = cell::row_ids(cells);
            assert(ids == r.lines[i]);
            assert forall|j: int| 0 <= j < ids.len() implies #[trigger] ids[j] == cells[j].id by {}
        }
    }
}

proof fn lemma_blank_shown(cells: Seq<Cell>, n: int)
    requires
        nothing_in(cells),
        0 <= n <= cells.len(),
    ensures
        shown::ink_end(cells, n) == 0,
    decreases n,
{
    if n > 0 {
        lemma_blank_shown(cells, n - 1);
        assert(!shown::has_ink(cells[n - 1]));
    }
}

/// Whether cells with the same identities show the same, row by row.
pub open spec fn alike(a: Screen, b: Screen) -> bool {
    forall|i: int, ids: Seq<u64>|
        #![trigger identifies(ids, a.line(i)), identifies(ids, b.line(i))]
        identifies(ids, a.line(i)) && identifies(ids, b.line(i)) ==> shown::shown(a.line(i))
            == shown::shown(b.line(i))
}

/// What the renderer remembers stays true from frame to frame.
pub proof fn memory_stays_true(
    t: Terminal,
    r: RendererState,
    legacy: bool,
    screen: Screen,
    next: Screen,
)
    requires
        ready(t),
        fits(t, r, screen),
        memory_is_true(t, r, screen),
        memory_is_true(t, r, next),
        marks_are_true(t, r, legacy, screen),
        screen.cursor.row + r.row_offset < 0x1_0000,
        t.visible == r.cursor.visible,
        alike(screen, next),
    ensures
        memory_is_true(
            t.after(r.frame_seq(legacy, screen)),
            r.after_frame(legacy, screen),
            next,
        ),
        t.after(r.frame_seq(legacy, screen)).visible == r.after_frame(
            legacy,
            screen,
        ).cursor.visible,
{
    let u = t.after(r.frame_seq(legacy, screen));
    let s = r.after_frame(legacy, screen);
    let n = r.limit(screen) as int;
    frame_mirrors_the_screen(t, r, legacy, screen);
    lemma_rows(t, r, legacy, screen, n);
    lemma_cursor(
        t.after(r.rows_seq(legacy, screen, n)),
        r.cursor,
        screen.cursor,
        r.row_offset,
    );
    terminal::lemma_after_cat(
        t,
        r.rows_seq(legacy, screen, n),
        renderer::cursor_update_seq(r.cursor, screen.cursor, r.row_offset),
    );
    renderer::lemma_counts(r, legacy, screen, n);
    assert forall|i: int|
        #![trigger next.line(i)]
        in_view(s, next, i) && i < s.lines.len() && next.line(i).len() > 0 && identifies(
            s.lines[i],
            next.line(i),
        ) implies shows_row(u, next, s.row_offset as int, i) by {
        let k = i + r.row_offset;
        if i < n && r.kept(legacy, screen, i) {
            assert(in_view(r, screen, i));
            assert(shows_row(u, screen, r.row_offset as int, i)) by {
                assert(screen.line(i) == screen.line(i));
            }
            let ids = cell::row_ids(screen.line(i));
            assert(s.lines[i] == ids);
            assert(identifies(ids, screen.line(i))) by {
                let cells = screen.line(i);
                assert forall|j: int| 0 <= j < ids.len() implies #[trigger] ids[j] == cells[j].id by {}
            }
        } else {
            assert(i < r.lines.len()) by {
                if i >= r.lines.len() {
                    assert(s.lines[i] == Seq::<u64>::empty());
                }
            }
            assert(s.lines[i] == r.lines[i]);
            assert(u.lines[k] == t.lines[k]);
            assert(in_view(r, next, i));
            assert(shows_row(t, next, r.row_offset as int, i));
        }
    }
}

/// Clearing the terminal blanks every row of it, and what the renderer remembers
/// then is true of any screen.
pub proof fn clear_blanks_the_terminal(t: Terminal, r: RendererState, screen: Screen)
    requires
        ready(t),
        r.content_rows <= t.lines.len(),
    ensures
        ({
            let u = t.after(renderer::native_clear_seq());
            &&& u == (Terminal {
                lines: Seq::new(t.lines.len(), |i: int| Seq::<Glyph>::empty()),
                row: 0,
                col: 0,
                ..t
            })
            &&& memory_is_true(u, r.after_clear(), screen)
            &&& r.after_clear().cursor == (CursorState {
                col: 0,
                row: 0,
                visible: r.cursor.visible,
            })
        }),
{
    terminal::lemma_after_cat(
        t,
        ansi::erase_seq(ansi::Erase::Screen),
        ansi::move_to_seq(0, 0),
    );
    shown::lemma_erase_screen(t);
    shown::lemma_move(t.after(ansi::erase_seq(ansi::Erase::Screen)), 0, 0);
    let u = t.after(renderer::native_clear_seq());
    assert(u.lines =~= Seq::new(t.lines.len(), |i: int| Seq::<Glyph>::empty()));
}

/// The lines after the first `bottom` were scrolled by `n`.
pub open spec fn moved_up(lines: Seq<Seq<Glyph>>, bottom: int, n: int) -> Seq<Seq<Glyph>> {
    Seq::new(
        lines.len(),
        |i: int|
            if i < bottom - n {
                lines[i + n]
            } else if i < bottom {
                Seq::empty()
            } else {
                lines[i]
            },
    )
}

proof fn lemma_feeds(t: Terminal, n: int)
    requires
        t.reading is Text,
        t.top == 0,
        0 <= n <= t.bottom <= t.lines.len(),
        t.row == t.bottom - 1,
    ensures
        t.after(text::run('\n', n as nat)) == (Terminal {
            above: t.above + t.lines.take(n),
            lines: moved_up(t.lines, t.bottom, n),
            ..t
        }),
    decreases n,
{
    if n > 0 {
        lemma_feeds(t, n - 1);
        let s = text::run('\n', (n - 1) as nat);
        shown::lemma_after_push(t, s, '\n');
        assert(s.push('\n') =~= text::run('\n', n as nat));
        let u = t.after(s);
        assert(u.step('\n') == u.scrolled());
        assert(u.lines[0] == t.lines[n - 1]);
        assert(u.above.push(t.lines[n - 1]) =~= t.above + t.lines.take(n));
        assert(u.scrolled().lines =~= moved_up(t.lines, t.bottom, n));
    } else {
        shown::lemma_nothing(t);
        assert(text::run('\n', 0) =~= Seq::empty());
        assert(t.above + t.lines.take(0) =~= t.above);
        assert(moved_up(t.lines, t.bottom, 0) =~= t.lines);
    }
}

/// Scrolling the terminal moves its first rows into its scrollback, oldest
/// first, and leaves the rows below `content_rows` alone.
pub proof fn scrolling_keeps_the_rows(t: Terminal, content_rows: u16, count: nat)
    requires
        ready(t),
        count <= content_rows <= t.lines.len(),
    ensures
        ({
            let u = t.after(renderer::scroll_seq(content_rows, count));
            &&& count == 0 ==> u == t
            &&& count > 0 ==> u == (Terminal {
                above: t.above + t.lines.take(count as int),
                lines: moved_up(t.lines, content_rows as int, count as int),
                row: 0,
                col: 0,
                top: 0,
                bottom: t.lines.len() as int,
                ..t
            })
        }),
{
    if count == 0 {
        shown::lemma_nothing(t);
    } else {
        let a = ansi::scroll_region_seq(1, content_rows as nat);
        let b = ansi::move_to_seq(0, (content_rows - 1) as nat);
        let c = text::run('\n', count);
        let d = ansi::reset_scroll_region_seq();
        terminal::lemma_after_cat(t, a, b);
        terminal::lemma_after_cat(t, a + b, c);
        terminal::lemma_after_cat(t, a + b + c, d);
        shown::lemma_region(t, content_rows as nat);
        let t1 = t.after(a);
        shown::lemma_move(t1, 0, (content_rows - 1) as nat);
        let t2 = t1.after(b);
        lemma_feeds(t2, count as int);
        let t3 = t2.after(c);
        shown::lemma_region_reset(t3);
    }
}

proof fn lemma_blanked(t: Terminal, n: int)
    requires
        ready(t),
        0 <= n <= t.lines.len(),
    ensures
        ({
            let u = t.after(renderer::blank_rows_seq(n));
            &&& u == (Terminal { lines: u.lines, row: u.row, col: u.col, ..t })
            &&& u.lines.len() == t.lines.len()
            &&& forall|k: int|
                0 <= k < t.lines.len() ==> #[trigger] u.lines[k] == (if k < n {
                    Seq::empty()
                } else {
                    t.lines[k]
                })
        }),
    decreases n,
{
    if n > 0 {
        lemma_blanked(t, n - 1);
        let rows = renderer::blank_rows_seq(n - 1);
        let a = ansi::move_to_seq(0, (n - 1) as nat);
        let b = ansi::erase_seq(ansi::Erase::Line);
        let u = t.after(rows);
        terminal::lemma_after_cat(t, rows, a);
        terminal::lemma_after_cat(t, rows + a, b);
        shown::lemma_move(u, 0, (n - 1) as nat);
        shown::lemma_erase_line(u.after(a));
    } else {
        shown::lemma_nothing(t);
    }
}

/// Scrollback lines `from` to `to` can be shown in the terminal. One that is
/// known to go on in the next line fills its own.
pub open spec fn history_fits(t: Terminal, scrollback: Scrollback, from: int, to: int) -> bool {
    &&& 0 < t.cols
    &&& forall|y: int|
        #![trigger scrollback.line(y)]
        from <= y < to ==> {
            &&& shown::showable(scrollback.line(y), t.cols)
            &&& scrollback.wraps(y) && scrollback.continues(y + 1) ==> shown::shown(
                scrollback.line(y),
            ).len() == t.cols
        }
}

proof fn lemma_history(t: Terminal, scrollback: Scrollback, y: int, n: int, count: int)
    requires
        ready(t),
        0 <= n <= count <= t.bottom <= t.lines.len(),
        history_fits(t, scrollback, y, y + count),
        forall|k: int| 0 <= k < count ==> (#[trigger] t.lines[k]).len() == 0,
    ensures
        ({
            let u = t.after(renderer::history_rows_seq(scrollback, y, n));
            &&& u == (Terminal { lines: u.lines, row: u.row, col: u.col, ..t })
            &&& u.lines.len() == t.lines.len()
            &&& forall|k: int|
                0 <= k < t.lines.len() ==> #[trigger] u.lines[k] == (if k < n {
                    shown::shown(scrollback.line(y + k))
                } else {
                    t.lines[k]
                })
            &&& n > 0 && scrollback.wraps(y + n - 1) && scrollback.continues(y + n) ==> u.row
                == n - 1 && u.col == t.cols
        }),
    decreases n,
{
    if n > 0 {
        lemma_history(t, scrollback, y, n - 1, count);
        let rows = renderer::history_rows_seq(scrollback, y, n - 1);
        let follows = scrollback.continues(y + n - 1) && n > 1 && scrollback.wraps(y + n - 2);
        let jump = cell::when(!follows, ansi::move_to_seq(0, (n - 1) as nat));
        let cells = scrollback.line(y + n - 1);
        let line = cell::row_text(cells);
        let reset = ansi::reset_color_seq();
        terminal::lemma_after_cat(t, rows, jump);
        terminal::lemma_after_cat(t, rows + jump, line);
        terminal::lemma_after_cat(t, rows + jump + line, reset);
        let u = t.after(rows);
        assert(shown::showable(cells, t.cols));
        assert(u.lines[n - 1].len() == 0);
        let v = u.after(jump);
        if follows {
            shown::lemma_nothing(u);
            shown::wrapped_row_is_shown(v, cells);
        } else {
            shown::lemma_move(u, 0, (n - 1) as nat);
            shown::row_is_shown(v, cells);
        }
        shown::lemma_plain(v.after(line));
    } else {
        shown::lemma_nothing(t);
    }
}

/// Scrollback lines, as they are shown.
pub open spec fn history_shown(scrollback: Scrollback, from: int, n: int) -> Seq<Seq<Glyph>> {
    Seq::new(n as nat, |j: int| shown::shown(scrollback.line(from + j)))
}

proof fn lemma_batch(t: Terminal, scrollback: Scrollback, y: int, count: int, content_rows: u16)
    requires
        ready(t),
        0 < count <= content_rows <= t.lines.len(),
        t.top == 0,
        t.bottom == content_rows,
        history_fits(t, scrollback, y, y + count),
    ensures
        ({
            let u = t.after(renderer::batch_seq(scrollback, y, count, content_rows));
            &&& u == (Terminal {
                lines: u.lines,
                above: t.above + history_shown(scrollback, y, count),
                row: u.row,
                col: u.col,
                ..t
            })
            &&& u.lines.len() == t.lines.len()
            &&& forall|k: int|
                content_rows <= k < t.lines.len() ==> #[trigger] u.lines[k] == t.lines[k]
            &&& (forall|k: int| 0 <= k < content_rows ==> (#[trigger] t.lines[k]).len() == 0) ==> (
            forall|k: int| 0 <= k < content_rows ==> (#[trigger] u.lines[k]).len() == 0)
        }),
{
    let a = renderer::blank_rows_seq(count);
    let b = renderer::history_rows_seq(scrollback, y, count);
    let c = ansi::move_to_seq(0, (content_rows - 1) as nat);
    let d = text::run('\n', count as nat);
    terminal::lemma_after_cat(t, a, b);
    terminal::lemma_after_cat(t, a + b, c);
    terminal::lemma_after_cat(t, a + b + c, d);
    lemma_blanked(t, count);
    let t1 = t.after(a);
    lemma_history(t1, scrollback, y, count, count);
    let t2 = t1.after(b);
    shown::lemma_move(t2, 0, (content_rows - 1) as nat);
    let t3 = t2.after(c);
    lemma_feeds(t3, count);
    assert(t3.lines.take(count) =~= history_shown(scrollback, y, count));
    assert forall|k: int| 0 <= k < content_rows - count implies t3.after(d).lines[k] == t.lines[k
        + count] by {}
}

proof fn lemma_batches(t: Terminal, scrollback: Scrollback, y: int, remaining: int, content_rows: u16)
    requires
        ready(t),
        0 <= remaining,
        0 < content_rows <= t.lines.len(),
        t.top == 0,
        t.bottom == content_rows,
        history_fits(t, scrollback, y, y + remaining),
    ensures
        ({
            let u = t.after(renderer::batches_seq(scrollback, y, remaining, content_rows));
            &&& u == (Terminal {
                lines: u.lines,
                above: t.above + history_shown(scrollback, y, remaining),
                row: u.row,
                col: u.col,
                ..t
            })
            &&& u.lines.len() == t.lines.len()
            &&& forall|k: int|
                content_rows <= k < t.lines.len() ==> #[trigger] u.lines[k] == t.lines[k]
            &&& (forall|k: int| 0 <= k < content_rows ==> (#[trigger] t.lines[k]).len() == 0) ==> (
            forall|k: int| 0 <= k < content_rows ==> (#[trigger] u.lines[k]).len() == 0)
        }),
    decreases remaining,
{
    if remaining == 0 {
        shown::lemma_nothing(t);
        assert(t.above + history_shown(scrollback, y, 0) =~= t.above);
    } else if remaining <= content_rows {
        lemma_batch(t, scrollback, y, remaining, content_rows);
    } else {
        let n = content_rows as int;
        lemma_batch(t, scrollback, y, n, content_rows);
        let a = renderer::batch_seq(scrollback, y, n, content_rows);
        let b = renderer::batches_seq(scrollback, y + n, remaining - n, content_rows);
        let u = t.after(a);
        terminal::lemma_after_cat(t, a, b);
        lemma_batches(u, scrollback, y + n, remaining - n, content_rows);
        assert(u.above + history_shown(scrollback, y + n, remaining - n) =~= t.above
            + history_shown(scrollback, y, remaining));
    }
}

/// Number of scrollback lines that the terminal does not have.
pub open spec fn new_lines(r: RendererState, scrollback: Scrollback) -> int {
    if r.content_rows > 0 && scrollback.rows > r.flushed {
        scrollback.rows - r.flushed
    } else {
        0
    }
}

/// Pushing scrollback adds to the terminal's own exactly the lines that it does
/// not have, as they were shown and in their order, and leaves the rows below
/// the content alone.
pub proof fn flush_adds_the_new_lines(t: Terminal, r: RendererState, scrollback: Scrollback)
    requires
        ready(t),
        r.content_rows <= t.lines.len(),
        history_fits(t, scrollback, r.flushed as int, scrollback.rows as int),
    ensures
        ({
            let u = t.after(r.flush_seq(scrollback));
            let n = new_lines(r, scrollback);
            &&& n == 0 ==> u == t
            &&& n > 0 ==> u == (Terminal {
                lines: u.lines,
                above: t.above + history_shown(scrollback, r.flushed as int, n),
                row: 0,
                col: 0,
                top: 0,
                bottom: t.lines.len() as int,
                ..t
            })
            &&& u.lines.len() == t.lines.len()
            &&& forall|k: int|
                r.content_rows <= k < t.lines.len() ==> #[trigger] u.lines[k] == t.lines[k]
            &&& (forall|k: int| 0 <= k < r.content_rows ==> (#[trigger] t.lines[k]).len() == 0) ==> (
            forall|k: int| 0 <= k < r.content_rows ==> (#[trigger] u.lines[k]).len() == 0)
        }),
{
    let n = new_lines(r, scrollback);
    if n == 0 {
        shown::lemma_nothing(t);
    } else {
        let a = ansi::scroll_region_seq(1, r.content_rows as nat);
        let b = renderer::batches_seq(scrollback, r.flushed as int, n, r.content_rows);
        let c = ansi::reset_scroll_region_seq();
        terminal::lemma_after_cat(t, a, b);
        terminal::lemma_after_cat(t, a + b, c);
        shown::lemma_region(t, r.content_rows as nat);
        lemma_batches(t.after(a), scrollback, r.flushed as int, n, r.content_rows);
        shown::lemma_region_reset(t.after(a).after(b));
    }
}

/// Drawing the screen, with the scrollback or without, makes the terminal show
/// it, and adds the new lines to the terminal's scrollback.
proof fn lemma_screen(
    t: Terminal,
    r: RendererState,
    legacy: bool,
    scrolls: bool,
    scrollback: Scrollback,
    screen: Screen,
)
    requires
        ready(t),
        fits(t, r, screen),
        scrolls ==> history_fits(t, scrollback, r.flushed as int, scrollback.rows as int),
        scrolls && new_lines(r, scrollback) > 0 && r.cleared ==> forall|k: int|
            0 <= k < r.content_rows ==> (#[trigger] t.lines[k]).len() == 0,
        !(scrolls && new_lines(r, scrollback) > 0) ==> memory_is_true(t, r, screen)
            && marks_are_true(t, r, legacy, screen),
        screen.cursor.row + r.row_offset < 0x1_0000,
        t.visible == r.cursor.visible,
    ensures
        ({
            let u = t.after(frame::screen_seq(r, legacy, scrolls, scrollback, screen));
            let n = if scrolls {
                new_lines(r, scrollback)
            } else {
                0
            };
            &&& mirrors(u, r, screen)
            &&& u.lines.len() == t.lines.len()
            &&& forall|k: int|
                r.content_rows <= k < t.lines.len() ==> #[trigger] u.lines[k] == t.lines[k]
            &&& n == 0 ==> forall|k: int|
                0 <= k < t.lines.len() && !in_view(r, screen, k - r.row_offset)
                    ==> #[trigger] u.lines[k] == t.lines[k]
            &&& u == (Terminal {
                lines: u.lines,
                above: t.above + history_shown(scrollback, r.flushed as int, n),
                row: u.row,
                col: u.col,
                top: u.top,
                bottom: u.bottom,
                visible: screen.cursor.visible,
                ..t
            })
        }),
{
    let a = cell::when(scrolls, r.flush_seq(scrollback));
    let s = frame::before_rows(r, scrolls, scrollback);
    let b = s.frame_seq(legacy, screen);
    terminal::lemma_after_cat(t, a, b);
    shown::lemma_nothing(t);
    assert(t.above + history_shown(scrollback, r.flushed as int, 0) =~= t.above);
    if scrolls {
        flush_adds_the_new_lines(t, r, scrollback);
    }
    let u = t.after(a);
    assert(fits(u, s, screen)) by {
        assert forall|i: int|
            #![trigger screen.line(i)]
            in_view(s, screen, i) implies screen.line(i).len() > 0 && shown::showable(
            screen.line(i),
            u.cols,
        ) by {
            assert(in_view(r, screen, i));
        }
    }
    if scrolls && new_lines(r, scrollback) > 0 {
        assert(memory_is_true(u, s, screen));
        assert(marks_are_true(u, s, legacy, screen));
    } else {
        assert(s == r && u == t);
    }
    frame_mirrors_the_screen(u, s, legacy, screen);
    let v = u.after(b);
    assert forall|i: int|
        #![trigger screen.line(i)]
        in_view(r, screen, i) implies shows_row(v, screen, r.row_offset as int, i) by {
        assert(in_view(s, screen, i));
    }
    assert forall|k: int| r.content_rows <= k < t.lines.len() implies #[trigger] v.lines[k]
        == t.lines[k] by {
        assert(!in_view(s, screen, k - s.row_offset));
        assert(u.lines[k] == t.lines[k]);
    }
}

/// Whether a text paints the rows from `content_rows` on as `bar` says, and
/// leaves all else of a terminal as it is but the cursor.
pub open spec fn paints(
    status: Seq<char>,
    height: int,
    content_rows: int,
    bar: Seq<Seq<Glyph>>,
) -> bool {
    forall|t: Terminal|
        ready(t) && t.lines.len() == height ==> {
            let u = #[trigger] t.after(status);
            &&& u == (Terminal { lines: u.lines, row: u.row, col: u.col, ..t })
            &&& u.lines.len() == height
            &&& forall|k: int| 0 <= k < height ==> #[trigger] u.lines[k] == (if k < content_rows {
                t.lines[k]
            } else {
                bar[k]
            })
        }
}

proof fn lemma_prepared(t: Terminal, plan: frame::FramePlan, r: RendererState, esc: EscapeState)
    requires
        ready(t),
        plan.consumed <= r.content_rows <= t.lines.len(),
    ensures
        ({
            let u = t.after(plan.prepared_seq(r, esc));
            &&& u == (Terminal {
                lines: u.lines,
                above: if esc.clear_scrollback {
                    Seq::empty()
                } else {
                    t.above + t.lines.take(plan.consumed as int)
                },
                row: u.row,
                col: u.col,
                top: u.top,
                bottom: u.bottom,
                ..t
            })
            &&& u.lines == (if plan.clears {
                Seq::new(t.lines.len(), |k: int| Seq::<Glyph>::empty())
            } else {
                moved_up(t.lines, r.content_rows as int, plan.consumed as int)
            })
        }),
{
    let a = renderer::scroll_seq(r.content_rows, plan.consumed as nat);
    let b = cell::when(esc.clear_scrollback, ansi::erase_seq(ansi::Erase::Scrollback));
    let c = cell::when(plan.clears, renderer::native_clear_seq());
    terminal::lemma_after_cat(t, a, b);
    terminal::lemma_after_cat(t, a + b, c);
    scrolling_keeps_the_rows(t, r.content_rows, plan.consumed as nat);
    assert(t.above + t.lines.take(0) =~= t.above);
    assert(moved_up(t.lines, r.content_rows as int, 0) =~= t.lines);
    let t1 = t.after(a);
    shown::lemma_nothing(t1);
    shown::lemma_erase_above(t1);
    let t2 = t1.after(b);
    shown::lemma_nothing(t2);
    if plan.clears {
        terminal::lemma_after_cat(
            t2,
            ansi::erase_seq(ansi::Erase::Screen),
            ansi::move_to_seq(0, 0),
        );
        shown::lemma_erase_screen(t2);
        shown::lemma_move(t2.after(ansi::erase_seq(ansi::Erase::Screen)), 0, 0);
        assert(t2.after(c).lines =~= Seq::new(t.lines.len(), |k: int| Seq::<Glyph>::empty()));
    }
}

/// After the frame of a batch the terminal shows what the emulator shows, with
/// the cursor where it is there, and the status line below it if that is shown.
/// Its scrollback is erased if the nested program erased it; otherwise the rows
/// that were given up above the screen are added to it. Then come the lines that
/// scrolled off the emulator's screen, each once and in order, unless a
/// full-screen program or rows above the screen are in the way. The frame ends
/// with nothing held back.
pub proof fn batch_frame_mirrors_the_screen(
    t: Terminal,
    session: ShellSession,
    r: RendererState,
    perf: Perf,
    b: BatchState,
    esc: EscapeState,
    scrollback: Scrollback,
    screen: Screen,
    status: Seq<char>,
    bar: Seq<Seq<Glyph>>,
)
    requires
        ready(t),
        !r.cleared,
        t.visible == r.cursor.visible,
        r.row_offset <= r.content_rows <= t.lines.len(),
        screen.cursor.row + r.row_offset < 0x1_0000,
        paints(status, t.lines.len() as int, r.content_rows as int, bar),
        history_fits(t, scrollback, r.flushed as int, scrollback.rows as int),
        ({
            let plan = frame::frame_plan(session, r, perf, b, esc, screen.cursor.row);
            let left = (r.row_offset - plan.consumed) as u16;
            let moved = RendererState { row_offset: left, ..r };
            let legacy = perf.legacy_render;
            let forced = b.was_in_alt != esc.in_alternate_screen || plan.consumed > 0 || (
            !esc.in_alternate_screen && left == 0 && new_lines(r, scrollback) > 0);
            let erased = !legacy && esc.erase_display && !esc.in_alternate_screen && left == 0;
            &&& fits(t, moved, screen)
            &&& !forced && !erased ==> memory_is_true(t, r, screen) && marks_are_true(
                t,
                r,
                legacy,
                screen,
            )
            &&& !forced && erased ==> forall|i: int|
                #![trigger screen.line(i)]
                in_view(r, screen, i) && !suspect(r, legacy, screen, i) ==> shown::shown(
                    screen.line(i),
                ).len() == 0
        }),
    ensures
        ({
            let plan = frame::frame_plan(session, r, perf, b, esc, screen.cursor.row);
            let left = (r.row_offset - plan.consumed) as u16;
            let legacy = perf.legacy_render;
            let u = t.after(
                frame::batch_frame_seq(plan, r, legacy, esc, scrollback, screen, status),
            );
            let pushed = if !esc.in_alternate_screen && left == 0 {
                new_lines(r, scrollback)
            } else {
                0
            };
            let barred = session.config.show_status_line && (legacy || !esc.in_alternate_screen);
            &&& mirrors(u, RendererState { row_offset: left, ..r }, screen)
            &&& at(u, screen.cursor, left as int)
            &&& u.visible == screen.cursor.visible
            &&& u.above == (if esc.clear_scrollback {
                Seq::empty()
            } else {
                t.above + t.lines.take(plan.consumed as int)
            }) + history_shown(scrollback, r.flushed as int, pushed)
            &&& u.lines.len() == t.lines.len()
            &&& forall|k: int|
                r.content_rows <= k < t.lines.len() ==> #[trigger] u.lines[k] == (if barred {
                    bar[k]
                } else if !legacy && esc.erase_display && !esc.in_alternate_screen && left == 0 {
                    Seq::empty()
                } else {
                    t.lines[k]
                })
            &&& ready(u)
            &&& !u.held
        }),
{
    let plan = frame::frame_plan(session, r, perf, b, esc, screen.cursor.row);
    lemma_planned(t, plan, r, perf, esc, scrollback, screen, status, bar);
}

proof fn lemma_six(
    t: Terminal,
    a: Seq<char>,
    b: Seq<char>,
    c: Seq<char>,
    d: Seq<char>,
    e: Seq<char>,
    f: Seq<char>,
)
    ensures
        t.after(a + b + c + d + e + f) == t.after(a).after(b).after(c).after(d).after(e).after(f),
{
    terminal::lemma_after_cat(t, a, b);
    terminal::lemma_after_cat(t, a + b, c);
    terminal::lemma_after_cat(t, a + b + c, d);
    terminal::lemma_after_cat(t, a + b + c + d, e);
    terminal::lemma_after_cat(t, a + b + c + d + e, f);
}

/// The status line, if it is drawn, the cursor, and the end of the frame.
proof fn lemma_closing(
    t: Terminal,
    draws: bool,
    status: Seq<char>,
    content_rows: int,
    bar: Seq<Seq<Glyph>>,
    cursor: CursorState,
    offset: u16,
)
    requires
        ready(t),
        cursor.row + offset < 0x1_0000,
        paints(status, t.lines.len() as int, content_rows, bar),
    ensures
        ({
            let u = t.after(cell::when(draws, status)).after(renderer::place_seq(cursor, offset));
            let v = u.after(ansi::end_sync_seq());
            &&& u == (Terminal {
                lines: u.lines,
                row: cursor.row + offset,
                col: cursor.col as int,
                ..t
            })
            &&& v == (Terminal { held: false, ..u })
            &&& u.lines.len() == t.lines.len()
            &&& forall|k: int|
                0 <= k < t.lines.len() ==> #[trigger] u.lines[k] == (if draws && k
                    >= content_rows {
                    bar[k]
                } else {
                    t.lines[k]
                })
        }),
{
    shown::lemma_nothing(t);
    let u = t.after(cell::when(draws, status));
    if draws {
        assert(u == t.after(status));
    }
    shown::lemma_move(u, cursor.col as nat, (cursor.row + offset) as nat);
    shown::lemma_modes(u.after(renderer::place_seq(cursor, offset)));
}

proof fn lemma_planned(
    t: Terminal,
    plan: frame::FramePlan,
    r: RendererState,
    perf: Perf,
    esc: EscapeState,
    scrollback: Scrollback,
    screen: Screen,
    status: Seq<char>,
    bar: Seq<Seq<Glyph>>,
)
    requires
        ready(t),
        !r.cleared,
        t.visible == r.cursor.visible,
        plan.consumed <= r.row_offset <= r.content_rows <= t.lines.len(),
        screen.cursor.row + r.row_offset < 0x1_0000,
        paints(status, t.lines.len() as int, r.content_rows as int, bar),
        history_fits(t, scrollback, r.flushed as int, scrollback.rows as int),
        fits(t, RendererState { row_offset: (r.row_offset - plan.consumed) as u16, ..r }, screen),
        ({
            let legacy = perf.legacy_render;
            let forced = plan.switched || plan.consumed > 0 || (plan.scrolls && new_lines(
                r,
                scrollback,
            ) > 0);
            &&& !forced && !plan.clears ==> memory_is_true(t, r, screen) && marks_are_true(
                t,
                r,
                legacy,
                screen,
            )
            &&& !forced && plan.clears ==> forall|i: int|
                #![trigger screen.line(i)]
                in_view(r, screen, i) && !suspect(r, legacy, screen, i) ==> shown::shown(
                    screen.line(i),
                ).len() == 0
        }),
    ensures
        ({
            let left = (r.row_offset - plan.consumed) as u16;
            let u = t.after(
                frame::batch_frame_seq(
                    plan,
                    r,
                    perf.legacy_render,
                    esc,
                    scrollback,
                    screen,
                    status,
                ),
            );
            let pushed = if plan.scrolls {
                new_lines(r, scrollback)
            } else {
                0
            };
            &&& mirrors(u, RendererState { row_offset: left, ..r }, screen)
            &&& at(u, screen.cursor, left as int)
            &&& u.visible == screen.cursor.visible
            &&& u.above == (if esc.clear_scrollback {
                Seq::empty()
            } else {
                t.above + t.lines.take(plan.consumed as int)
            }) + history_shown(scrollback, r.flushed as int, pushed)
            &&& u.lines.len() == t.lines.len()
            &&& forall|k: int|
                r.content_rows <= k < t.lines.len() ==> #[trigger] u.lines[k] == (
                if plan.draws_status {
                    bar[k]
                } else if plan.clears {
                    Seq::empty()
                } else {
                    t.lines[k]
                })
            &&& ready(u)
            &&& !u.held
        }),
{
    let legacy = perf.legacy_render;
    let p = plan.prepared(r);
    let left = (r.row_offset - plan.consumed) as u16;
    let moved = RendererState { row_offset: left, ..r };
    assert(p.row_offset == left && p.content_rows == r.content_rows && p.flushed == r.flushed);
    assert(p.cursor.visible == r.cursor.visible);
    let s0 = ansi::begin_sync_seq();
    let s1 = plan.prepared_seq(r, esc);
    let s2 = frame::screen_seq(p, legacy, plan.scrolls, scrollback, screen);
    let s3 = cell::when(plan.draws_status, status);
    let s4 = renderer::place_seq(screen.cursor, p.row_offset);
    let s5 = ansi::end_sync_seq();
    lemma_six(t, s0, s1, s2, s3, s4, s5);
    shown::lemma_modes(t);
    let t0 = t.after(s0);
    lemma_prepared(t0, plan, r, esc);
    let t1 = t0.after(s1);
    assert(t1.lines.len() == t.lines.len());
    lemma_ready_for_rows(t, t1, plan, r, perf, esc, scrollback, screen);
    assert(history_fits(t1, scrollback, p.flushed as int, scrollback.rows as int));
    lemma_screen(t1, p, legacy, plan.scrolls, scrollback, screen);
    let t2 = t1.after(s2);
    lemma_closing(
        t2,
        plan.draws_status,
        status,
        r.content_rows as int,
        bar,
        screen.cursor,
        p.row_offset,
    );
    let u = t2.after(s3).after(s4).after(s5);
    assert forall|i: int|
        #![trigger screen.line(i)]
        in_view(moved, screen, i) implies shows_row(u, screen, left as int, i) by {
        assert(in_view(p, screen, i));
        assert(shows_row(t2, screen, left as int, i));
        assert(u.lines[i + left] == t2.lines[i + left]);
    }
}

proof fn lemma_ready_for_rows(
    t: Terminal,
    t1: Terminal,
    plan: frame::FramePlan,
    r: RendererState,
    perf: Perf,
    esc: EscapeState,
    scrollback: Scrollback,
    screen: Screen,
)
    requires
        plan.consumed <= r.row_offset <= r.content_rows <= t.lines.len(),
        !r.cleared,
        t1.cols == t.cols,
        t1.lines == (if plan.clears {
            Seq::new(t.lines.len(), |k: int| Seq::<Glyph>::empty())
        } else {
            moved_up(t.lines, r.content_rows as int, plan.consumed as int)
        }),
        fits(t, RendererState { row_offset: (r.row_offset - plan.consumed) as u16, ..r }, screen),
        ({
            let legacy = perf.legacy_render;
            let forced = plan.switched || plan.consumed > 0 || (plan.scrolls && new_lines(
                r,
                scrollback,
            ) > 0);
            &&& !forced && !plan.clears ==> memory_is_true(t, r, screen) && marks_are_true(
                t,
                r,
                legacy,
                screen,
            )
            &&& !forced && plan.clears ==> forall|i: int|
                #![trigger screen.line(i)]
                in_view(r, screen, i) && !suspect(r, legacy, screen, i) ==> shown::shown(
                    screen.line(i),
                ).len() == 0
        }),
    ensures
        ({
            let p = plan.prepared(r);
            let legacy = perf.legacy_render;
            &&& fits(t1, p, screen)
            &&& plan.scrolls && new_lines(p, scrollback) > 0 && p.cleared ==> forall|k: int|
                0 <= k < p.content_rows ==> (#[trigger] t1.lines[k]).len() == 0
            &&& !(plan.scrolls && new_lines(p, scrollback) > 0) ==> memory_is_true(t1, p, screen)
                && marks_are_true(t1, p, legacy, screen)
        }),
{
    let p = plan.prepared(r);
    let legacy = perf.legacy_render;
    let moved = RendererState { row_offset: (r.row_offset - plan.consumed) as u16, ..r };
    assert forall|i: int|
        #![trigger screen.line(i)]
        in_view(p, screen, i) implies screen.line(i).len() > 0 && shown::showable(
        screen.line(i),
        t1.cols,
    ) by {
        assert(in_view(moved, screen, i));
    }
    assert(moved_up(t.lines, r.content_rows as int, 0) =~= t.lines);
    if !(plan.scrolls && new_lines(p, scrollback) > 0) {
        if plan.switched || plan.consumed > 0 {
        } else if plan.clears {
            assert forall|i: int|
                #![trigger screen.line(i)]
                in_view(p, screen, i) && !suspect(p, legacy, screen, i) implies shows_row(
                t1,
                screen,
                p.row_offset as int,
                i,
            ) by {
                assert(in_view(r, screen, i) && !suspect(r, legacy, screen, i));
                assert(shown::shown(screen.line(i)) =~= t1.lines[i + p.row_offset]);
            }
        } else {
            assert(p == r);
            assert(t1.lines == t.lines);
            assert forall|i: int|
                #![trigger screen.line(i)]
                in_view(p, screen, i) && i < p.lines.len() && screen.line(i).len() > 0
                    && identifies(p.lines[i], screen.line(i)) implies shows_row(
                t1,
                screen,
                p.row_offset as int,
                i,
            ) by {
                assert(shows_row(t, screen, r.row_offset as int, i));
            }
            assert forall|i: int|
                #![trigger screen.line(i)]
                in_view(p, screen, i) && !suspect(p, legacy, screen, i) implies shows_row(
                t1,
                screen,
                p.row_offset as int,
                i,
            ) by {
                assert(shows_row(t, screen, r.row_offset as int, i));
            }
        }
    }
}

/// Whether a frame draws the rows of the screen.
pub open spec fn draws_screen(state: LoopState, legacy: bool, purpose: Purpose) -> bool {
    match purpose {
        Purpose::Opening(row_offset) => row_offset == 0,
        Purpose::Tick => false,
        Purpose::Status => false,
        Purpose::Command => !state.esc.in_alternate_screen || legacy,
        _ => true,
    }
}

/// Whether a frame draws the status line.
pub open spec fn draws_bar(state: LoopState, legacy: bool, purpose: Purpose) -> bool {
    let show = state.session.config.show_status_line;
    let in_alt = state.esc.in_alternate_screen;
    match purpose {
        Purpose::Opening(_) => show,
        Purpose::Error => true,
        Purpose::Status => true,
        Purpose::Resize => show && !in_alt,
        Purpose::Last(_) => false,
        _ => show && (legacy || !in_alt),
    }
}

/// Whether a frame pushes scrollback.
pub open spec fn pushes(state: LoopState, legacy: bool, purpose: Purpose) -> bool {
    match purpose {
        Purpose::Error => state.renderer.row_offset == 0,
        Purpose::Command => state.renderer.row_offset == 0 && draws_screen(
            state,
            legacy,
            purpose,
        ),
        Purpose::Last(_) => true,
        _ => false,
    }
}

/// Number of rows above the screen in a frame.
pub open spec fn rows_over(state: LoopState, purpose: Purpose) -> u16 {
    match purpose {
        Purpose::Opening(row_offset) => row_offset,
        _ => state.renderer.row_offset,
    }
}

/// Every frame that draws the screen makes the terminal show what the emulator
/// shows, and the others leave what it shows alone. New scrollback lines are
/// added to the terminal's, where there is nothing above the screen. The status
/// line is drawn where it is shown, and the cursor is then where the emulator
/// has it.
pub proof fn every_frame_mirrors_the_screen(
    t: Terminal,
    state: LoopState,
    perf: Perf,
    purpose: Purpose,
    scrollback: Scrollback,
    screen: Screen,
    status: Seq<char>,
    bar: Seq<Seq<Glyph>>,
)
    requires
        !(purpose is Batch),
        ready(t),
        !t.held,
        !state.renderer.cleared,
        t.visible == state.renderer.cursor.visible,
        state.renderer.content_rows <= t.lines.len(),
        purpose is Opening ==> state.renderer.row_offset == 0,
        screen.cursor.row + rows_over(state, purpose) < 0x1_0000,
        paints(status, t.lines.len() as int, state.renderer.content_rows as int, bar),
        history_fits(t, scrollback, state.renderer.flushed as int, scrollback.rows as int),
        fits(t, state.renderer, screen),
        ({
            let forced = purpose is Opening || purpose is Resize || (pushes(
                state,
                perf.legacy_render,
                purpose,
            ) && new_lines(state.renderer, scrollback) > 0);
            !forced ==> memory_is_true(t, state.renderer, screen) && marks_are_true(
                t,
                state.renderer,
                perf.legacy_render,
                screen,
            )
        }),
    ensures
        ({
            let r = state.renderer;
            let legacy = perf.legacy_render;
            let u = t.after(state.frame_seq(perf, purpose, scrollback, screen, status));
            let pushed = if pushes(state, legacy, purpose) {
                new_lines(r, scrollback)
            } else {
                0
            };
            let barred = draws_bar(state, legacy, purpose);
            &&& draws_screen(state, legacy, purpose) ==> mirrors(u, r, screen)
            &&& draws_screen(state, legacy, purpose) ==> u.visible == screen.cursor.visible
            &&& !draws_screen(state, legacy, purpose) ==> forall|k: int|
                0 <= k < r.content_rows ==> #[trigger] u.lines[k] == t.lines[k]
            &&& u.lines.len() == t.lines.len()
            &&& forall|k: int|
                r.content_rows <= k < t.lines.len() ==> #[trigger] u.lines[k] == (if barred {
                    bar[k]
                } else {
                    t.lines[k]
                })
            &&& u.above == t.above + history_shown(scrollback, r.flushed as int, pushed)
            &&& barred || purpose is Opening || purpose is Resize ==> at(
                u,
                screen.cursor,
                rows_over(state, purpose) as int,
            )
            &&& ready(u)
            &&& !u.held
        }),
{
    let r = state.renderer;
    let legacy = perf.legacy_render;
    let over = rows_over(state, purpose);
    let place = renderer::place_seq(screen.cursor, over);
    let scrolls = pushes(state, legacy, purpose);
    let barred = draws_bar(state, legacy, purpose);
    assert(t.above + history_shown(scrollback, r.flushed as int, 0) =~= t.above);
    shown::lemma_nothing(t);
    match purpose {
        Purpose::Opening(row_offset) => {
            let drawn = row_offset == 0;
            let rows = if drawn {
                r.invalidated().frame_seq(legacy, screen)
            } else {
                Seq::empty()
            };
            let closing = cell::when(barred, status) + place;
            assert(Seq::<char>::empty() + closing =~= closing);
            lemma_full(t, r, legacy, screen, drawn, rows);
            let u = t.after(rows);
            lemma_closing(u, barred, status, r.content_rows as int, bar, screen.cursor, over);
            terminal::lemma_after_cat(t, rows, closing);
            terminal::lemma_after_cat(u, cell::when(barred, status), place);
            let v = u.after(cell::when(barred, status)).after(place);
            assert(v == t.after(state.frame_seq(perf, purpose, scrollback, screen, status)));
            lemma_mirrors_on(u, v, r, screen, drawn);
        },
        Purpose::Resize => {
            let rows = r.invalidated().frame_seq(legacy, screen);
            lemma_full(t, r, legacy, screen, true, rows);
            let u = t.after(rows);
            lemma_closing(u, barred, status, r.content_rows as int, bar, screen.cursor, over);
            terminal::lemma_after_cat(t, rows, cell::when(barred, status));
            terminal::lemma_after_cat(t, rows + cell::when(barred, status), place);
            lemma_mirrors_on(
                u,
                u.after(cell::when(barred, status)).after(place),
                r,
                screen,
                true,
            );
        },
        Purpose::Error => {
            let rows = frame::screen_seq(r, legacy, scrolls, scrollback, screen);
            lemma_screen(t, r, legacy, scrolls, scrollback, screen);
            let u = t.after(rows);
            lemma_closing(u, true, status, r.content_rows as int, bar, screen.cursor, over);
            terminal::lemma_after_cat(t, rows, status);
            terminal::lemma_after_cat(t, rows + status, place);
            lemma_mirrors_on(u, u.after(status).after(place), r, screen, true);
        },
        Purpose::Last(_) => {
            lemma_screen(t, r, legacy, true, scrollback, screen);
        },
        Purpose::Status => {
            lemma_closing(t, true, status, r.content_rows as int, bar, screen.cursor, over);
            terminal::lemma_after_cat(t, status, place);
        },
        Purpose::Tick => {
            shown::lemma_modes(t);
            let t0 = t.after(ansi::begin_sync_seq());
            lemma_closing(t0, true, status, r.content_rows as int, bar, screen.cursor, over);
            let s0 = ansi::begin_sync_seq();
            terminal::lemma_after_cat(t, s0, status);
            terminal::lemma_after_cat(t, s0 + status, place);
            terminal::lemma_after_cat(t, s0 + status + place, ansi::end_sync_seq());
        },
        Purpose::Command => {
            if draws_screen(state, legacy, purpose) {
                lemma_command(t, r, legacy, barred, scrollback, screen, status, bar);
            }
        },
        Purpose::Batch(_) => {},
    }
}

proof fn lemma_mirrors_on(u: Terminal, v: Terminal, r: RendererState, screen: Screen, drawn: bool)
    requires
        drawn ==> mirrors(u, r, screen),
        r.content_rows <= u.lines.len(),
        forall|k: int| 0 <= k < r.content_rows ==> #[trigger] v.lines[k] == u.lines[k],
    ensures
        drawn ==> mirrors(v, r, screen),
{
    if drawn {
        assert forall|i: int|
            #![trigger screen.line(i)]
            in_view(r, screen, i) implies shows_row(v, screen, r.row_offset as int, i) by {
            assert(shows_row(u, screen, r.row_offset as int, i));
            assert(v.lines[i + r.row_offset] == u.lines[i + r.row_offset]);
        }
    }
}

/// Drawing every row, if at all.
proof fn lemma_full(
    t: Terminal,
    r: RendererState,
    legacy: bool,
    screen: Screen,
    drawn: bool,
    rows: Seq<char>,
)
    requires
        ready(t),
        !r.cleared,
        t.visible == r.cursor.visible,
        fits(t, r, screen),
        drawn ==> screen.cursor.row + r.row_offset < 0x1_0000,
        rows == if drawn {
            r.invalidated().frame_seq(legacy, screen)
        } else {
            Seq::empty()
        },
    ensures
        ({
            let u = t.after(rows);
            &&& drawn ==> mirrors(u, r, screen)
            &&& u.lines.len() == t.lines.len()
            &&& forall|k: int|
                0 <= k < t.lines.len() && (!drawn || k >= r.content_rows) ==> #[trigger] u.lines[k]
                    == t.lines[k]
            &&& u == (Terminal {
                lines: u.lines,
                row: u.row,
                col: u.col,
                visible: u.visible,
                ..t
            })
            &&& drawn ==> u.visible == screen.cursor.visible
        }),
{
    shown::lemma_nothing(t);
    if drawn {
        let s = r.invalidated();
        assert forall|i: int|
            #![trigger screen.line(i)]
            in_view(s, screen, i) implies screen.line(i).len() > 0 && shown::showable(
            screen.line(i),
            t.cols,
        ) by {
            assert(in_view(r, screen, i));
        }
        frame_mirrors_the_screen(t, s, legacy, screen);
        let u = t.after(s.frame_seq(legacy, screen));
        assert forall|i: int|
            #![trigger screen.line(i)]
            in_view(r, screen, i) implies shows_row(u, screen, r.row_offset as int, i) by {
            assert(in_view(s, screen, i));
        }
        assert forall|k: int| r.content_rows <= k < t.lines.len() implies #[trigger] u.lines[k]
            == t.lines[k] by {
            assert(!in_view(s, screen, k - s.row_offset));
        }
    }
}

proof fn lemma_command(
    t: Terminal,
    r: RendererState,
    legacy: bool,
    barred: bool,
    scrollback: Scrollback,
    screen: Screen,
    status: Seq<char>,
    bar: Seq<Seq<Glyph>>,
)
    requires
        ready(t),
        !t.held,
        !r.cleared,
        t.visible == r.cursor.visible,
        screen.cursor.row + r.row_offset < 0x1_0000,
        paints(status, t.lines.len() as int, r.content_rows as int, bar),
        history_fits(t, scrollback, r.flushed as int, scrollback.rows as int),
        fits(t, r, screen),
        !(r.row_offset == 0 && new_lines(r, scrollback) > 0) ==> memory_is_true(t, r, screen)
            && marks_are_true(t, r, legacy, screen),
    ensures
        ({
            let place = renderer::place_seq(screen.cursor, r.row_offset);
            let u = t.after(
                ansi::begin_sync_seq() + frame::screen_seq(
                    r,
                    legacy,
                    r.row_offset == 0,
                    scrollback,
                    screen,
                ) + cell::when(barred, status + place) + ansi::end_sync_seq(),
            );
            let pushed = if r.row_offset == 0 {
                new_lines(r, scrollback)
            } else {
                0
            };
            &&& mirrors(u, r, screen)
            &&& u.visible == screen.cursor.visible
            &&& u.lines.len() == t.lines.len()
            &&& forall|k: int|
                r.content_rows <= k < t.lines.len() ==> #[trigger] u.lines[k] == (if barred {
                    bar[k]
                } else {
                    t.lines[k]
                })
            &&& u.above == t.above + history_shown(scrollback, r.flushed as int, pushed)
            &&& barred ==> at(u, screen.cursor, r.row_offset as int)
            &&& ready(u)
            &&& !u.held
        }),
{
    let scrolls = r.row_offset == 0;
    let place = renderer::place_seq(screen.cursor, r.row_offset);
    let s0 = ansi::begin_sync_seq();
    let s1 = frame::screen_seq(r, legacy, scrolls, scrollback, screen);
    let s2 = cell::when(barred, status + place);
    let s3 = ansi::end_sync_seq();
    terminal::lemma_after_cat(t, s0, s1);
    terminal::lemma_after_cat(t, s0 + s1, s2);
    terminal::lemma_after_cat(t, s0 + s1 + s2, s3);
    shown::lemma_modes(t);
    let t0 = t.after(s0);
    assert(memory_is_true(t, r, screen) ==> memory_is_true(t0, r, screen)) by {
        lemma_same_lines(t, t0, r, legacy, screen);
    }
    assert(marks_are_true(t, r, legacy, screen) ==> marks_are_true(t0, r, legacy, screen)) by {
        lemma_same_lines(t, t0, r, legacy, screen);
    }
    assert(history_fits(t0, scrollback, r.flushed as int, scrollback.rows as int));
    lemma_screen(t0, r, legacy, scrolls, scrollback, screen);
    let t1 = t0.after(s1);
    shown::lemma_nothing(t1);
    lemma_closing(t1, true, status, r.content_rows as int, bar, screen.cursor, r.row_offset);
    terminal::lemma_after_cat(t1, status, place);
    let t2 = t1.after(s2);
    shown::lemma_modes(t2);
    lemma_mirrors_on(t1, t2.after(s3), r, screen, true);
}

proof fn lemma_same_lines(t: Terminal, u: Terminal, r: RendererState, legacy: bool, screen: Screen)
    requires
        u.lines == t.lines,
    ensures
        memory_is_true(t, r, screen) ==> memory_is_true(u, r, screen),
        marks_are_true(t, r, legacy, screen) ==> marks_are_true(u, r, legacy, screen),
{
    if memory_is_true(t, r, screen) {
        assert forall|i: int|
            #![trigger screen.line(i)]
            in_view(r, screen, i) && i < r.lines.len() && screen.line(i).len() > 0 && identifies(
                r.lines[i],
                screen.line(i),
            ) implies shows_row(u, screen, r.row_offset as int, i) by {
            assert(shows_row(t, screen, r.row_offset as int, i));
        }
    }
    if marks_are_true(t, r, legacy, screen) {
        assert forall|i: int|
            #![trigger screen.line(i)]
            in_view(r, screen, i) && !suspect(r, legacy, screen, i) implies shows_row(
            u,
            screen,
            r.row_offset as int,
            i,
        ) by {
            assert(shows_row(t, screen, r.row_offset as int, i));
        }
    }
}

/// Ending a session blanks the status line, which is in the last row of the
/// terminal, and leaves the cursor and all else as they are.
pub proof fn ending_blanks_the_status_line(t: Terminal, session: ShellSession, esc: EscapeState)
    requires
        ready(t),
        0 < session.size.rows <= t.lines.len(),
    ensures
        ({
            let u = t.after(session.clear_status_seq(esc));
            u == (if session.config.show_status_line && !esc.in_alternate_screen {
                Terminal {
                    lines: t.lines.update(session.size.rows - 1, Seq::empty()),
                    saved: (t.row, t.col),
                    ..t
                }
            } else {
                t
            })
        }),
{
    shown::lemma_nothing(t);
    if session.config.show_status_line && !esc.in_alternate_screen {
        let k = (session.size.rows - 1) as nat;
        let a = ansi::save_cursor_seq();
        let b = ansi::move_to_seq(0, k);
        let c = ansi::erase_seq(ansi::Erase::Line);
        let d = ansi::restore_cursor_seq();
        terminal::lemma_after_cat(t, a, b);
        terminal::lemma_after_cat(t, a + b, c);
        terminal::lemma_after_cat(t, a + b + c, d);
        shown::lemma_saved(t);
        let t1 = t.after(a);
        shown::lemma_move(t1, 0, k);
        let t2 = t1.after(b);
        shown::lemma_erase_line(t2);
        shown::lemma_saved(t2.after(c));
    }
}

/// Before the first frame all of the terminal scrolls.
pub proof fn takeover_frees_the_terminal(t: Terminal)
    requires
        t.reading is Text,
    ensures
        ({
            let u = t.after(session::takeover_seq());
            &&& u == (Terminal {
                top: 0,
                bottom: t.lines.len() as int,
                row: 0,
                col: 0,
                origin: false,
                ..t
            })
        }),
{
    terminal::lemma_after_cat(t, ansi::reset_scroll_region_seq(), "\x1b[?6l"@);
    shown::lemma_region_reset(t);
    shown::lemma_origin(t.after(ansi::reset_scroll_region_seq()));
}

proof fn lemma_screen_memory(
    t: Terminal,
    r: RendererState,
    legacy: bool,
    scrolls: bool,
    scrollback: Scrollback,
    screen: Screen,
    next: Screen,
)
    requires
        ready(t),
        fits(t, r, screen),
        scrolls ==> history_fits(t, scrollback, r.flushed as int, scrollback.rows as int),
        scrolls && new_lines(r, scrollback) > 0 && r.cleared ==> forall|k: int|
            0 <= k < r.content_rows ==> (#[trigger] t.lines[k]).len() == 0,
        !(scrolls && new_lines(r, scrollback) > 0) ==> memory_is_true(t, r, screen)
            && memory_is_true(t, r, next) && marks_are_true(t, r, legacy, screen),
        screen.cursor.row + r.row_offset < 0x1_0000,
        t.visible == r.cursor.visible,
        alike(screen, next),
    ensures
        memory_is_true(
            t.after(frame::screen_seq(r, legacy, scrolls, scrollback, screen)),
            frame::after_screen(r, legacy, scrolls, scrollback, screen),
            next,
        ),
{
    let a = cell::when(scrolls, r.flush_seq(scrollback));
    let s = frame::before_rows(r, scrolls, scrollback);
    let b = s.frame_seq(legacy, screen);
    terminal::lemma_after_cat(t, a, b);
    shown::lemma_nothing(t);
    if scrolls {
        flush_adds_the_new_lines(t, r, scrollback);
    }
    let u = t.after(a);
    assert(fits(u, s, screen)) by {
        assert forall|i: int|
            #![trigger screen.line(i)]
            in_view(s, screen, i) implies screen.line(i).len() > 0 && shown::showable(
            screen.line(i),
            u.cols,
        ) by {
            assert(in_view(r, screen, i));
        }
    }
    if scrolls && new_lines(r, scrollback) > 0 {
        assert(memory_is_true(u, s, screen));
        assert(memory_is_true(u, s, next));
        assert(marks_are_true(u, s, legacy, screen));
    } else {
        assert(s == r && u == t);
    }
    memory_stays_true(u, s, legacy, screen, next);
}

proof fn lemma_memory_on(u: Terminal, v: Terminal, r: RendererState, next: Screen)
    requires
        memory_is_true(u, r, next),
        forall|k: int| 0 <= k < r.content_rows ==> #[trigger] v.lines[k] == u.lines[k],
    ensures
        memory_is_true(v, r, next),
{
    assert forall|i: int|
        #![trigger next.line(i)]
        in_view(r, next, i) && i < r.lines.len() && next.line(i).len() > 0 && identifies(
            r.lines[i],
            next.line(i),
        ) implies shows_row(v, next, r.row_offset as int, i) by {
        assert(shows_row(u, next, r.row_offset as int, i));
        assert(v.lines[i + r.row_offset] == u.lines[i + r.row_offset]);
    }
    if r.cleared {
        assert forall|i: int| in_view(r, next, i) implies (#[trigger] v.lines[i
            + r.row_offset]).len() == 0 by {
            assert(v.lines[i + r.row_offset] == u.lines[i + r.row_offset]);
            assert(u.lines[i + r.row_offset].len() == 0);
        }
    }
}

/// What the renderer remembers is true again after the frame of a batch, of
/// whatever the emulator shows next, if it was before: the next frame can rely
/// on it.
pub proof fn memory_stays_true_over_a_batch(
    t: Terminal,
    session: ShellSession,
    r: RendererState,
    perf: Perf,
    b: BatchState,
    esc: EscapeState,
    scrollback: Scrollback,
    screen: Screen,
    status: Seq<char>,
    bar: Seq<Seq<Glyph>>,
    next: Screen,
)
    requires
        ready(t),
        !r.cleared,
        t.visible == r.cursor.visible,
        r.row_offset <= r.content_rows <= t.lines.len(),
        screen.cursor.row + r.row_offset < 0x1_0000,
        paints(status, t.lines.len() as int, r.content_rows as int, bar),
        history_fits(t, scrollback, r.flushed as int, scrollback.rows as int),
        alike(screen, next),
        ({
            let plan = frame::frame_plan(session, r, perf, b, esc, screen.cursor.row);
            let left = (r.row_offset - plan.consumed) as u16;
            let moved = RendererState { row_offset: left, ..r };
            let legacy = perf.legacy_render;
            let forced = b.was_in_alt != esc.in_alternate_screen || plan.consumed > 0 || (
            !esc.in_alternate_screen && left == 0 && new_lines(r, scrollback) > 0);
            let erased = !legacy && esc.erase_display && !esc.in_alternate_screen && left == 0;
            &&& fits(t, moved, screen)
            &&& !forced && !erased ==> memory_is_true(t, r, screen) && memory_is_true(t, r, next)
                && marks_are_true(t, r, legacy, screen)
            &&& !forced && erased ==> forall|i: int|
                #![trigger screen.line(i)]
                in_view(r, screen, i) && !suspect(r, legacy, screen, i) ==> shown::shown(
                    screen.line(i),
                ).len() == 0
        }),
    ensures
        ({
            let plan = frame::frame_plan(session, r, perf, b, esc, screen.cursor.row);
            let legacy = perf.legacy_render;
            let after = frame::after_screen(
                plan.prepared(r),
                legacy,
                plan.scrolls,
                scrollback,
                screen,
            );
            let u = t.after(
                frame::batch_frame_seq(plan, r, legacy, esc, scrollback, screen, status),
            );
            &&& memory_is_true(u, after, next)
            &&& u.visible == after.cursor.visible
            &&& !after.cleared
        }),
{
    let plan = frame::frame_plan(session, r, perf, b, esc, screen.cursor.row);
    batch_frame_mirrors_the_screen(
        t,
        session,
        r,
        perf,
        b,
        esc,
        scrollback,
        screen,
        status,
        bar,
    );
    let legacy = perf.legacy_render;
    let p = plan.prepared(r);
    let s0 = ansi::begin_sync_seq();
    let s1 = plan.prepared_seq(r, esc);
    let s2 = frame::screen_seq(p, legacy, plan.scrolls, scrollback, screen);
    let s3 = cell::when(plan.draws_status, status);
    let s4 = renderer::place_seq(screen.cursor, p.row_offset);
    let s5 = ansi::end_sync_seq();
    lemma_six(t, s0, s1, s2, s3, s4, s5);
    shown::lemma_modes(t);
    let t0 = t.after(s0);
    lemma_prepared(t0, plan, r, esc);
    let t1 = t0.after(s1);
    lemma_ready_for_rows(t, t1, plan, r, perf, esc, scrollback, screen);
    lemma_ready_for_next(t, t1, plan, r, scrollback, next);
    assert(history_fits(t1, scrollback, p.flushed as int, scrollback.rows as int));
    lemma_screen(t1, p, legacy, plan.scrolls, scrollback, screen);
    lemma_screen_memory(t1, p, legacy, plan.scrolls, scrollback, screen, next);
    let t2 = t1.after(s2);
    lemma_closing(
        t2,
        plan.draws_status,
        status,
        r.content_rows as int,
        bar,
        screen.cursor,
        p.row_offset,
    );
    lemma_memory_on(
        t2,
        t2.after(s3).after(s4).after(s5),
        frame::after_screen(p, legacy, plan.scrolls, scrollback, screen),
        next,
    );
}

proof fn lemma_ready_for_next(
    t: Terminal,
    t1: Terminal,
    plan: frame::FramePlan,
    r: RendererState,
    scrollback: Scrollback,
    next: Screen,
)
    requires
        plan.consumed <= r.row_offset <= r.content_rows <= t.lines.len(),
        !r.cleared,
        t1.lines == (if plan.clears {
            Seq::new(t.lines.len(), |k: int| Seq::<Glyph>::empty())
        } else {
            moved_up(t.lines, r.content_rows as int, plan.consumed as int)
        }),
        !(plan.switched || plan.consumed > 0 || (plan.scrolls && new_lines(r, scrollback) > 0))
            && !plan.clears ==> memory_is_true(t, r, next),
    ensures
        !(plan.scrolls && new_lines(plan.prepared(r), scrollback) > 0) ==> memory_is_true(
            t1,
            plan.prepared(r),
            next,
        ),
{
    let p = plan.prepared(r);
    assert(moved_up(t.lines, r.content_rows as int, 0) =~= t.lines);
    if !(plan.scrolls && new_lines(p, scrollback) > 0) {
        if plan.switched || plan.consumed > 0 || plan.clears {
            assert(p.lines.len() == 0);
        } else {
            assert(p == r);
            lemma_memory_on(t, t1, r, next);
        }
    }
}

/// What the renderer remembers is true again after every other frame, of
/// whatever the emulator shows next, if it was before. The first frame below
/// some rows of the terminal takes what that shows for the screen.
pub proof fn memory_stays_true_over_every_frame(
    t: Terminal,
    state: LoopState,
    perf: Perf,
    purpose: Purpose,
    scrollback: Scrollback,
    screen: Screen,
    status: Seq<char>,
    bar: Seq<Seq<Glyph>>,
    next: Screen,
)
    requires
        !(purpose is Batch),
        ready(t),
        !t.held,
        !state.renderer.cleared,
        t.visible == state.renderer.cursor.visible,
        state.renderer.content_rows <= t.lines.len(),
        purpose is Opening ==> state.renderer.row_offset == 0,
        screen.cursor.row + rows_over(state, purpose) < 0x1_0000,
        paints(status, t.lines.len() as int, state.renderer.content_rows as int, bar),
        history_fits(t, scrollback, state.renderer.flushed as int, scrollback.rows as int),
        fits(t, state.renderer, screen),
        alike(screen, next),
        ({
            let forced = purpose is Opening || purpose is Resize || (pushes(
                state,
                perf.legacy_render,
                purpose,
            ) && new_lines(state.renderer, scrollback) > 0);
            !forced ==> memory_is_true(t, state.renderer, screen) && memory_is_true(
                t,
                state.renderer,
                next,
            ) && marks_are_true(t, state.renderer, perf.legacy_render, screen)
        }),
        purpose is Opening && rows_over(state, purpose) > 0 ==> mirrors(
            t,
            (RendererState { row_offset: rows_over(state, purpose), ..state.renderer }),
            screen,
        ),
    ensures
        ({
            let after = state.after_frame(perf, purpose, scrollback, screen);
            let u = t.after(state.frame_seq(perf, purpose, scrollback, screen, status));
            &&& memory_is_true(u, after, next)
            &&& !after.cleared
            &&& draws_screen(state, perf.legacy_render, purpose) || !(purpose is Opening)
                ==> u.visible == after.cursor.visible
        }),
{
    let r = state.renderer;
    let legacy = perf.legacy_render;
    let over = rows_over(state, purpose);
    let place = renderer::place_seq(screen.cursor, over);
    let scrolls = pushes(state, legacy, purpose);
    let barred = draws_bar(state, legacy, purpose);
    let after = state.after_frame(perf, purpose, scrollback, screen);
    let u = t.after(state.frame_seq(perf, purpose, scrollback, screen, status));
    every_frame_mirrors_the_screen(t, state, perf, purpose, scrollback, screen, status, bar);
    shown::lemma_nothing(t);
    match purpose {
        Purpose::Opening(row_offset) => {
            if row_offset > 0 {
                assert forall|i: int|
                    #![trigger next.line(i)]
                    in_view(after, next, i) && i < after.lines.len() && next.line(i).len() > 0
                        && identifies(after.lines[i], next.line(i)) implies shows_row(
                    u,
                    next,
                    after.row_offset as int,
                    i,
                ) by {
                    lemma_ids(screen.line(i));
                    let moved = RendererState { row_offset, ..r };
                    assert(in_view(moved, screen, i));
                    assert(shows_row(t, screen, row_offset as int, i));
                    assert(u.lines[i + row_offset] == t.lines[i + row_offset]);
                }
            } else {
                let s = r.invalidated();
                lemma_full_memory(t, r, legacy, screen, next);
                let closing = cell::when(barred, status) + place;
                let v = t.after(s.frame_seq(legacy, screen));
                lemma_full(t, r, legacy, screen, true, s.frame_seq(legacy, screen));
                terminal::lemma_after_cat(t, s.frame_seq(legacy, screen), closing);
                terminal::lemma_after_cat(v, cell::when(barred, status), place);
                lemma_closing(v, barred, status, r.content_rows as int, bar, screen.cursor, over);
                lemma_memory_on(v, u, after, next);
            }
        },
        Purpose::Resize => {
            let rows = r.invalidated().frame_seq(legacy, screen);
            lemma_full_memory(t, r, legacy, screen, next);
            lemma_full(t, r, legacy, screen, true, rows);
            let v = t.after(rows);
            lemma_closing(v, barred, status, r.content_rows as int, bar, screen.cursor, over);
            terminal::lemma_after_cat(t, rows, cell::when(barred, status));
            terminal::lemma_after_cat(t, rows + cell::when(barred, status), place);
            lemma_memory_on(v, u, after, next);
        },
        Purpose::Error => {
            let rows = frame::screen_seq(r, legacy, scrolls, scrollback, screen);
            lemma_screen(t, r, legacy, scrolls, scrollback, screen);
            lemma_screen_memory(t, r, legacy, scrolls, scrollback, screen, next);
            let v = t.after(rows);
            lemma_closing(v, true, status, r.content_rows as int, bar, screen.cursor, over);
            terminal::lemma_after_cat(t, rows, status);
            terminal::lemma_after_cat(t, rows + status, place);
            lemma_memory_on(v, u, after, next);
        },
        Purpose::Last(_) => {
            lemma_screen_memory(t, r, legacy, true, scrollback, screen, next);
        },
        Purpose::Status => {
            lemma_memory_on(t, u, r, next);
            lemma_closing(t, true, status, r.content_rows as int, bar, screen.cursor, over);
            terminal::lemma_after_cat(t, status, place);
        },
        Purpose::Tick => {
            lemma_memory_on(t, u, r, next);
            shown::lemma_modes(t);
            let s0 = ansi::begin_sync_seq();
            lemma_closing(
                t.after(s0),
                true,
                status,
                r.content_rows as int,
                bar,
                screen.cursor,
                over,
            );
            terminal::lemma_after_cat(t, s0, status);
            terminal::lemma_after_cat(t, s0 + status, place);
            terminal::lemma_after_cat(t, s0 + status + place, ansi::end_sync_seq());
        },
        Purpose::Command => {
            if draws_screen(state, legacy, purpose) {
                lemma_command_memory(t, r, legacy, barred, scrollback, screen, status, bar, next);
            } else {
                lemma_memory_on(t, u, r, next);
            }
        },
        Purpose::Batch(_) => {},
    }
}

proof fn lemma_ids(cells: Seq<Cell>)
    ensures
        identifies(cell::row_ids(cells), cells),
{
    let ids = cell::row_ids(cells);
    assert forall|j: int| 0 <= j < ids.len() implies #[trigger] ids[j] == cells[j].id by {}
}

proof fn lemma_full_memory(
    t: Terminal,
    r: RendererState,
    legacy: bool,
    screen: Screen,
    next: Screen,
)
    requires
        ready(t),
        !r.cleared,
        t.visible == r.cursor.visible,
        fits(t, r, screen),
        screen.cursor.row + r.row_offset < 0x1_0000,
        alike(screen, next),
    ensures
        memory_is_true(
            t.after(r.invalidated().frame_seq(legacy, screen)),
            r.invalidated().after_frame(legacy, screen),
            next,
        ),
{
    let s = r.invalidated();
    assert(fits(t, s, screen)) by {
        assert forall|i: int|
            #![trigger screen.line(i)]
            in_view(s, screen, i) implies screen.line(i).len() > 0 && shown::showable(
            screen.line(i),
            t.cols,
        ) by {
            assert(in_view(r, screen, i));
        }
    }
    memory_stays_true(t, s, legacy, screen, next);
}

proof fn lemma_command_memory(
    t: Terminal,
    r: RendererState,
    legacy: bool,
    barred: bool,
    scrollback: Scrollback,
    screen: Screen,
    status: Seq<char>,
    bar: Seq<Seq<Glyph>>,
    next: Screen,
)
    requires
        ready(t),
        !r.cleared,
        t.visible == r.cursor.visible,
        screen.cursor.row + r.row_offset < 0x1_0000,
        paints(status, t.lines.len() as int, r.content_rows as int, bar),
        history_fits(t, scrollback, r.flushed as int, scrollback.rows as int),
        fits(t, r, screen),
        alike(screen, next),
        !(r.row_offset == 0 && new_lines(r, scrollback) > 0) ==> memory_is_true(t, r, screen)
            && memory_is_true(t, r, next) && marks_are_true(t, r, legacy, screen),
    ensures
        memory_is_true(
            t.after(
                ansi::begin_sync_seq() + frame::screen_seq(
                    r,
                    legacy,
                    r.row_offset == 0,
                    scrollback,
                    screen,
                ) + cell::when(
                    barred,
                    status + renderer::place_seq(screen.cursor, r.row_offset),
                ) + ansi::end_sync_seq(),
            ),
            frame::after_screen(r, legacy, r.row_offset == 0, scrollback, screen),
            next,
        ),
{
    let scrolls = r.row_offset == 0;
    let place = renderer::place_seq(screen.cursor, r.row_offset);
    let s0 = ansi::begin_sync_seq();
    let s1 = frame::screen_seq(r, legacy, scrolls, scrollback, screen);
    let s2 = cell::when(barred, status + place);
    let s3 = ansi::end_sync_seq();
    terminal::lemma_after_cat(t, s0, s1);
    terminal::lemma_after_cat(t, s0 + s1, s2);
    terminal::lemma_after_cat(t, s0 + s1 + s2, s3);
    shown::lemma_modes(t);
    let t0 = t.after(s0);
    lemma_same_lines(t, t0, r, legacy, screen);
    lemma_same_lines(t, t0, r, legacy, next);
    assert(history_fits(t0, scrollback, r.flushed as int, scrollback.rows as int));
    lemma_screen(t0, r, legacy, scrolls, scrollback, screen);
    lemma_screen_memory(t0, r, legacy, scrolls, scrollback, screen, next);
    let t1 = t0.after(s1);
    shown::lemma_nothing(t1);
    lemma_closing(t1, true, status, r.content_rows as int, bar, screen.cursor, r.row_offset);
    terminal::lemma_after_cat(t1, status, place);
    let t2 = t1.after(s2);
    shown::lemma_modes(t2);
    lemma_memory_on(
        t1,
        t2.after(s3),
        frame::after_screen(r, legacy, scrolls, scrollback, screen),
        next,
    );
}

} // verus!
