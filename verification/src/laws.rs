//! Properties that span operations.

use vstd::prelude::*;

use crate::ansi;
use crate::batch;
use crate::batch::BatchState;
use crate::cell;
use crate::cell::{Cell, Style, StyleColor};
use crate::event_loop::{LoopState, Purpose};
use crate::frame;
use crate::harness::HarnessState;
use crate::perf::{Counters, Perf};
use crate::renderer;
use crate::renderer::{RendererState, RowFate, Screen, Scrollback};
use crate::report;
use crate::session::{EscapeState, ShellSession};
use crate::text;

verus! {

/// Cells that are not drawn leave no trace at the end of a row.
pub proof fn trailing_blanks_leave_no_trace(cells: Seq<Cell>, more: Seq<Cell>)
    requires
        forall|i: int| 0 <= i < more.len() ==> !(#[trigger] more[i]).is_inked(),
    ensures
        cell::row_text(cells + more) == cell::row_text(cells),
{
    lemma_trailing(cells, more, more.len() as int);
    lemma_prefix_of(cells, more, cells.len() as int);
}

proof fn lemma_prefix_of(cells: Seq<Cell>, more: Seq<Cell>, n: int)
    requires
        0 <= n <= cells.len(),
    ensures
        cell::row_prefix(cells + more, n) == cell::row_prefix(cells, n),
    decreases n,
{
    if n > 0 {
        lemma_prefix_of(cells, more, n - 1);
        assert((cells + more)[n - 1] == cells[n - 1]);
    }
}

proof fn lemma_trailing(cells: Seq<Cell>, more: Seq<Cell>, n: int)
    requires
        0 <= n <= more.len(),
        forall|i: int| 0 <= i < more.len() ==> !(#[trigger] more[i]).is_inked(),
    ensures
        cell::row_prefix(cells + more, cells.len() + n).text == cell::row_prefix(
            cells,
            cells.len() as int,
        ).text,
        cell::row_prefix(cells + more, cells.len() + n).style == cell::row_prefix(
            cells,
            cells.len() as int,
        ).style,
    decreases n,
{
    if n > 0 {
        lemma_trailing(cells, more, n - 1);
        assert((cells + more)[cells.len() + n - 1] == more[n - 1]);
    } else {
        lemma_prefix_of(cells, more, cells.len() as int);
    }
}

/// A frame never draws a row into the terminal rows below the content, where
/// the status line is.
pub proof fn rows_stay_above_the_status_line(r: RendererState, screen: Screen, i: int)
    requires
        0 <= i < r.limit(screen),
    ensures
        i + r.row_offset < r.content_rows,
{
}

/// No frame of a session draws a row of the screen over the status line, which
/// is in the last row of the terminal.
pub proof fn status_line_is_never_drawn_over(
    state: LoopState,
    perf: Perf,
    purpose: Purpose,
    scrollback: Scrollback,
    screen: Screen,
    i: int,
)
    requires
        state.wf(),
        state.session.config.show_status_line,
        state.session.size.rows >= 2,
        0 <= i < state.before_rows(perf, purpose, scrollback, screen).limit(screen),
    ensures
        i + state.before_rows(perf, purpose, scrollback, screen).row_offset
            < state.session.size.rows - 1,
{
}

/// What a frame writes, and the state after it, depend only on the cells of the
/// rows that it looks at: the others need not be read from the emulator.
pub proof fn unread_rows_do_not_matter(r: RendererState, perf: Perf, a: Screen, b: Screen)
    requires
        a.rows == b.rows,
        a.cursor == b.cursor,
        a.dirty@ == b.dirty@,
        forall|i: int|
            0 <= i < r.limit(a) && r.looks_at(perf.legacy_render, a, i) ==> #[trigger] a.line(i)
                == b.line(i),
    ensures
        r.frame_seq(perf.legacy_render, a) == r.frame_seq(perf.legacy_render, b),
        r.after_frame(perf.legacy_render, a) == r.after_frame(perf.legacy_render, b),
        r.perf_after(perf, a) == r.perf_after(perf, b),
{
    let legacy = perf.legacy_render;
    let n = r.limit(a) as int;
    assert forall|i: int| 0 <= i < n implies r.fate(legacy, a, i) == r.fate(legacy, b, i) && (
    r.kept(legacy, a, i) ==> a.line(i) == b.line(i)) by {
        if r.looks_at(legacy, a, i) {
            assert(a.line(i) == b.line(i));
        }
    }
    lemma_same_rows(r, legacy, a, b, n);
    assert(r.lines_after(legacy, a, n) =~= r.lines_after(legacy, b, n));
}

proof fn lemma_same_rows(r: RendererState, legacy: bool, a: Screen, b: Screen, n: int)
    requires
        0 <= n,
        forall|i: int|
            #![trigger r.fate(legacy, a, i)]
            0 <= i < n ==> r.fate(legacy, a, i) == r.fate(legacy, b, i) && (r.kept(legacy, a, i)
                ==> a.line(i) == b.line(i)),
    ensures
        r.rows_seq(legacy, a, n) == r.rows_seq(legacy, b, n),
        r.redrawn(legacy, a, n) == r.redrawn(legacy, b, n),
        r.kept_end(legacy, a, n) == r.kept_end(legacy, b, n),
    decreases n,
{
    if n > 0 {
        lemma_same_rows(r, legacy, a, b, n - 1);
        assert(r.fate(legacy, a, n - 1) == r.fate(legacy, b, n - 1));
        assert(r.kept(legacy, a, n - 1) == r.kept(legacy, b, n - 1));
    }
}

/// Whatever a frame is for, what it writes and what it leaves behind depend only
/// on the rows that are asked for.
pub proof fn rows_not_asked_for_do_not_matter(
    state: LoopState,
    perf: Perf,
    purpose: Purpose,
    scrollback: Scrollback,
    a: Screen,
    b: Screen,
    status: Seq<char>,
    drew: bool,
)
    requires
        a.rows == b.rows,
        a.cursor == b.cursor,
        a.dirty@ == b.dirty@,
        forall|i: int|
            #![trigger a.line(i)]
            0 <= i < state.read_rows(perf, purpose, scrollback, a).len() && state.read_rows(
                perf,
                purpose,
                scrollback,
                a,
            )[i] ==> a.line(i) == b.line(i),
    ensures
        state.frame_seq(perf, purpose, scrollback, a, status) == state.frame_seq(
            perf,
            purpose,
            scrollback,
            b,
            status,
        ),
        state.after_frame(perf, purpose, scrollback, a) == state.after_frame(
            perf,
            purpose,
            scrollback,
            b,
        ),
        state.perf_after(perf, purpose, scrollback, a, drew) == state.perf_after(
            perf,
            purpose,
            scrollback,
            b,
            drew,
        ),
{
    let r = state.before_rows(perf, purpose, scrollback, a);
    let asked = state.read_rows(perf, purpose, scrollback, a);
    if purpose.draws_rows() {
        assert forall|i: int|
            0 <= i < r.limit(a) && r.looks_at(perf.legacy_render, a, i) implies #[trigger] a.line(i)
            == b.line(i) by {
            assert(asked[i]);
        }
        unread_rows_do_not_matter(r, perf, a, b);
    } else if purpose is Opening {
        assert forall|i: int| 0 <= i < a.rows implies #[trigger] a.line(i) == b.line(i) by {
            assert(asked[i]);
        }
        assert(state.renderer.synced(a).lines =~= state.renderer.synced(b).lines);
    }
}

/// If no row is drawn, the rows of a frame write nothing.
proof fn lemma_no_rows(r: RendererState, legacy: bool, screen: Screen, n: int)
    requires
        forall|i: int|
            0 <= i < n ==> #[trigger] r.fate(legacy, screen, i) != RowFate::Redrawn,
    ensures
        r.rows_seq(legacy, screen, n) == Seq::<char>::empty(),
        r.redrawn(legacy, screen, n) == 0,
    decreases n,
{
    if n > 0 {
        lemma_no_rows(r, legacy, screen, n - 1);
        assert(r.fate(legacy, screen, n - 1) != RowFate::Redrawn);
    }
}

/// A screen on which nothing changed and the cursor stayed costs nothing: the
/// frame is empty and no row is looked at.
pub proof fn unchanged_screen_writes_nothing(r: RendererState, screen: Screen)
    requires
        !r.force_full,
        screen.cursor == r.cursor,
        forall|i: int| 0 <= i < r.limit(screen) ==> !#[trigger] screen.row_dirty(false, i),
    ensures
        r.frame_seq(false, screen) == Seq::<char>::empty(),
        forall|i: int| 0 <= i < r.limit(screen) ==> !#[trigger] r.looks_at(false, screen, i),
{
    let n = r.limit(screen) as int;
    assert forall|i: int| 0 <= i < n implies #[trigger] r.fate(false, screen, i)
        != RowFate::Redrawn by {
        assert(!screen.row_dirty(false, i));
    }
    lemma_no_rows(r, false, screen, n);
    assert(r.frame_seq(false, screen) =~= Seq::<char>::empty());
}

/// A row that a frame looks at, or that was known before, is known to the next
/// frame as it was.
pub proof fn rows_are_remembered(r: RendererState, legacy: bool, screen: Screen, i: int)
    requires
        0 <= i < r.limit(screen),
        r.looks_at(legacy, screen, i) || r.remembers(screen, i),
    ensures
        r.after_frame(legacy, screen).remembers(screen, i),
{
    let n = r.limit(screen) as int;
    renderer::lemma_counts(r, legacy, screen, n);
    assert(r.kept(legacy, screen, i) ==> i < r.kept_end(legacy, screen, n));
}

/// A frame is not followed by another one for the same screen: of the rows that
/// the second one looks at, each was looked at by the first one or was known
/// already. Rows may be reported as changed again, and rendering may be done
/// otherwise. The same holds where scrollback was pushed before the first frame.
pub proof fn frame_is_idempotent(
    r: RendererState,
    legacy: bool,
    scrollback: Scrollback,
    screen: Screen,
    again_legacy: bool,
    again: Screen,
)
    requires
        forall|i: int|
            0 <= i < r.limit(screen) && #[trigger] again.row_dirty(again_legacy, i) ==> r.looks_at(
                legacy,
                screen,
                i,
            ) || r.remembers(screen, i),
        again.rows == screen.rows,
        again.cursor == screen.cursor,
        forall|i: int| 0 <= i < r.limit(screen) ==> #[trigger] again.line(i) == screen.line(i),
    ensures
        r.after_frame(legacy, screen).frame_seq(again_legacy, again) == Seq::<char>::empty(),
        r.after_flush(scrollback).after_frame(legacy, screen).frame_seq(again_legacy, again)
            == Seq::<char>::empty(),
{
    lemma_frame_again(r, legacy, screen, again_legacy, again);
    lemma_frame_again(r.after_flush(scrollback), legacy, screen, again_legacy, again);
}

proof fn lemma_frame_again(
    r: RendererState,
    legacy: bool,
    screen: Screen,
    again_legacy: bool,
    again: Screen,
)
    requires
        forall|i: int|
            0 <= i < r.limit(screen) && #[trigger] again.row_dirty(again_legacy, i) ==> r.looks_at(
                legacy,
                screen,
                i,
            ) || r.remembers(screen, i),
        again.rows == screen.rows,
        again.cursor == screen.cursor,
        forall|i: int| 0 <= i < r.limit(screen) ==> #[trigger] again.line(i) == screen.line(i),
    ensures
        r.after_frame(legacy, screen).frame_seq(again_legacy, again) == Seq::<char>::empty(),
{
    let s = r.after_frame(legacy, screen);
    let n = r.limit(screen) as int;
    assert forall|i: int| 0 <= i < n implies #[trigger] s.fate(again_legacy, again, i)
        != RowFate::Redrawn by {
        if again.row_dirty(again_legacy, i) {
            rows_are_remembered(r, legacy, screen, i);
            assert(again.line(i) == screen.line(i));
        }
    }
    lemma_no_rows(s, again_legacy, again, n);
    assert(s.frame_seq(again_legacy, again) =~= Seq::<char>::empty());
}

/// Drawing a screen again with its scrollback writes nothing either, once the
/// emulator has no more of it than the terminal has.
pub proof fn drawn_screen_is_not_drawn_again(
    r: RendererState,
    legacy: bool,
    scrolls: bool,
    scrollback: Scrollback,
    screen: Screen,
    again_legacy: bool,
    again_scrolls: bool,
    rest: Scrollback,
    again: Screen,
)
    requires
        forall|i: int|
            0 <= i < r.limit(screen) && #[trigger] again.row_dirty(again_legacy, i) ==> r.looks_at(
                legacy,
                screen,
                i,
            ) || r.remembers(screen, i),
        again.rows == screen.rows,
        again.cursor == screen.cursor,
        forall|i: int| 0 <= i < r.limit(screen) ==> #[trigger] again.line(i) == screen.line(i),
        again_scrolls ==> rest.rows <= frame::before_rows(r, scrolls, scrollback).flushed,
    ensures
        frame::screen_seq(
            frame::after_screen(r, legacy, scrolls, scrollback, screen),
            again_legacy,
            again_scrolls,
            rest,
            again,
        ) == Seq::<char>::empty(),
{
    frame_is_idempotent(r, legacy, scrollback, screen, again_legacy, again);
    assert(frame::screen_seq(
        frame::after_screen(r, legacy, scrolls, scrollback, screen),
        again_legacy,
        again_scrolls,
        rest,
        again,
    ) =~= Seq::<char>::empty());
}

/// After the screen was taken for the last frame, the same screen is not drawn,
/// whatever rows are reported as changed: what the terminal shows is preserved.
pub proof fn synced_screen_writes_nothing(
    r: RendererState,
    screen: Screen,
    legacy: bool,
    again: Screen,
)
    requires
        again.rows == screen.rows,
        again.cursor == screen.cursor,
        forall|i: int| 0 <= i < screen.rows ==> #[trigger] again.line(i) == screen.line(i),
    ensures
        r.synced(screen).frame_seq(legacy, again) == Seq::<char>::empty(),
{
    let s = r.synced(screen);
    let n = s.limit(again) as int;
    assert forall|i: int| 0 <= i < n implies #[trigger] s.fate(legacy, again, i)
        != RowFate::Redrawn by {
        assert(again.line(i) == screen.line(i));
        assert(s.lines[i] == cell::row_ids(screen.line(i)));
    }
    lemma_no_rows(s, legacy, again, n);
    assert(s.frame_seq(legacy, again) =~= Seq::<char>::empty());
}

/// After the renderer was invalidated every row is drawn.
pub proof fn full_redraw_draws_every_row(r: RendererState, legacy: bool, screen: Screen, i: int)
    requires
        !r.cleared,
        0 <= i < r.limit(screen),
    ensures
        r.invalidated().fate(legacy, screen, i) == RowFate::Redrawn,
{
}

/// After the terminal was cleared, exactly those of the rows looked at are
/// drawn that are not blank, and the others have no text: one sequence has
/// blanked them all.
pub proof fn cleared_terminal_needs_only_ink(
    r: RendererState,
    legacy: bool,
    screen: Screen,
    i: int,
)
    requires
        0 <= i,
        r.after_clear().looks_at(legacy, screen, i),
    ensures
        r.after_clear().fate(legacy, screen, i) == (if cell::blank_row(screen.line(i)) {
            RowFate::Blank
        } else {
            RowFate::Redrawn
        }),
        cell::blank_row(screen.line(i)) ==> cell::row_text(screen.line(i)) == Seq::<char>::empty(),
{
    if cell::blank_row(screen.line(i)) {
        cell::blank_row_has_no_text(screen.line(i));
    }
}

/// Pushing scrollback draws only lines that the terminal does not have yet: it
/// does not depend on the others.
pub proof fn flushed_lines_are_not_drawn_again(r: RendererState, a: Scrollback, b: Scrollback)
    requires
        a.rows == b.rows,
        forall|y: int|
            r.flushed <= y < a.rows ==> #[trigger] a.line(y) == b.line(y) && a.wraps(y) == b.wraps(y)
                && a.continues(y) == b.continues(y),
    ensures
        r.flush_seq(a) == r.flush_seq(b),
        r.after_flush(a) == r.after_flush(b),
{
    if r.flushes(a) {
        assert(same_lines(a, b, r.flushed as int));
        lemma_same_batches(r, a, b, r.flushed as int, r.unflushed(a));
    }
}

/// Whether two scrollbacks have the same lines from line `from` on.
spec fn same_lines(a: Scrollback, b: Scrollback, from: int) -> bool {
    forall|y: int|
        from <= y < a.rows ==> #[trigger] a.line(y) == b.line(y) && a.wraps(y) == b.wraps(y)
            && a.continues(y) == b.continues(y)
}

proof fn lemma_same_batches(r: RendererState, a: Scrollback, b: Scrollback, y: int, remaining: int)
    requires
        a.rows == b.rows,
        r.flushed <= y,
        y + remaining <= a.rows,
        same_lines(a, b, r.flushed as int),
    ensures
        renderer::batches_seq(a, y, remaining, r.content_rows) == renderer::batches_seq(
            b,
            y,
            remaining,
            r.content_rows,
        ),
    decreases remaining,
{
    if remaining > 0 && r.content_rows > 0 {
        if remaining <= r.content_rows {
            lemma_same_history(r, a, b, y, remaining);
        } else {
            lemma_same_history(r, a, b, y, r.content_rows as int);
            lemma_same_batches(r, a, b, y + r.content_rows, remaining - r.content_rows);
        }
    }
}

proof fn lemma_same_history(r: RendererState, a: Scrollback, b: Scrollback, y: int, n: int)
    requires
        a.rows == b.rows,
        r.flushed <= y,
        y + n <= a.rows,
        same_lines(a, b, r.flushed as int),
    ensures
        renderer::history_rows_seq(a, y, n) == renderer::history_rows_seq(b, y, n),
    decreases n,
{
    if n > 0 {
        lemma_same_history(r, a, b, y, n - 1);
        assert(a.line(y + n - 1) == b.line(y + n - 1));
        if n > 1 {
            assert(a.line(y + n - 2) == b.line(y + n - 2));
        }
    }
}

/// Scrollback that was pushed and then erased in the emulator is not pushed
/// again, and what follows is a full redraw.
pub proof fn flush_leaves_nothing_to_flush(r: RendererState, before: Scrollback, after: Scrollback)
    requires
        r.flushes(before),
        after.rows == 0,
    ensures
        !r.after_flush(before).flushes(after),
        r.after_flush(before).force_full,
        r.after_flush(before).lines.len() == 0,
{
}

/// Number of line feeds in a text.
pub open spec fn line_feeds(s: Seq<char>) -> nat
    decreases s.len(),
{
    if s.len() == 0 {
        0
    } else if s.last() == '\n' {
        line_feeds(s.drop_last()) + 1
    } else {
        line_feeds(s.drop_last())
    }
}

/// Whether a text stays on its line.
pub open spec fn on_one_line(s: Seq<char>) -> bool {
    forall|i: int| 0 <= i < s.len() ==> #[trigger] s[i] != '\n'
}

/// Whether the texts of a row's cells stay on their line.
pub open spec fn row_on_one_line(cells: Seq<Cell>) -> bool {
    forall|i: int|
        0 <= i < cells.len() && (#[trigger] cells[i]).grid is Some ==> on_one_line(
            cells[i].grid->0.text@,
        )
}

proof fn lemma_feeds_cat(a: Seq<char>, b: Seq<char>)
    ensures
        line_feeds(a + b) == line_feeds(a) + line_feeds(b),
    decreases b.len(),
{
    if b.len() == 0 {
        assert(a + b =~= a);
    } else {
        lemma_feeds_cat(a, b.drop_last());
        assert((a + b).drop_last() =~= a + b.drop_last());
    }
}

proof fn lemma_no_feeds(s: Seq<char>)
    requires
        on_one_line(s),
    ensures
        line_feeds(s) == 0,
    decreases s.len(),
{
    if s.len() > 0 {
        lemma_no_feeds(s.drop_last());
    }
}

proof fn lemma_run_feeds(n: nat)
    ensures
        line_feeds(text::run('\n', n)) == n,
    decreases n,
{
    if n > 0 {
        lemma_run_feeds((n - 1) as nat);
        assert(text::run('\n', n).drop_last() =~= text::run('\n', (n - 1) as nat));
    }
}

proof fn lemma_dec_line(n: nat)
    ensures
        on_one_line(text::dec(n)),
    decreases n,
{
    if n >= 10 {
        lemma_dec_line(n / 10);
    }
}

proof fn lemma_move_line(col: nat, row: nat)
    ensures
        on_one_line(ansi::move_to_seq(col, row)),
{
    reveal_strlit("\x1b[");
    reveal_strlit(";");
    reveal_strlit("H");
    lemma_dec_line(row + 1);
    lemma_dec_line(col + 1);
}

proof fn lemma_color_line(color: StyleColor, base: u8)
    ensures
        on_one_line(cell::color_param(color, base)),
{
    reveal_strlit("");
    reveal_strlit(";");
    reveal_strlit(";5;");
    reveal_strlit(";2;");
    match color {
        StyleColor::Unset => {},
        StyleColor::Palette(p) => {
            lemma_dec_line((base + p) as nat);
            lemma_dec_line((base + 52 + p) as nat);
            lemma_dec_line((base + 8) as nat);
            lemma_dec_line(p as nat);
        },
        StyleColor::Rgb(rgb) => {
            lemma_dec_line((base + 8) as nat);
            lemma_dec_line(rgb.r as nat);
            lemma_dec_line(rgb.g as nat);
            lemma_dec_line(rgb.b as nat);
        },
    }
    assert(on_one_line(cell::color_params(color, base)));
}

proof fn lemma_lines_cat(a: Seq<char>, b: Seq<char>)
    requires
        on_one_line(a),
        on_one_line(b),
    ensures
        on_one_line(a + b),
{
}

proof fn lemma_style_line(style: Style)
    ensures
        on_one_line(cell::style_seq(style)),
{
    reveal_strlit("\x1b[0");
    reveal_strlit(";1");
    reveal_strlit(";2");
    reveal_strlit(";3");
    reveal_strlit(";4");
    reveal_strlit(";4:2");
    reveal_strlit(";4:3");
    reveal_strlit(";4:4");
    reveal_strlit(";4:5");
    reveal_strlit(";5");
    reveal_strlit(";7");
    reveal_strlit(";9");
    reveal_strlit("m");
    lemma_color_line(style.fg_color, 30);
    lemma_color_line(style.bg_color, 40);
    let s1 = "\x1b[0"@ + cell::color_param(style.fg_color, 30);
    let s2 = s1 + cell::color_param(style.bg_color, 40);
    let s3 = s2 + cell::when(style.bold, ";1"@);
    let s4 = s3 + cell::when(style.faint, ";2"@);
    let s5 = s4 + cell::when(style.italic, ";3"@);
    let s6 = s5 + cell::underline_param(style.underline);
    let s7 = s6 + cell::when(style.blink, ";5"@);
    let s8 = s7 + cell::when(style.inverse, ";7"@);
    let s9 = s8 + cell::when(style.strikethrough, ";9"@);
    lemma_lines_cat("\x1b[0"@, cell::color_param(style.fg_color, 30));
    lemma_lines_cat(s1, cell::color_param(style.bg_color, 40));
    lemma_lines_cat(s2, cell::when(style.bold, ";1"@));
    lemma_lines_cat(s3, cell::when(style.faint, ";2"@));
    lemma_lines_cat(s4, cell::when(style.italic, ";3"@));
    lemma_lines_cat(s5, cell::underline_param(style.underline));
    lemma_lines_cat(s6, cell::when(style.blink, ";5"@));
    lemma_lines_cat(s7, cell::when(style.inverse, ";7"@));
    lemma_lines_cat(s8, cell::when(style.strikethrough, ";9"@));
    lemma_lines_cat(s9, "m"@);
}

proof fn lemma_prefix_line(cells: Seq<Cell>, n: int)
    requires
        row_on_one_line(cells),
        0 <= n <= cells.len(),
    ensures
        on_one_line(cell::row_prefix(cells, n).text),
    decreases n,
{
    if n > 0 {
        lemma_prefix_line(cells, n - 1);
        let row = cell::row_prefix(cells, n - 1);
        let c = cells[n - 1];
        reveal_strlit("\x1b[0m");
        lemma_style_line(c.drawn_style());
        let change = cell::style_change(row.style, c.drawn_style());
        assert(on_one_line(change));
        if c.grid is Some {
            lemma_lines_cat(row.text, text::run(' ', row.pending));
            lemma_lines_cat(row.text + text::run(' ', row.pending), change);
            lemma_lines_cat(row.text + text::run(' ', row.pending) + change, c.grid->0.text@);
        }
    }
}

/// A row is drawn on one line, whatever its style, if the texts of its cells
/// stay on their line.
pub proof fn rows_stay_on_their_line(cells: Seq<Cell>)
    requires
        row_on_one_line(cells),
    ensures
        on_one_line(cell::row_text(cells)),
{
    lemma_prefix_line(cells, cells.len() as int);
    reveal_strlit("\x1b[0m");
}

proof fn lemma_history_feeds(scrollback: Scrollback, y: int, n: int)
    requires
        0 <= n,
        forall|i: int| y <= i < y + n ==> row_on_one_line(#[trigger] scrollback.line(i)),
    ensures
        line_feeds(renderer::history_rows_seq(scrollback, y, n)) == 0,
    decreases n,
{
    if n > 0 {
        lemma_history_feeds(scrollback, y, n - 1);
        let rows = renderer::history_rows_seq(scrollback, y, n - 1);
        let jump = cell::when(
            !(scrollback.continues(y + n - 1) && n > 1 && scrollback.wraps(y + n - 2)),
            ansi::move_to_seq(0, (n - 1) as nat),
        );
        let line = cell::row_text(scrollback.line(y + n - 1));
        rows_stay_on_their_line(scrollback.line(y + n - 1));
        lemma_move_line(0, (n - 1) as nat);
        reveal_strlit("\x1b[0m");
        lemma_no_feeds(jump);
        lemma_no_feeds(line);
        lemma_no_feeds(ansi::reset_color_seq());
        lemma_feeds_cat(rows, jump);
        lemma_feeds_cat(rows + jump, line);
        lemma_feeds_cat(rows + jump + line, ansi::reset_color_seq());
    }
}

proof fn lemma_blank_feeds(n: int)
    ensures
        line_feeds(renderer::blank_rows_seq(n)) == 0,
    decreases n,
{
    if n > 0 {
        lemma_blank_feeds(n - 1);
        let rows = renderer::blank_rows_seq(n - 1);
        let jump = ansi::move_to_seq(0, (n - 1) as nat);
        let erase = ansi::erase_seq(ansi::Erase::Line);
        lemma_move_line(0, (n - 1) as nat);
        reveal_strlit("\x1b[2K");
        lemma_no_feeds(jump);
        lemma_no_feeds(erase);
        lemma_feeds_cat(rows, jump);
        lemma_feeds_cat(rows + jump, erase);
    }
}

proof fn lemma_batch_feeds(scrollback: Scrollback, y: int, count: int, content_rows: u16)
    requires
        0 <= count,
        content_rows > 0,
        forall|i: int| y <= i < y + count ==> row_on_one_line(#[trigger] scrollback.line(i)),
    ensures
        line_feeds(renderer::batch_seq(scrollback, y, count, content_rows)) == count,
{
    let blank = renderer::blank_rows_seq(count);
    let rows = renderer::history_rows_seq(scrollback, y, count);
    let jump = ansi::move_to_seq(0, (content_rows - 1) as nat);
    lemma_blank_feeds(count);
    lemma_history_feeds(scrollback, y, count);
    lemma_move_line(0, (content_rows - 1) as nat);
    lemma_no_feeds(jump);
    lemma_run_feeds(count as nat);
    lemma_feeds_cat(blank, rows);
    lemma_feeds_cat(blank + rows, jump);
    lemma_feeds_cat(blank + rows + jump, text::run('\n', count as nat));
}

proof fn lemma_batches_feeds(scrollback: Scrollback, y: int, remaining: int, content_rows: u16)
    requires
        0 <= remaining,
        content_rows > 0,
        forall|i: int| y <= i < y + remaining ==> row_on_one_line(#[trigger] scrollback.line(i)),
    ensures
        line_feeds(renderer::batches_seq(scrollback, y, remaining, content_rows)) == remaining,
    decreases remaining,
{
    if remaining > content_rows {
        lemma_batch_feeds(scrollback, y, content_rows as int, content_rows);
        lemma_batches_feeds(
            scrollback,
            y + content_rows,
            remaining - content_rows,
            content_rows,
        );
        lemma_feeds_cat(
            renderer::batch_seq(scrollback, y, content_rows as int, content_rows),
            renderer::batches_seq(
                scrollback,
                y + content_rows,
                remaining - content_rows,
                content_rows,
            ),
        );
    } else if remaining > 0 {
        lemma_batch_feeds(scrollback, y, remaining, content_rows);
    }
}

/// Pushing scrollback scrolls the terminal by exactly as many lines as it does
/// not have yet: none is lost and none is pushed twice.
pub proof fn flush_scrolls_by_the_new_lines(r: RendererState, scrollback: Scrollback)
    requires
        r.content_rows > 0,
        forall|y: int|
            r.flushed <= y < scrollback.rows ==> row_on_one_line(#[trigger] scrollback.line(y)),
    ensures
        line_feeds(r.flush_seq(scrollback)) == r.unflushed(scrollback),
{
    if r.flushes(scrollback) {
        let region = ansi::scroll_region_seq(1, r.content_rows as nat);
        let batches = renderer::batches_seq(
            scrollback,
            r.flushed as int,
            r.unflushed(scrollback),
            r.content_rows,
        );
        reveal_strlit("\x1b[");
        reveal_strlit(";");
        reveal_strlit("r");
        reveal_strlit("\x1b[r");
        lemma_dec_line(1);
        lemma_dec_line(r.content_rows as nat);
        lemma_no_feeds(region);
        lemma_no_feeds(ansi::reset_scroll_region_seq());
        lemma_batches_feeds(
            scrollback,
            r.flushed as int,
            r.unflushed(scrollback),
            r.content_rows,
        );
        lemma_feeds_cat(region, batches);
        lemma_feeds_cat(region + batches, ansi::reset_scroll_region_seq());
    }
}

/// The state of a batch after chunks, each with what the scanner forwards.
pub open spec fn collected(
    perf: Perf,
    esc: EscapeState,
    chunks: Seq<(Seq<u8>, Seq<u8>)>,
) -> BatchState
    decreases chunks.len(),
{
    if chunks.len() == 0 {
        BatchState::begun(perf, esc)
    } else {
        collected(perf, esc, chunks.drop_last()).with_chunk(chunks.last().0, chunks.last().1)
    }
}

/// What a nested program wrote in chunks.
pub open spec fn written(chunks: Seq<(Seq<u8>, Seq<u8>)>) -> Seq<u8>
    decreases chunks.len(),
{
    if chunks.len() == 0 {
        Seq::empty()
    } else {
        written(chunks.drop_last()) + chunks.last().0
    }
}

/// What the scanner forwards of it.
pub open spec fn passed_on(chunks: Seq<(Seq<u8>, Seq<u8>)>) -> Seq<u8>
    decreases chunks.len(),
{
    if chunks.len() == 0 {
        Seq::empty()
    } else {
        passed_on(chunks.drop_last()) + chunks.last().1
    }
}

/// A batch that is held back holds what the nested program wrote, chunk for
/// chunk and byte for byte: nothing is lost and nothing doubled, and the count
/// of its bytes is the length of it. What the scanner forwards is held back
/// beside it. A batch is held back exactly if it began on the alternate screen
/// and output may be copied through.
pub proof fn held_back_batch_is_verbatim(
    perf: Perf,
    esc: EscapeState,
    chunks: Seq<(Seq<u8>, Seq<u8>)>,
)
    ensures
        ({
            let b = collected(perf, esc, chunks);
            &&& b.wf()
            &&& b.passthrough == (esc.in_alternate_screen && perf.passes_through())
            &&& b.was_in_alt == esc.in_alternate_screen
            &&& b.chunks == chunks.len()
            &&& b.bytes_in == written(chunks).len()
            &&& b.passthrough ==> batch::joined(b.raw) == written(chunks)
            &&& b.passthrough ==> b.raw == Seq::new(chunks.len(), |i: int| chunks[i].0)
            &&& b.passthrough ==> b.forwarded == passed_on(chunks)
        }),
    decreases chunks.len(),
{
    if chunks.len() > 0 {
        held_back_batch_is_verbatim(perf, esc, chunks.drop_last());
        let b = collected(perf, esc, chunks.drop_last());
        assert(b.raw.push(chunks.last().0).drop_last() =~= b.raw);
        if b.passthrough {
            assert(b.raw.push(chunks.last().0) =~= Seq::new(chunks.len(), |i: int| chunks[i].0));
        }
    } else {
        assert(Seq::<Seq<u8>>::empty() =~= Seq::new(0, |i: int| chunks[i].0));
    }
}

/// Legacy rendering draws every batch: none is copied through, even where
/// passthrough is allowed.
pub proof fn legacy_copies_nothing(
    perf: Perf,
    esc: EscapeState,
    after: EscapeState,
    chunks: Seq<(Seq<u8>, Seq<u8>)>,
    h: HarnessState,
)
    requires
        perf.legacy_render,
    ensures
        !collected(perf, esc, chunks).copied(after),
        !h.copies(perf, after),
{
    held_back_batch_is_verbatim(perf, esc, chunks);
}

/// On the way into and out of the alternate screen every row is looked at and
/// drawn, except blank ones on a terminal that is cleared at the same time, and
/// the status line is marked for drawing.
pub proof fn switching_screens_redraws_everything(
    session: ShellSession,
    r: RendererState,
    perf: Perf,
    b: BatchState,
    esc: EscapeState,
    scrollback: Scrollback,
    screen: Screen,
    i: int,
)
    requires
        b.switched(esc),
        !r.cleared,
    ensures
        ({
            let plan = frame::frame_plan(session, r, perf, b, esc, screen.cursor.row);
            let p = frame::before_rows(plan.prepared(r), plan.scrolls, scrollback);
            &&& plan.marks_status
            &&& 0 <= i < p.limit(screen) ==> p.fate(perf.legacy_render, screen, i) == (if plan.clears
                && cell::blank_row(screen.line(i)) {
                RowFate::Blank
            } else {
                RowFate::Redrawn
            })
        }),
{
}

/// The frame of a batch gives up no more rows above the screen than there are,
/// all of them for a full-screen program or an erased screen, and enough of
/// them for the cursor to be visible.
pub proof fn cursor_becomes_visible(r: RendererState, esc: EscapeState, scroll: nat, cursor_row: u16)
    ensures
        ({
            let consumed = frame::offset_consumed(r, esc, scroll, cursor_row);
            let all = esc.in_alternate_screen || esc.erase_display;
            &&& consumed <= r.row_offset
            &&& all ==> consumed == r.row_offset
            &&& cursor_row < r.content_rows && (all || r.row_offset <= r.content_rows) ==> cursor_row
                + (r.row_offset - consumed) < r.content_rows
        }),
{
}

/// A status line has a row of its own: the shell's terminal has one row less
/// than the terminal, unless that would leave it none.
pub proof fn status_line_has_its_own_row(session: ShellSession)
    requires
        session.size.rows >= 2,
    ensures
        session.inner_size().rows + (if session.config.show_status_line {
            1int
        } else {
            0int
        }) == session.size.rows,
        session.inner_size().cols == session.size.cols,
{
}

/// A session that is not profiled counts nothing, be it work or time: every
/// hook leaves some counters in place of the present ones, and none are.
pub proof fn profiling_off_counts_nothing(perf: Perf, a: nat, b: nat, drawn: bool)
    requires
        !perf.profiling,
    ensures
        forall|counters: Counters| #[trigger] perf.counting(counters) == perf,
        perf.with_rows(a, b) == perf,
        perf.with_batch(a, b) == perf,
        perf.with_passthrough() == perf,
        perf.with_status(drawn) == perf,
{
}

/// The rows of a frame are each counted once, as drawn or as skipped.
pub proof fn every_row_is_counted_once(r: RendererState, perf: Perf, screen: Screen)
    ensures
        exists|drawn: nat, skipped: nat|
            drawn + skipped == r.limit(screen) && r.perf_after(perf, screen)
                == #[trigger] perf.with_rows(drawn, skipped),
{
    let n = r.limit(screen) as int;
    renderer::lemma_counts(r, perf.legacy_render, screen, n);
    let drawn = r.redrawn(perf.legacy_render, screen, n);
    assert(r.perf_after(perf, screen) == perf.with_rows(drawn, (n - drawn) as nat));
}

/// The harness writes for a chunk what a session writes for a batch, but for
/// the marks of a synchronized update: on a terminal with no rows above the
/// screen, and unless the scrollback is erased.
pub proof fn harness_mirrors_session(
    session: ShellSession,
    h: HarnessState,
    perf: Perf,
    b: BatchState,
    esc: EscapeState,
    scrollback: Scrollback,
    screen: Screen,
    status: Seq<char>,
)
    requires
        session.config.show_status_line == h.status,
        b.was_in_alt == h.esc.in_alternate_screen,
        h.renderer.row_offset == 0,
        !esc.clear_scrollback,
    ensures
        ({
            let plan = frame::frame_plan(session, h.renderer, perf, b, esc, screen.cursor.row);
            &&& plan.prepared(h.renderer) == h.prepared(perf.legacy_render, esc)
            &&& frame::batch_frame_seq(
                plan,
                h.renderer,
                perf.legacy_render,
                esc,
                scrollback,
                screen,
                status,
            ) == ansi::begin_sync_seq() + h.drawn_seq(
                perf.legacy_render,
                esc,
                scrollback,
                screen,
                status,
            ) + ansi::end_sync_seq()
        }),
{
    let legacy = perf.legacy_render;
    let plan = frame::frame_plan(session, h.renderer, perf, b, esc, screen.cursor.row);
    let p = plan.prepared(h.renderer);
    assert(p == h.prepared(legacy, esc));
    let clear = cell::when(plan.clears, renderer::native_clear_seq());
    let shown = frame::screen_seq(p, legacy, plan.scrolls, scrollback, screen);
    let line = cell::when(plan.draws_status, status);
    let place = renderer::place_seq(screen.cursor, p.row_offset);
    let begin = ansi::begin_sync_seq();
    assert(plan.prepared_seq(h.renderer, esc) =~= clear);
    assert(h.drawn_seq(legacy, esc, scrollback, screen, status) == clear + shown + line + place);
    text::lemma_cat(begin, clear, shown);
    text::lemma_cat(begin, clear + shown, line);
    text::lemma_cat(begin, clear + shown + line, place);
}

/// Fewer bytes than a kibibyte are reported exactly.
pub proof fn small_sizes_are_exact(n: u64)
    requires
        n < 1024,
    ensures
        report::human_bytes_seq(n) == text::dec(n as nat) + " B"@,
{
    assert(report::spacing(n as nat) == 1);
    assert(report::round_half_even(n as nat, 1) == n);
}

} // verus!
