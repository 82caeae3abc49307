//! Frames: what a session writes to the terminal at one go.

use vstd::prelude::*;

use crate::ansi;
use crate::batch::{Batch, BatchState};
use crate::cell;
use crate::perf;
use crate::perf::Perf;
use crate::renderer;
use crate::renderer::{CursorState, Renderer, RendererState, Screen, Scrollback};
use crate::session::{EscapeState, ShellSession};
use crate::text;

verus! {

/// What the frame of a batch is going to do.
#[derive(Clone, Copy, Debug, PartialEq, Eq, Structural)]
pub struct FramePlan {
    /// Whether the batch entered or left the alternate screen.
    pub switched: bool,
    /// Number of rows above the screen that are scrolled off the terminal.
    pub consumed: u16,
    /// Whether the terminal is cleared with one sequence.
    pub clears: bool,
    /// Whether new scrollback lines are pushed into the terminal's scrollback.
    pub scrolls: bool,
    /// Whether the status line has to be drawn even if its text is the same.
    pub marks_status: bool,
    /// Whether the status line is drawn.
    pub draws_status: bool,
}

/// Number of rows by which the cursor is below the last visible row.
pub open spec fn cursor_excess(r: RendererState, cursor_row: u16) -> nat {
    if cursor_row + 1 <= r.visible_rows() {
        0
    } else {
        (cursor_row + 1 - r.visible_rows()) as nat
    }
}

/// Number of rows above the screen that a batch scrolls off the terminal: all
/// of them for a full-screen program or an erased screen, otherwise as many as
/// lines scrolled or as the cursor needs to be visible.
pub open spec fn offset_consumed(
    r: RendererState,
    esc: EscapeState,
    scroll: nat,
    cursor_row: u16,
) -> nat {
    let need = if scroll <= cursor_excess(r, cursor_row) {
        cursor_excess(r, cursor_row)
    } else {
        scroll
    };
    if esc.in_alternate_screen || esc.erase_display || need >= r.row_offset {
        r.row_offset as nat
    } else {
        need
    }
}

/// Whether the terminal is cleared with one sequence: the screen was erased, it
/// is not the alternate one, and nothing is above it.
pub open spec fn clears_screen(row_offset: nat, legacy: bool, esc: EscapeState) -> bool {
    !legacy && esc.erase_display && !esc.in_alternate_screen && row_offset == 0
}

/// Whether scrollback is pushed into the terminal's scrollback: not on the
/// alternate screen, and not while rows above the screen remain.
pub open spec fn pushes_scrollback(row_offset: nat, in_alternate_screen: bool) -> bool {
    !in_alternate_screen && row_offset == 0
}

/// The plan for a batch.
pub open spec fn frame_plan(
    session: ShellSession,
    r: RendererState,
    perf: Perf,
    b: BatchState,
    esc: EscapeState,
    cursor_row: u16,
) -> FramePlan {
    let consumed = offset_consumed(r, esc, b.scroll, cursor_row);
    let offset = (r.row_offset - consumed) as nat;
    let clears = clears_screen(offset, perf.legacy_render, esc);
    FramePlan {
        switched: b.switched(esc),
        consumed: consumed as u16,
        clears,
        scrolls: pushes_scrollback(offset, esc.in_alternate_screen),
        marks_status: b.switched(esc) || clears,
        draws_status: session.shows_status(perf, esc),
    }
}

impl FramePlan {
    /// The renderer after the preparations.
    pub open spec fn prepared(self, r: RendererState) -> RendererState {
        let r1 = if self.switched || self.consumed > 0 {
            RendererState {
                row_offset: (r.row_offset - self.consumed) as u16,
                ..r.invalidated()
            }
        } else {
            r
        };
        if self.clears {
            r1.after_clear()
        } else {
            r1
        }
    }

    /// What the preparations write: the rows above the screen are scrolled off,
    /// the scrollback is erased, the terminal is cleared.
    pub open spec fn prepared_seq(self, r: RendererState, esc: EscapeState) -> Seq<char> {
        renderer::scroll_seq(r.content_rows, self.consumed as nat) + cell::when(
            esc.clear_scrollback,
            ansi::erase_seq(ansi::Erase::Scrollback),
        ) + cell::when(self.clears, renderer::native_clear_seq())
    }
}

/// The renderer when it comes to the screen's rows.
pub open spec fn before_rows(
    r: RendererState,
    scrolls: bool,
    scrollback: Scrollback,
) -> RendererState {
    if scrolls {
        r.after_flush(scrollback)
    } else {
        r
    }
}

/// What draws the screen, with new scrollback lines if `scrolls`.
pub open spec fn screen_seq(
    r: RendererState,
    legacy: bool,
    scrolls: bool,
    scrollback: Scrollback,
    screen: Screen,
) -> Seq<char> {
    cell::when(scrolls, r.flush_seq(scrollback)) + before_rows(r, scrolls, scrollback).frame_seq(
        legacy,
        screen,
    )
}

/// The renderer after that.
pub open spec fn after_screen(
    r: RendererState,
    legacy: bool,
    scrolls: bool,
    scrollback: Scrollback,
    screen: Screen,
) -> RendererState {
    before_rows(r, scrolls, scrollback).after_frame(legacy, screen)
}

/// What the frame of a batch writes, all within one synchronized update.
pub open spec fn batch_frame_seq(
    plan: FramePlan,
    r: RendererState,
    legacy: bool,
    esc: EscapeState,
    scrollback: Scrollback,
    screen: Screen,
    status: Seq<char>,
) -> Seq<char> {
    let p = plan.prepared(r);
    ansi::begin_sync_seq() + plan.prepared_seq(r, esc) + screen_seq(
        p,
        legacy,
        plan.scrolls,
        scrollback,
        screen,
    ) + cell::when(plan.draws_status, status) + renderer::place_seq(screen.cursor, p.row_offset)
        + ansi::end_sync_seq()
}

/// The profiler after the frame of a batch.
pub open spec fn batch_perf(
    plan: FramePlan,
    r: RendererState,
    perf: Perf,
    b: BatchState,
    scrollback: Scrollback,
    screen: Screen,
    drew: bool,
) -> Perf {
    let drawn = before_rows(plan.prepared(r), plan.scrolls, scrollback).perf_after(perf, screen);
    let counted = if plan.draws_status {
        drawn.with_status(drew)
    } else {
        drawn
    };
    counted.with_batch(b.bytes_in, b.chunks)
}

/// Draws the screen, with new scrollback lines if `scrolls`. Returns whether
/// there were any; the emulator's scrollback is to be erased then.
pub fn draw_screen(
    renderer: &mut Renderer,
    out: &mut String,
    perf: &mut Perf,
    scrolls: bool,
    scrollback: &Scrollback,
    screen: &Screen,
) -> (flushed: bool)
    requires
        old(renderer)@.can_place(*screen),
    ensures
        flushed == (scrolls && old(renderer)@.flushes(*scrollback)),
        final(out)@ == old(out)@ + screen_seq(
            old(renderer)@,
            old(perf).legacy_render,
            scrolls,
            *scrollback,
            *screen,
        ),
        final(renderer)@ == after_screen(
            old(renderer)@,
            old(perf).legacy_render,
            scrolls,
            *scrollback,
            *screen,
        ),
        *final(perf) == before_rows(old(renderer)@, scrolls, *scrollback).perf_after(
            *old(perf),
            *screen,
        ),
{
    let ghost r = renderer@;
    let ghost legacy = perf.legacy_render;
    let flushed = if scrolls {
        renderer.render_with_scroll(out, perf, scrollback, screen)
    } else {
        renderer.render(out, perf, screen);
        false
    };
    proof {
        if scrolls {
            text::lemma_cat(
                old(out)@,
                r.flush_seq(*scrollback),
                r.after_flush(*scrollback).frame_seq(legacy, *screen),
            );
        } else {
            assert(cell::when(false, r.flush_seq(*scrollback)) + r.frame_seq(legacy, *screen)
                =~= r.frame_seq(legacy, *screen));
        }
    }
    flushed
}

impl ShellSession {
    /// Decides what the frame of a batch is going to do.
    pub fn plan_frame(
        &self,
        renderer: &Renderer,
        perf: &Perf,
        batch: &Batch,
        esc: &EscapeState,
        cursor_row: u16,
    ) -> (plan: FramePlan)
        ensures
            plan == frame_plan(*self, renderer@, *perf, batch@, *esc, cursor_row),
    {
        let visible_rows: usize = renderer.visible_rows();
        let excess: usize = (cursor_row as usize + 1).saturating_sub(visible_rows);
        let need: usize = if batch.total_scroll <= excess {
            excess
        } else {
            batch.total_scroll
        };
        let consumed: u16 = if esc.in_alternate_screen || esc.erase_display || need
            >= renderer.row_offset as usize {
            renderer.row_offset
        } else {
            need as u16
        };
        let offset: u16 = renderer.row_offset - consumed;
        let switched = batch.was_in_alt != esc.in_alternate_screen;
        let clears = !perf::legacy(perf) && esc.erase_display && !esc.in_alternate_screen && offset
            == 0;
        FramePlan {
            switched,
            consumed,
            clears,
            scrolls: !esc.in_alternate_screen && offset == 0,
            marks_status: switched || clears,
            draws_status: self.draws_status(perf, esc),
        }
    }

    /// Makes the preparations of a frame.
    fn prepare(
        plan: &FramePlan,
        renderer: &mut Renderer,
        out: &mut String,
        esc: &EscapeState,
    )
        requires
            plan.consumed <= old(renderer).row_offset,
        ensures
            final(out)@ == old(out)@ + plan.prepared_seq(old(renderer)@, *esc),
            final(renderer)@ == plan.prepared(old(renderer)@),
    {
        let ghost r = renderer@;
        if plan.switched {
            renderer.invalidate();
        }
        Renderer::scroll_region(out, renderer.content_rows, plan.consumed as usize);
        if plan.consumed > 0 {
            renderer.row_offset = renderer.row_offset - plan.consumed;
            renderer.invalidate();
        }
        let ghost s1 = renderer::scroll_seq(r.content_rows, plan.consumed as nat);
        let ghost s2 = cell::when(
            esc.clear_scrollback,
            ansi::erase_seq(ansi::Erase::Scrollback),
        );
        let ghost s3 = cell::when(plan.clears, renderer::native_clear_seq());
        let ghost shown = out@;
        if esc.clear_scrollback {
            ansi::clear(out, ansi::Erase::Scrollback);
        }
        assert(out@ =~= shown + s2);
        let ghost shown = out@;
        if plan.clears {
            renderer.native_clear(out);
        }
        assert(out@ =~= shown + s3);
        proof {
            text::lemma_cat(old(out)@, s1, s2);
            text::lemma_cat(old(out)@, s1 + s2, s3);
        }
    }

    /// Draws the frame of a batch: the rows that changed, with whatever the
    /// batch calls for before them, then the status line and the cursor. Also
    /// returns whether the emulator's scrollback is to be erased.
    ///
    /// `status` is what the status line draws, and `drew` whether its text
    /// changed; neither is used unless the plan draws the status line.
    pub fn batch_frame(
        &self,
        renderer: &mut Renderer,
        perf: &mut Perf,
        batch: &Batch,
        esc: &EscapeState,
        scrollback: &Scrollback,
        screen: &Screen,
        status: &str,
        drew: bool,
    ) -> (frame: (String, bool))
        requires
            ({
                let plan = frame_plan(
                    *self,
                    old(renderer)@,
                    *old(perf),
                    batch@,
                    *esc,
                    screen.cursor.row,
                );
                renderer::placeable(screen.cursor, plan.prepared(old(renderer)@).row_offset)
            }),
        ensures
            ({
                let plan = frame_plan(
                    *self,
                    old(renderer)@,
                    *old(perf),
                    batch@,
                    *esc,
                    screen.cursor.row,
                );
                let p = plan.prepared(old(renderer)@);
                &&& frame.0@ == batch_frame_seq(
                    plan,
                    old(renderer)@,
                    old(perf).legacy_render,
                    *esc,
                    *scrollback,
                    *screen,
                    status@,
                )
                &&& frame.1 == (plan.scrolls && p.flushes(*scrollback))
                &&& final(renderer)@ == after_screen(
                    p,
                    old(perf).legacy_render,
                    plan.scrolls,
                    *scrollback,
                    *screen,
                )
                &&& *final(perf) == batch_perf(
                    plan,
                    old(renderer)@,
                    *old(perf),
                    batch@,
                    *scrollback,
                    *screen,
                    drew,
                )
            }),
    {
        let plan = self.plan_frame(renderer, perf, batch, esc, screen.cursor.row);
        let ghost r = renderer@;
        let ghost legacy = perf.legacy_render;
        let mut out: String = String::new();
        ansi::begin_sync(&mut out);
        Self::prepare(&plan, renderer, &mut out, esc);
        let ghost p = renderer@;
        let flushed = draw_screen(renderer, &mut out, perf, plan.scrolls, scrollback, screen);
        let ghost shown = out@;
        if plan.draws_status {
            out.append(status);
            perf::record_status(perf, drew);
        }
        assert(out@ =~= shown + cell::when(plan.draws_status, status@));
        renderer.write_cursor(&mut out, screen.cursor);
        ansi::end_sync(&mut out);
        perf::record_batch(perf, batch.bytes_in, batch.chunks);
        assert(Seq::<char>::empty() + ansi::begin_sync_seq() =~= ansi::begin_sync_seq());
        (out, flushed)
    }

    /// Which rows of the screen the frame of a batch looks at. The cells of the
    /// others need not be read.
    pub fn frame_reads(
        plan: &FramePlan,
        renderer: &Renderer,
        perf: &Perf,
        scrollback: &Scrollback,
        screen: &Screen,
    ) -> (read: Vec<bool>)
        requires
            plan.consumed <= renderer.row_offset,
        ensures
            read@ == before_rows(plan.prepared(renderer@), plan.scrolls, *scrollback).read_rows(
                perf.legacy_render,
                *screen,
            ),
    {
        let offset: u16 = renderer.row_offset - plan.consumed;
        let visible: usize = renderer.content_rows.saturating_sub(offset) as usize;
        let flushes = plan.scrolls && scrollback.rows > renderer.scrollback_flushed
            && renderer.content_rows > 0;
        let force = renderer.force_full || plan.switched || plan.consumed > 0 || flushes;
        let read = Renderer::reads(perf, screen, visible, force);
        assert(read@ =~= before_rows(
            plan.prepared(renderer@),
            plan.scrolls,
            *scrollback,
        ).read_rows(perf.legacy_render, *screen));
        read
    }

    /// Draws the status line and the cursor, if the status line is shown: one
    /// step of its spinner, or the end of a notice in it.
    pub fn tick_frame(
        &self,
        renderer: &Renderer,
        perf: &Perf,
        esc: &EscapeState,
        cursor: CursorState,
        status: &str,
    ) -> (frame: Option<String>)
        requires
            self.shows_status(*perf, *esc) ==> renderer::placeable(cursor, renderer.row_offset),
        ensures
            frame is Some <==> self.shows_status(*perf, *esc),
            frame is Some ==> frame->0@ == ansi::begin_sync_seq() + status@ + renderer::place_seq(
                cursor,
                renderer.row_offset,
            ) + ansi::end_sync_seq(),
    {
        if !self.draws_status(perf, esc) {
            return None;
        }
        let mut out: String = String::new();
        ansi::begin_sync(&mut out);
        out.append(status);
        renderer.write_cursor(&mut out, cursor);
        ansi::end_sync(&mut out);
        assert(Seq::<char>::empty() + ansi::begin_sync_seq() =~= ansi::begin_sync_seq());
        Some(out)
    }

    /// Draws the status line and the cursor.
    pub fn status_frame(
        &self,
        renderer: &Renderer,
        cursor: CursorState,
        status: &str,
    ) -> (frame: String)
        requires
            renderer::placeable(cursor, renderer.row_offset),
        ensures
            frame@ == status@ + renderer::place_seq(cursor, renderer.row_offset),
    {
        let mut out: String = String::new();
        out.append(status);
        renderer.write_cursor(&mut out, cursor);
        assert(Seq::<char>::empty() + status@ =~= status@);
        out
    }

    /// Draws the screen after a build error was printed on it, the status line
    /// and the cursor. Also returns whether the emulator's scrollback is to be
    /// erased.
    pub fn error_frame(
        &self,
        renderer: &mut Renderer,
        perf: &mut Perf,
        scrollback: &Scrollback,
        screen: &Screen,
        status: &str,
    ) -> (frame: (String, bool))
        requires
            renderer::placeable(screen.cursor, old(renderer).row_offset),
        ensures
            ({
                let r = old(renderer)@;
                let scrolls = r.row_offset == 0;
                let legacy = old(perf).legacy_render;
                &&& frame.0@ == screen_seq(r, legacy, scrolls, *scrollback, *screen) + status@
                    + renderer::place_seq(screen.cursor, r.row_offset)
                &&& frame.1 == (scrolls && r.flushes(*scrollback))
                &&& final(renderer)@ == after_screen(r, legacy, scrolls, *scrollback, *screen)
                &&& *final(perf) == before_rows(r, scrolls, *scrollback).perf_after(
                    *old(perf),
                    *screen,
                )
            }),
    {
        let scrolls = renderer.row_offset == 0;
        let ghost s = screen_seq(
            renderer@,
            perf.legacy_render,
            scrolls,
            *scrollback,
            *screen,
        );
        let mut out: String = String::new();
        let flushed = draw_screen(renderer, &mut out, perf, scrolls, scrollback, screen);
        assert(Seq::<char>::empty() + s =~= s);
        out.append(status);
        renderer.write_cursor(&mut out, screen.cursor);
        (out, flushed)
    }

    /// Draws the screen after a command, and the status line with the cursor
    /// where it is shown. Nothing is drawn on the alternate screen, which
    /// belongs to a nested program, unless rendering is legacy. Also returns
    /// whether the emulator's scrollback is to be erased.
    pub fn command_frame(
        &self,
        renderer: &mut Renderer,
        perf: &mut Perf,
        esc: &EscapeState,
        scrollback: &Scrollback,
        screen: &Screen,
        status: &str,
    ) -> (frame: Option<(String, bool)>)
        requires
            !esc.in_alternate_screen || old(perf).legacy_render ==> {
                &&& old(renderer)@.can_place(*screen)
                &&& self.shows_status(*old(perf), *esc) ==> renderer::placeable(
                    screen.cursor,
                    old(renderer).row_offset,
                )
            },
        ensures
            frame is Some <==> !esc.in_alternate_screen || old(perf).legacy_render,
            frame is None ==> final(renderer)@ == old(renderer)@ && *final(perf) == *old(perf),
            frame is Some ==> {
                let r = old(renderer)@;
                let scrolls = r.row_offset == 0;
                let legacy = old(perf).legacy_render;
                &&& (frame->0).0@ == ansi::begin_sync_seq() + screen_seq(
                    r,
                    legacy,
                    scrolls,
                    *scrollback,
                    *screen,
                ) + cell::when(
                    self.shows_status(*old(perf), *esc),
                    status@ + renderer::place_seq(screen.cursor, r.row_offset),
                ) + ansi::end_sync_seq()
                &&& (frame->0).1 == (scrolls && r.flushes(*scrollback))
                &&& final(renderer)@ == after_screen(r, legacy, scrolls, *scrollback, *screen)
                &&& *final(perf) == before_rows(r, scrolls, *scrollback).perf_after(
                    *old(perf),
                    *screen,
                )
            },
    {
        if esc.in_alternate_screen && !perf::legacy(perf) {
            return None;
        }
        let shows = self.draws_status(perf, esc);
        let scrolls = renderer.row_offset == 0;
        let mut out: String = String::new();
        ansi::begin_sync(&mut out);
        assert(out@ =~= ansi::begin_sync_seq());
        let flushed = draw_screen(renderer, &mut out, perf, scrolls, scrollback, screen);
        let ghost shown = out@;
        let ghost closing = status@ + renderer::place_seq(screen.cursor, renderer.row_offset);
        if shows {
            out.append(status);
            renderer.write_cursor(&mut out, screen.cursor);
        }
        assert(out@ =~= shown + cell::when(shows, closing));
        ansi::end_sync(&mut out);
        Some((out, flushed))
    }

    /// Draws the first frame. Where rows of the terminal above the screen are
    /// in use the screen is only taken note of; otherwise all of it is drawn.
    pub fn opening_frame(
        &self,
        renderer: &mut Renderer,
        perf: &mut Perf,
        row_offset: u16,
        screen: &Screen,
        status: &str,
    ) -> (frame: String)
        requires
            old(renderer).row_offset == 0,
            renderer::placeable(screen.cursor, row_offset),
        ensures
            ({
                let r = old(renderer)@;
                let legacy = old(perf).legacy_render;
                let closing = cell::when(self.config.show_status_line, status@)
                    + renderer::place_seq(screen.cursor, row_offset);
                if row_offset > 0 {
                    &&& frame@ == closing
                    &&& final(renderer)@ == (RendererState { row_offset, ..r }).synced(*screen)
                    &&& *final(perf) == *old(perf)
                } else {
                    &&& frame@ == r.invalidated().frame_seq(legacy, *screen) + closing
                    &&& final(renderer)@ == r.invalidated().after_frame(legacy, *screen)
                    &&& *final(perf) == r.invalidated().perf_after(*old(perf), *screen)
                }
            }),
    {
        let ghost r = renderer@;
        let ghost legacy = perf.legacy_render;
        let mut out: String = String::new();
        if row_offset > 0 {
            renderer.row_offset = row_offset;
            renderer.sync(screen);
        } else {
            renderer.render_full(&mut out, perf, screen);
        }
        let ghost drawn = out@;
        if self.config.show_status_line {
            out.append(status);
        }
        renderer.write_cursor(&mut out, screen.cursor);
        let ghost closing = cell::when(self.config.show_status_line, status@)
            + renderer::place_seq(screen.cursor, row_offset);
        assert(out@ =~= drawn + closing);
        assert(Seq::<char>::empty() + closing =~= closing);
        assert(Seq::<char>::empty() + r.invalidated().frame_seq(legacy, *screen)
            =~= r.invalidated().frame_seq(legacy, *screen));
        out
    }

    /// Draws everything anew after a resize.
    pub fn resize_frame(
        &self,
        renderer: &mut Renderer,
        perf: &mut Perf,
        esc: &EscapeState,
        screen: &Screen,
        status: &str,
    ) -> (frame: String)
        requires
            renderer::placeable(screen.cursor, old(renderer).row_offset),
        ensures
            frame@ == old(renderer)@.invalidated().frame_seq(old(perf).legacy_render, *screen)
                + cell::when(
                self.config.show_status_line && !esc.in_alternate_screen,
                status@,
            ) + renderer::place_seq(screen.cursor, old(renderer).row_offset),
            final(renderer)@ == old(renderer)@.invalidated().after_frame(
                old(perf).legacy_render,
                *screen,
            ),
            *final(perf) == old(renderer)@.invalidated().perf_after(*old(perf), *screen),
    {
        let ghost drawn = renderer@.invalidated().frame_seq(perf.legacy_render, *screen);
        let mut out: String = String::new();
        renderer.render_full(&mut out, perf, screen);
        assert(out@ =~= drawn);
        let shows = self.config.show_status_line && !esc.in_alternate_screen;
        if shows {
            out.append(status);
        }
        assert(out@ =~= drawn + cell::when(shows, status@));
        renderer.write_cursor(&mut out, screen.cursor);
        out
    }

    /// What blanks the status line and leaves the cursor where it is.
    pub open spec fn clear_status_seq(self, esc: EscapeState) -> Seq<char> {
        cell::when(
            self.config.show_status_line && !esc.in_alternate_screen,
            ansi::save_cursor_seq() + ansi::move_to_seq(0, (self.size.rows - 1) as nat)
                + ansi::erase_seq(ansi::Erase::Line) + ansi::restore_cursor_seq(),
        )
    }

    /// Blanks the status line when the session ends.
    pub fn clear_status_row(&self, out: &mut String, esc: &EscapeState)
        requires
            self.config.show_status_line && !esc.in_alternate_screen ==> self.size.rows > 0,
        ensures
            final(out)@ == old(out)@ + self.clear_status_seq(*esc),
    {
        if self.config.show_status_line && !esc.in_alternate_screen {
            ansi::save_cursor(out);
            ansi::move_to(out, 0, self.size.rows - 1);
            ansi::clear(out, ansi::Erase::Line);
            ansi::restore_cursor(out);
        }
        assert(out@ =~= old(out)@ + self.clear_status_seq(*esc));
    }

    /// Ends the session: blanks the status line, then writes `cleanup`, which
    /// resets the modes that the nested program left set.
    pub fn closing_bytes(&self, out: &mut Vec<u8>, esc: &EscapeState, cleanup: &[u8])
        requires
            self.config.show_status_line && !esc.in_alternate_screen ==> self.size.rows > 0,
        ensures
            final(out)@ == old(out)@ + vstd::utf8::encode_utf8(self.clear_status_seq(*esc))
                + cleanup@,
    {
        let mut row: String = String::new();
        self.clear_status_row(&mut row, esc);
        assert(row@ =~= self.clear_status_seq(*esc));
        text::append_text(out, row.as_str());
        text::append_bytes(out, cleanup);
    }

    /// Draws the screen a last time, when the shell exited in the middle of a
    /// batch.
    pub fn last_frame(
        &self,
        renderer: &mut Renderer,
        perf: &mut Perf,
        scrollback: &Scrollback,
        screen: &Screen,
    ) -> (frame: String)
        requires
            old(renderer)@.can_place(*screen),
        ensures
            frame@ == screen_seq(
                old(renderer)@,
                old(perf).legacy_render,
                true,
                *scrollback,
                *screen,
            ),
            final(renderer)@ == after_screen(
                old(renderer)@,
                old(perf).legacy_render,
                true,
                *scrollback,
                *screen,
            ),
            *final(perf) == before_rows(old(renderer)@, true, *scrollback).perf_after(
                *old(perf),
                *screen,
            ),
    {
        let ghost s = screen_seq(renderer@, perf.legacy_render, true, *scrollback, *screen);
        let mut out: String = String::new();
        draw_screen(renderer, &mut out, perf, true, scrollback, screen);
        assert(out@ =~= s);
        out
    }
}

} // verus!
