//! Drives the render pipeline chunk by chunk into a buffer, without a shell or
//! a terminal.

use vstd::prelude::*;

use crate::cell;
use crate::frame;
use crate::frame::FramePlan;
use crate::perf;
use crate::perf::Perf;
use crate::renderer;
use crate::renderer::{Renderer, RendererState, Screen, Scrollback};
use crate::session;
use crate::session::{EscapeState, PtySize, Scan};
use crate::text;

verus! {

/// A render pipeline that writes into a buffer.
#[derive(Debug)]
pub struct RenderHarness {
    pub renderer: Renderer,
    pub esc: EscapeState,
    /// Whether there is a status line.
    pub status: bool,
    pub size: PtySize,
    pub out: Vec<u8>,
}

/// State of a harness.
#[verifier::ext_equal]
pub struct HarnessState {
    pub renderer: RendererState,
    pub esc: EscapeState,
    pub status: bool,
    pub size: PtySize,
    pub out: Seq<u8>,
}

impl View for RenderHarness {
    type V = HarnessState;

    open spec fn view(&self) -> HarnessState {
        HarnessState {
            renderer: self.renderer@,
            esc: self.esc,
            status: self.status,
            size: self.size,
            out: self.out@,
        }
    }
}

impl HarnessState {
    /// Whether a chunk is copied through: the alternate screen is active before
    /// and after it, and output may be copied.
    pub open spec fn copies(self, perf: Perf, esc: EscapeState) -> bool {
        self.esc.in_alternate_screen && perf.passes_through() && esc.in_alternate_screen
    }

    /// The renderer when it comes to drawing.
    pub open spec fn prepared(self, legacy: bool, esc: EscapeState) -> RendererState {
        let r = if self.esc.in_alternate_screen != esc.in_alternate_screen {
            self.renderer.invalidated()
        } else {
            self.renderer
        };
        if frame::clears_screen(r.row_offset as nat, legacy, esc) {
            r.after_clear()
        } else {
            r
        }
    }

    /// What a chunk that is not copied through draws.
    pub open spec fn drawn_seq(
        self,
        legacy: bool,
        esc: EscapeState,
        scrollback: Scrollback,
        screen: Screen,
        status: Seq<char>,
    ) -> Seq<char> {
        let offset = self.renderer.row_offset;
        cell::when(
            frame::clears_screen(offset as nat, legacy, esc),
            renderer::native_clear_seq(),
        ) + frame::screen_seq(
            self.prepared(legacy, esc),
            legacy,
            frame::pushes_scrollback(offset as nat, esc.in_alternate_screen),
            scrollback,
            screen,
        ) + cell::when(
            session::status_shown(self.status, legacy, esc.in_alternate_screen),
            status,
        ) + renderer::place_seq(screen.cursor, offset)
    }

    /// The harness after a chunk.
    pub open spec fn after_chunk(
        self,
        perf: Perf,
        chunk: Seq<u8>,
        scan: Scan,
        scrollback: Scrollback,
        screen: Screen,
        status: Seq<char>,
    ) -> HarnessState {
        let legacy = perf.legacy_render;
        if self.copies(perf, scan.esc) {
            HarnessState { esc: scan.esc, out: self.out + chunk, ..self }
        } else {
            HarnessState {
                renderer: frame::after_screen(
                    self.prepared(legacy, scan.esc),
                    legacy,
                    frame::pushes_scrollback(
                        self.renderer.row_offset as nat,
                        scan.esc.in_alternate_screen,
                    ),
                    scrollback,
                    screen,
                ),
                esc: scan.esc,
                out: self.out + scan.forwarded@ + vstd::utf8::encode_utf8(
                    self.drawn_seq(legacy, scan.esc, scrollback, screen, status),
                ),
                ..self
            }
        }
    }
}

impl RenderHarness {
    /// A harness for a terminal of the given size, with a status line or not.
    pub fn new(cols: u16, rows: u16, status_line: bool) -> (harness: RenderHarness)
        ensures
            harness@ == (HarnessState {
                renderer: harness@.renderer,
                esc: EscapeState {
                    in_alternate_screen: false,
                    erase_display: false,
                    clear_scrollback: false,
                    in_band_resize: false,
                },
                status: status_line,
                size: session::cells_size(cols, rows),
                out: Seq::empty(),
            }),
            harness@.renderer == (RendererState {
                lines: Seq::empty(),
                cursor: renderer::CursorState { col: 0, row: 0, visible: true },
                row_offset: 0,
                content_rows: rows,
                flushed: 0,
                force_full: false,
                cleared: false,
            }),
    {
        RenderHarness {
            renderer: Renderer::new(rows),
            esc: EscapeState {
                in_alternate_screen: false,
                erase_display: false,
                clear_scrollback: false,
                in_band_resize: false,
            },
            status: status_line,
            size: PtySize { rows, cols, pixel_width: 0, pixel_height: 0 },
            out: Vec::new(),
        }
    }

    /// Whether a chunk is copied through. The emulator is not fed then.
    pub fn copies_chunk(&self, perf: &Perf, scan: &Scan) -> (yes: bool)
        ensures
            yes == self@.copies(*perf, scan.esc),
    {
        self.esc.in_alternate_screen && perf::passthrough(perf) && scan.esc.in_alternate_screen
    }

    /// Decides what the frame of a chunk that is not copied through is going to
    /// do. A status line has to be drawn even if its text is the same where the
    /// terminal is cleared.
    pub fn plan(&self, perf: &Perf, scan: &Scan) -> (plan: FramePlan)
        ensures
            ({
                let offset = self.renderer.row_offset as nat;
                let in_alt = scan.esc.in_alternate_screen;
                let clears = frame::clears_screen(offset, perf.legacy_render, scan.esc);
                plan == (FramePlan {
                    switched: self.esc.in_alternate_screen != in_alt,
                    consumed: 0,
                    clears,
                    scrolls: frame::pushes_scrollback(offset, in_alt),
                    marks_status: self.status && clears,
                    draws_status: session::status_shown(self.status, perf.legacy_render, in_alt),
                })
            }),
            plan.prepared(self@.renderer) == self@.prepared(perf.legacy_render, scan.esc),
    {
        let legacy = perf::legacy(perf);
        let in_alt = scan.esc.in_alternate_screen;
        let top = self.renderer.row_offset == 0;
        let clears = !legacy && scan.esc.erase_display && !in_alt && top;
        FramePlan {
            switched: self.esc.in_alternate_screen != in_alt,
            consumed: 0,
            clears,
            scrolls: !in_alt && top,
            marks_status: self.status && clears,
            draws_status: self.status && (legacy || !in_alt),
        }
    }

    /// Pushes one chunk of a nested program's output through the pipeline.
    /// `scan` is what the escape scanner made of it; `scrollback` and `screen`
    /// are the emulator's after the chunk was fed to it, and `status` is what
    /// the status line draws. A chunk that begins and ends on the alternate
    /// screen is copied, and none of the three is used. Before the status line
    /// is drawn it has to be marked for that if the plan says so. Returns whether
    /// the emulator's scrollback is to be erased.
    pub fn feed(
        &mut self,
        perf: &mut Perf,
        chunk: &[u8],
        scan: &Scan,
        scrollback: &Scrollback,
        screen: &Screen,
        status: &str,
    ) -> (flushed: bool)
        requires
            !old(self)@.copies(*old(perf), scan.esc) ==> renderer::placeable(
                screen.cursor,
                old(self).renderer.row_offset,
            ),
        ensures
            ({
                let h = old(self)@;
                let legacy = old(perf).legacy_render;
                let p = h.prepared(legacy, scan.esc);
                let scrolls = frame::pushes_scrollback(
                    h.renderer.row_offset as nat,
                    scan.esc.in_alternate_screen,
                );
                if h.copies(*old(perf), scan.esc) {
                    &&& !flushed
                    &&& final(self)@ == (HarnessState { esc: scan.esc, out: h.out + chunk@, ..h })
                    &&& *final(perf) == old(perf).with_passthrough()
                } else {
                    &&& flushed == (scrolls && p.flushes(*scrollback))
                    &&& final(self)@ == (HarnessState {
                        renderer: frame::after_screen(p, legacy, scrolls, *scrollback, *screen),
                        esc: scan.esc,
                        out: h.out + scan.forwarded@ + vstd::utf8::encode_utf8(
                            h.drawn_seq(legacy, scan.esc, *scrollback, *screen, status@),
                        ),
                        ..h
                    })
                    &&& *final(perf) == frame::before_rows(p, scrolls, *scrollback).perf_after(
                        *old(perf),
                        *screen,
                    )
                }
            }),
            final(self)@ == old(self)@.after_chunk(
                *old(perf),
                chunk@,
                *scan,
                *scrollback,
                *screen,
                status@,
            ),
    {
        let copied = self.copies_chunk(perf, scan);
        let plan = self.plan(perf, scan);
        let ghost legacy = perf.legacy_render;
        self.esc = scan.esc;
        if copied {
            text::append_bytes(&mut self.out, chunk);
            perf::record_passthrough(perf);
            return false;
        }
        let ghost h = old(self)@;
        text::append_bytes(&mut self.out, scan.forwarded.as_slice());
        if plan.switched {
            self.renderer.invalidate();
        }
        let mut drawn: String = String::new();
        if plan.clears {
            self.renderer.native_clear(&mut drawn);
        }
        assert(drawn@ =~= cell::when(plan.clears, renderer::native_clear_seq()));
        assert(self.renderer@ == h.prepared(legacy, scan.esc));
        let flushed = frame::draw_screen(
            &mut self.renderer,
            &mut drawn,
            perf,
            plan.scrolls,
            scrollback,
            screen,
        );
        let ghost shown = drawn@;
        if plan.draws_status {
            drawn.append(status);
        }
        assert(drawn@ =~= shown + cell::when(plan.draws_status, status@));
        self.renderer.write_cursor(&mut drawn, screen.cursor);
        assert(drawn@ == h.drawn_seq(legacy, scan.esc, *scrollback, *screen, status@));
        text::append_text(&mut self.out, drawn.as_str());
        flushed
    }

    /// Number of bytes written so far.
    pub fn output_len(&self) -> (len: usize)
        ensures
            len == self@.out.len(),
    {
        self.out.len()
    }

    /// The bytes written so far.
    pub fn output_bytes(&self) -> (bytes: &[u8])
        ensures
            bytes@ == self@.out,
    {
        self.out.as_slice()
    }

    /// Drops what was written so far and keeps all else.
    pub fn reset_output(&mut self)
        ensures
            final(self)@ == (HarnessState { out: Seq::empty(), ..old(self)@ }),
    {
        self.out.clear();
    }
}

} // verus!
