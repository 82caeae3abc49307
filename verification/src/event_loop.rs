//! The event loop of a session, as steps: each takes what came of the work
//! that the step before asked for, and says what to do next.

use vstd::prelude::*;

use crate::ansi;
use crate::batch;
use crate::batch::{Batch, BatchState, ExitPlan, Settled};
use crate::cell;
use crate::frame;
use crate::frame::FramePlan;
use crate::messages;
use crate::perf;
use crate::perf::Perf;
use crate::renderer;
use crate::renderer::{CursorState, HistoryLine, Renderer, RendererState, Screen, Scrollback};
use crate::session;
use crate::session::{
    Drained, EscapeState, Event, ResizePlan, Scan, ShellCommand, ShellEvent, ShellSession,
    StatusUpdate, StdinAction, Wait,
};
use crate::text;

verus! {

/// A session in its event loop.
pub struct EventLoop {
    pub session: ShellSession,
    pub renderer: Renderer,
    /// What the escape scanner knows.
    pub esc: EscapeState,
    /// Whether a resize was put off.
    pub resize_pending: bool,
}

/// State of an event loop.
#[verifier::ext_equal]
pub struct LoopState {
    pub session: ShellSession,
    pub renderer: RendererState,
    pub esc: EscapeState,
    pub resize_pending: bool,
}

impl View for EventLoop {
    type V = LoopState;

    open spec fn view(&self) -> LoopState {
        LoopState {
            session: self.session,
            renderer: self.renderer@,
            esc: self.esc,
            resize_pending: self.resize_pending,
        }
    }
}

impl LoopState {
    /// The renderer draws into the rows of the shell's terminal.
    pub open spec fn wf(self) -> bool {
        self.renderer.content_rows == self.session.inner_size().rows
    }
}

/// What the emulator is looked at for.
#[derive(Debug)]
pub enum Purpose {
    /// The first frame, below this many rows of the terminal.
    Opening(u16),
    /// The frame of a batch.
    Batch(Batch),
    /// The frame that shows the build error.
    Error,
    /// The frame after a command.
    Command,
    /// A step of the spinner, or the end of a notice.
    Tick,
    /// The status line alone.
    Status,
    /// The frame after a resize.
    Resize,
    /// The last frame, before the exit with this code.
    Last(Option<u32>),
}

/// What the emulator is fed.
#[derive(Debug)]
pub enum Food {
    /// A chunk of the shell's output, which may end within a character.
    Chunk(Vec<u8>),
    Text(String),
}

/// What comes when the emulator has been fed.
#[derive(Debug)]
pub enum After {
    /// The batch goes on.
    Batch(Batch),
    /// The batch goes on after a command printed something.
    Print(Batch),
    /// The build error is shown.
    Error,
    /// What the command printed is shown.
    Command,
    /// These chunks come next, then the frame of the batch.
    Fold(Batch, Vec<Vec<u8>>),
    /// These chunks come next, then the exit with this code.
    Leave(Option<u32>, Vec<Vec<u8>>),
}

/// How a session ends.
#[derive(Clone, Copy, Debug, PartialEq, Eq)]
pub enum Ending {
    /// With this code, once the status line is blanked and the modes are reset.
    Close(Option<u32>),
    /// With this code, once the modes are reset and the screen is drawn.
    Draw(Option<u32>),
}

/// The emulator at a glance.
#[derive(Clone, Copy, Debug, PartialEq, Eq, Structural)]
pub struct Sight {
    pub rows: u16,
    pub cursor: CursorState,
    /// Number of scrollback lines.
    pub scrollback_rows: usize,
}

/// Work that the event loop asks for.
#[derive(Debug)]
pub enum Next {
    /// Wait as `wait` says; goes on with `timed_out`, `closed`, `arrived`, or
    /// as after `Measure`.
    Wait,
    /// Measure the terminal; goes on with `measured`.
    Measure,
    /// Scan the chunk for escape sequences, after forgetting what was erased
    /// if it is the first of a batch; goes on with `scanned`.
    Scan { batch: Batch, chunk: Vec<u8>, first: bool },
    /// Feed the emulator; goes on with `fed`.
    Feed { food: Food, then_do: After },
    /// See whether an event is there already; goes on with `polled`.
    Poll(Batch),
    /// Look at the emulator; goes on with `looked`.
    Look(Purpose),
    /// Read the scrollback from this line on and erase it, then read and reset
    /// the change marks of this many rows; goes on with `probed`.
    Probe { purpose: Purpose, sight: Sight, history: Option<usize>, marks: Option<usize> },
    /// Read the cells of these rows, and draw the status line if asked to;
    /// goes on with `read`.
    Read {
        purpose: Purpose,
        scrollback: Scrollback,
        /// The screen, but for its cells.
        screen: Screen,
        rows: Vec<bool>,
        status: bool,
    },
    /// Find out what resets the modes that the nested program left set; goes
    /// on with `cleaned`.
    Cleanup(Ending),
    /// End with this code.
    Exit(Option<u32>),
}

/// One step: what it writes and tells, and the work that it asks for then.
#[derive(Debug)]
pub struct Turn {
    /// What is written to the terminal.
    pub terminal: Vec<u8>,
    /// Whether the terminal's buffer is flushed after that.
    pub flush: bool,
    /// What is written to the shell, and flushed, if anything.
    pub shell: Vec<u8>,
    /// What the status line is told.
    pub status: StatusUpdate,
    /// How the shell's terminal and the emulator are resized.
    pub resize: Option<ResizePlan>,
    /// What the coordinator is told.
    pub tell: Option<ShellEvent>,
    pub next: Next,
}

/// What a step writes and tells.
#[verifier::ext_equal]
pub struct Effects {
    pub terminal: Seq<u8>,
    pub flush: bool,
    pub shell: Seq<u8>,
    pub status: StatusUpdate,
    pub resize: Option<ResizePlan>,
    pub tell: Option<ShellEvent>,
}

impl Effects {
    /// Nothing.
    pub open spec fn none() -> Effects {
        Effects {
            terminal: Seq::empty(),
            flush: false,
            shell: Seq::empty(),
            status: StatusUpdate::Keep,
            resize: None,
            tell: None,
        }
    }

    /// A text to the terminal, and a flush.
    pub open spec fn shown(frame: Seq<char>) -> Effects {
        Effects { terminal: vstd::utf8::encode_utf8(frame), flush: true, ..Effects::none() }
    }
}

impl Turn {
    /// What the step writes and tells.
    pub open spec fn effects(self) -> Effects {
        Effects {
            terminal: self.terminal@,
            flush: self.flush,
            shell: self.shell@,
            status: self.status,
            resize: self.resize,
            tell: self.tell,
        }
    }

    /// A step that only asks for work.
    fn quiet(next: Next) -> (turn: Turn)
        ensures
            turn.effects() == Effects::none(),
            turn.next == next,
    {
        let turn = Turn {
            terminal: Vec::new(),
            flush: false,
            shell: Vec::new(),
            status: StatusUpdate::Keep,
            resize: None,
            tell: None,
            next,
        };
        assert(turn.effects() =~= Effects::none());
        turn
    }

    /// A step that shows a frame.
    fn show(frame: &str, next: Next) -> (turn: Turn)
        ensures
            turn.effects() == Effects::shown(frame@),
            turn.next == next,
    {
        let mut turn = Turn::quiet(next);
        text::append_text(&mut turn.terminal, frame);
        turn.flush = true;
        assert(turn.effects() =~= Effects::shown(frame@));
        turn
    }
}

/// Whether the work is to show the status line if that is shown at all, and to
/// wait otherwise.
pub open spec fn ticks(next: Next, shows: bool) -> bool {
    next == (if shows {
        Next::Look(Purpose::Tick)
    } else {
        Next::Wait
    })
}

/// Whether the work is to draw the frame after a command, unless the alternate
/// screen belongs to a nested program.
pub open spec fn draws_command(next: Next, esc: EscapeState, legacy: bool) -> bool {
    next == (if !esc.in_alternate_screen || legacy {
        Next::Look(Purpose::Command)
    } else {
        Next::Wait
    })
}

/// Whether the work is to feed the chunks and then to draw the frame of the
/// batch.
pub open spec fn folds(next: Next, b: BatchState, chunks: Seq<Seq<u8>>) -> bool {
    if chunks.len() == 0 {
        next is Look && next->Look_0 is Batch && (next->Look_0)->Batch_0@ == b
    } else {
        &&& next matches Next::Feed { food: Food::Chunk(chunk), then_do: After::Fold(left, rest) }
        &&& chunk@ == chunks[0]
        &&& left@ == b
        &&& batch::contents(rest@) == chunks.skip(1)
    }
}

/// Whether the work is to feed the chunks and then to leave with the code.
pub open spec fn leaves(next: Next, code: Option<u32>, chunks: Seq<Seq<u8>>) -> bool {
    if chunks.len() == 0 {
        next == Next::Cleanup(Ending::Draw(code))
    } else {
        &&& next matches Next::Feed { food: Food::Chunk(chunk), then_do: After::Leave(c, rest) }
        &&& chunk@ == chunks[0]
        &&& c == code
        &&& batch::contents(rest@) == chunks.skip(1)
    }
}

impl Next {
    /// The chunks that are still to be fed before the frame of the batch, or
    /// before the exit.
    pub open spec fn pending(self) -> Seq<Seq<u8>> {
        match self {
            Next::Feed { food: Food::Chunk(chunk), then_do: After::Fold(_, rest) } => seq![chunk@]
                + batch::contents(rest@),
            Next::Feed { food: Food::Chunk(chunk), then_do: After::Leave(_, rest) } => seq![chunk@]
                + batch::contents(rest@),
            _ => Seq::empty(),
        }
    }
}

/// Whether the work is to go on collecting the batch.
pub open spec fn polls(next: Next, b: BatchState) -> bool {
    next is Poll && next->Poll_0@ == b
}

/// What comes of a scanned chunk: where the batch is held back, the chunk joins
/// it with what the scanner forwards, which goes to the terminal otherwise,
/// while the chunk is fed to the emulator.
pub open spec fn scans(collected: BatchState, chunk: Vec<u8>, scan: Scan, turn: Turn) -> bool {
    &&& turn.effects() == (Effects {
        terminal: if collected.passthrough {
            Seq::empty()
        } else {
            scan.forwarded@
        },
        ..Effects::none()
    })
    &&& collected.passthrough ==> polls(
        turn.next,
        collected.with_chunk(chunk@, scan.forwarded@),
    )
    &&& !collected.passthrough ==> {
        &&& turn.next matches Next::Feed { food: Food::Chunk(food), then_do: After::Batch(b) }
        &&& food == chunk
        &&& b@ == collected.with_chunk(chunk@, scan.forwarded@)
    }
}

/// Number of lines that scrolled off the screen.
pub open spec fn scrolled(before: Option<usize>, after: Option<usize>) -> nat {
    let b: int = if before is Some {
        before->0 as int
    } else {
        0
    };
    let a: int = if after is Some {
        after->0 as int
    } else {
        0
    };
    if a >= b {
        (a - b) as nat
    } else {
        0
    }
}

/// Takes out the first of some chunks.
fn first_chunk(chunks: &mut Vec<Vec<u8>>) -> (chunk: Vec<u8>)
    requires
        old(chunks)@.len() > 0,
    ensures
        chunk@ == batch::contents(old(chunks)@)[0],
        batch::contents(final(chunks)@) == batch::contents(old(chunks)@).skip(1),
{
    let chunk = chunks.remove(0);
    assert(batch::contents(chunks@) =~= batch::contents(old(chunks)@).skip(1));
    chunk
}

/// Feeds the chunks, then draws the frame of the batch.
fn fold(b: Batch, chunks: Vec<Vec<u8>>) -> (next: Next)
    ensures
        folds(next, b@, batch::contents(chunks@)),
        next.pending() == batch::contents(chunks@),
{
    let mut rest = chunks;
    if rest.len() == 0 {
        Next::Look(Purpose::Batch(b))
    } else {
        let chunk = first_chunk(&mut rest);
        assert(seq![chunk@] + batch::contents(rest@) =~= batch::contents(chunks@));
        Next::Feed { food: Food::Chunk(chunk), then_do: After::Fold(b, rest) }
    }
}

/// Feeds the chunks, then leaves with the code.
fn leave(code: Option<u32>, chunks: Vec<Vec<u8>>) -> (next: Next)
    ensures
        leaves(next, code, batch::contents(chunks@)),
        next.pending() == batch::contents(chunks@),
{
    let mut rest = chunks;
    if rest.len() == 0 {
        Next::Cleanup(Ending::Draw(code))
    } else {
        let chunk = first_chunk(&mut rest);
        assert(seq![chunk@] + batch::contents(rest@) =~= batch::contents(chunks@));
        Next::Feed { food: Food::Chunk(chunk), then_do: After::Leave(code, rest) }
    }
}

impl EventLoop {
    /// A session at the start of its event loop, below `row_offset` rows of
    /// the terminal, with the emulator's screen to be looked at first.
    pub fn open(session: ShellSession, row_offset: u16) -> (opened: (EventLoop, Turn))
        ensures
            opened.0@ == (LoopState {
                session,
                renderer: RendererState {
                    lines: Seq::empty(),
                    cursor: CursorState { col: 0, row: 0, visible: true },
                    row_offset: 0,
                    content_rows: session.inner_size().rows,
                    flushed: 0,
                    force_full: false,
                    cleared: false,
                },
                esc: EscapeState {
                    in_alternate_screen: false,
                    erase_display: false,
                    clear_scrollback: false,
                    in_band_resize: false,
                },
                resize_pending: false,
            }),
            opened.0@.wf(),
            opened.1.effects() == Effects::none(),
            opened.1.next == Next::Look(Purpose::Opening(row_offset)),
    {
        let renderer = Renderer::new(session.pty_size().rows);
        let opened = EventLoop {
            session,
            renderer,
            esc: EscapeState {
                in_alternate_screen: false,
                erase_display: false,
                clear_scrollback: false,
                in_band_resize: false,
            },
            resize_pending: false,
        };
        (opened, Turn::quiet(Next::Look(Purpose::Opening(row_offset))))
    }

    /// Decides how to wait. A resize that was put off is no longer pending.
    pub fn wait(&mut self, building: bool, notice: bool) -> (wait: Wait)
        ensures
            final(self)@ == (LoopState { resize_pending: false, ..old(self)@ }),
            wait == (if old(self).resize_pending {
                Wait::ResizeNow
            } else if building {
                Wait::SpinnerStep
            } else if notice {
                Wait::ReloadNotice
            } else {
                Wait::Event
            }),
            wait == session::wait_for(old(self).resize_pending, building, notice),
    {
        session::next_wait(&mut self.resize_pending, building, notice)
    }

    /// No event came in time: the spinner takes a step, or the notice of a
    /// reload goes away.
    pub fn timed_out(&self, perf: &Perf, wait: Wait) -> (turn: Turn)
        ensures
            turn.effects() == (Effects {
                status: if wait == Wait::ReloadNotice {
                    StatusUpdate::ClearReloaded
                } else {
                    StatusUpdate::Keep
                },
                ..Effects::none()
            }),
            ticks(turn.next, self.session.shows_status(*perf, self.esc)),
    {
        let next = if self.session.draws_status(perf, &self.esc) {
            Next::Look(Purpose::Tick)
        } else {
            Next::Wait
        };
        let mut turn = Turn::quiet(next);
        if wait == Wait::ReloadNotice {
            turn.status = StatusUpdate::ClearReloaded;
        }
        turn
    }

    /// No event will ever come: the session ends.
    pub fn closed(&self) -> (turn: Turn)
        ensures
            turn.effects() == Effects::none(),
            turn.next == Next::Cleanup(Ending::Close(None)),
    {
        Turn::quiet(Next::Cleanup(Ending::Close(None)))
    }

    /// Asks for the frame after a command.
    fn command_drawn(&self, perf: &Perf) -> (next: Next)
        ensures
            draws_command(next, self.esc, perf.legacy_render),
    {
        if !self.esc.in_alternate_screen || perf::legacy(perf) {
            Next::Look(Purpose::Command)
        } else {
            Next::Wait
        }
    }

    /// What comes of an event. Three keys belong to the session and all other
    /// input to the shell; output begins a batch; an exit of the shell and a
    /// command to shut down end the session.
    pub open spec fn arrives(
        &self,
        perf: Perf,
        event: Event,
        error: Option<&str>,
        shown: bool,
        turn: Turn,
    ) -> bool {
        match event {
            Event::Stdin(data) => if data@ == session::key_toggle_pause() {
                &&& turn.effects() == (Effects {
                    tell: Some(ShellEvent::TogglePause),
                    ..Effects::none()
                })
                &&& turn.next == Next::Wait
            } else if data@ == session::key_list_watched() {
                &&& turn.effects() == (Effects {
                    tell: Some(ShellEvent::ListWatchedFiles),
                    ..Effects::none()
                })
                &&& turn.next == Next::Wait
            } else if data@ == session::key_toggle_error() {
                match error {
                    None => turn.effects() == Effects::none() && turn.next == Next::Wait,
                    Some(e) => if shown {
                        &&& turn.effects() == (Effects {
                            shell: seq![0x0cu8],
                            status: StatusUpdate::ErrorShown(false),
                            ..Effects::none()
                        })
                        &&& turn.next == Next::Look(Purpose::Status)
                    } else {
                        &&& turn.effects() == (Effects {
                            status: StatusUpdate::ErrorShown(true),
                            ..Effects::none()
                        })
                        &&& turn.next matches Next::Feed {
                            food: Food::Text(text),
                            then_do: After::Error,
                        }
                        &&& text@ == messages::error_seq(e@)
                    },
                }
            } else {
                &&& turn.effects() == (Effects { shell: data@, ..Effects::none() })
                &&& turn.next == Next::Wait
            },
            Event::PtyOutput(data) => {
                &&& turn.effects() == Effects::none()
                &&& turn.next matches Next::Scan { batch, chunk, first }
                &&& batch@ == BatchState::begun(perf, self.esc)
                &&& chunk == data
                &&& first
            },
            Event::PtyExit(code) => {
                &&& turn.effects() == Effects::none()
                &&& turn.next == Next::Cleanup(Ending::Close(code))
            },
            Event::Command(command) => {
                &&& turn.effects() == (Effects {
                    status: session::status_of(command),
                    ..Effects::none()
                })
                &&& match command {
                    ShellCommand::PrintWatchedFiles { files } => {
                        &&& turn.next matches Next::Feed {
                            food: Food::Text(text),
                            then_do: After::Command,
                        }
                        &&& text@ == messages::watched_seq(messages::views(files@))
                    },
                    ShellCommand::Shutdown => turn.next == Next::Cleanup(Ending::Close(None)),
                    _ => draws_command(turn.next, self.esc, perf.legacy_render),
                }
            },
            Event::Resize => {
                &&& turn.effects() == Effects::none()
                &&& turn.next == Next::Measure
            },
        }
    }

    /// An event came. `error` is the build error if there is one, and `shown`
    /// whether it is being shown. An exit of the shell or a command to shut down
    /// ends the session.
    pub fn arrived(&self, perf: &Perf, event: Event, error: Option<&str>, shown: bool) -> (turn:
        Turn)
        ensures
            self.arrives(*perf, event, error, shown, turn),
    {
        match event {
            Event::Stdin(data) => {
                proof {
                    assert(session::key_toggle_pause()[1] != session::key_list_watched()[1]);
                    assert(session::key_toggle_pause()[1] != session::key_toggle_error()[1]);
                    assert(session::key_list_watched()[1] != session::key_toggle_error()[1]);
                }
                match session::stdin_action(data.as_slice(), error, shown) {
                    StdinAction::Nothing => {
                        assert(data@.len() == 0 ==> data@ =~= Seq::<u8>::empty());
                        Turn::quiet(Next::Wait)
                    },
                    StdinAction::Tell(event) => {
                        let mut turn = Turn::quiet(Next::Wait);
                        turn.tell = Some(event);
                        turn
                    },
                    StdinAction::ShowError(text) => {
                        let mut turn = Turn::quiet(
                            Next::Feed { food: Food::Text(text), then_do: After::Error },
                        );
                        turn.status = StatusUpdate::ErrorShown(true);
                        turn
                    },
                    StdinAction::HideError(repaint) => {
                        let mut turn = Turn::quiet(Next::Look(Purpose::Status));
                        turn.shell = repaint;
                        turn.status = StatusUpdate::ErrorShown(false);
                        turn
                    },
                    StdinAction::Forward => {
                        let mut turn = Turn::quiet(Next::Wait);
                        turn.shell = data;
                        turn
                    },
                }
            },
            Event::PtyOutput(data) => {
                let batch = Batch::begin(perf, &self.esc);
                Turn::quiet(Next::Scan { batch, chunk: data, first: true })
            },
            Event::PtyExit(code) => Turn::quiet(Next::Cleanup(Ending::Close(code))),
            Event::Command(command) => {
                let effect = session::handle_command(command);
                let next = if effect.ends {
                    Next::Cleanup(Ending::Close(None))
                } else {
                    match effect.print {
                        Some(text) => Next::Feed {
                            food: Food::Text(text),
                            then_do: After::Command,
                        },
                        None => self.command_drawn(perf),
                    }
                };
                let mut turn = Turn::quiet(next);
                turn.status = effect.status;
                turn
            },
            Event::Resize => Turn::quiet(Next::Measure),
        }
    }

    /// The terminal was measured, in columns and rows, `None` if that failed.
    /// Where the size changed, everything is resized, and drawn anew unless a
    /// nested program that is being copied through does it.
    pub fn measured(&mut self, perf: &Perf, detected: Option<(u16, u16)>) -> (turn: Turn)
        ensures
            final(self).esc == old(self).esc,
            final(self).resize_pending == old(self).resize_pending,
            old(self)@.wf() ==> final(self)@.wf(),
            !old(self).session.resized(detected) ==> {
                &&& final(self)@ == old(self)@
                &&& turn.effects() == Effects::none()
                &&& turn.next == Next::Wait
            },
            old(self).session.resized(detected) ==> {
                let copied = old(self).esc.in_alternate_screen && perf.passes_through();
                let pty = final(self).session.inner_size();
                let r = RendererState {
                    row_offset: 0,
                    content_rows: pty.rows,
                    ..old(self)@.renderer
                };
                &&& final(self).session == (ShellSession {
                    size: session::cells_size((detected->0).0, (detected->0).1),
                    ..old(self).session
                })
                &&& final(self)@.renderer == (if copied {
                    r.invalidated()
                } else {
                    RendererState { flushed: 0, ..r }
                })
                &&& turn.effects() == (Effects {
                    status: StatusUpdate::Redraw,
                    resize: Some(
                        ResizePlan {
                            pty,
                            notify: old(self).esc.in_band_resize,
                            repaint: !copied,
                        },
                    ),
                    tell: if copied {
                        Some(ShellEvent::Resize { cols: pty.cols, rows: pty.rows })
                    } else {
                        None
                    },
                    ..Effects::none()
                })
                &&& turn.next == (if copied {
                    Next::Wait
                } else {
                    Next::Look(Purpose::Resize)
                })
            },
            detected is Some ==> final(self).session.size.cols == (detected->0).0
                && final(self).session.size.rows == (detected->0).1,
            (final(self).session, final(self)@.renderer, turn.resize) == old(
                self,
            ).session.after_resize(old(self)@.renderer, *perf, old(self).esc, detected),
    {
        match self.session.resize(&mut self.renderer, perf, &self.esc, detected) {
            None => Turn::quiet(Next::Wait),
            Some(plan) => {
                let mut turn = if plan.repaint {
                    Turn::quiet(Next::Look(Purpose::Resize))
                } else {
                    let mut turn = Turn::quiet(Next::Wait);
                    turn.tell = Some(
                        ShellEvent::Resize { cols: plan.pty.cols, rows: plan.pty.rows },
                    );
                    turn
                };
                turn.status = StatusUpdate::Redraw;
                turn.resize = Some(plan);
                turn
            },
        }
    }

    /// A chunk was scanned. What the scanner forwards goes to the terminal and
    /// the chunk to the emulator, unless the batch is held back.
    pub fn scanned(&mut self, collected: Batch, chunk: Vec<u8>, scan: &Scan) -> (turn: Turn)
        requires
            collected@.wf(),
            collected.bytes_in + chunk@.len() <= usize::MAX,
            collected.chunks < usize::MAX,
        ensures
            final(self)@ == (LoopState { esc: scan.esc, ..old(self)@ }),
            scans(collected@, chunk, *scan, turn),
            collected@.with_chunk(chunk@, scan.forwarded@).wf(),
    {
        self.esc = scan.esc;
        let mut b = collected;
        let mut terminal: Vec<u8> = Vec::new();
        let feed = b.add_chunk(&mut terminal, chunk, scan.forwarded.as_slice());
        let next = match feed {
            Some(food) => Next::Feed { food: Food::Chunk(food), then_do: After::Batch(b) },
            None => Next::Poll(b),
        };
        let mut turn = Turn::quiet(next);
        turn.terminal = terminal;
        assert(turn.terminal@ =~= (if collected.passthrough {
            Seq::empty()
        } else {
            scan.forwarded@
        }));
        turn
    }

    /// What comes when the emulator has been fed and had these row counts before
    /// and after. The lines that scrolled off count for the batch, unless a
    /// command printed them while it is held back.
    pub open spec fn feeds(
        &self,
        perf: Perf,
        then_do: After,
        before: Option<usize>,
        after: Option<usize>,
        turn: Turn,
    ) -> bool {
        match then_do {
            After::Batch(b) => polls(
                turn.next,
                BatchState { scroll: b@.scroll + scrolled(before, after), ..b@ },
            ),
            After::Print(b) => polls(
                turn.next,
                BatchState {
                    scroll: if b.passthrough {
                        b@.scroll
                    } else {
                        b@.scroll + scrolled(before, after)
                    },
                    ..b@
                },
            ),
            After::Error => turn.next == Next::Look(Purpose::Error),
            After::Command => draws_command(turn.next, self.esc, perf.legacy_render),
            After::Fold(b, rest) => folds(
                turn.next,
                BatchState { scroll: b@.scroll + scrolled(before, after), ..b@ },
                batch::contents(rest@),
            ),
            After::Leave(code, rest) => leaves(turn.next, code, batch::contents(rest@)),
        }
    }

    /// The emulator was fed; its row counts were these before and after.
    pub fn fed(
        &self,
        perf: &Perf,
        then_do: After,
        before: Option<usize>,
        after: Option<usize>,
    ) -> (turn: Turn)
        requires
            match then_do {
                After::Batch(b) => b.total_scroll + scrolled(before, after) <= usize::MAX,
                After::Print(b) => b.total_scroll + scrolled(before, after) <= usize::MAX,
                After::Fold(b, _) => b.total_scroll + scrolled(before, after) <= usize::MAX,
                _ => true,
            },
        ensures
            turn.effects() == Effects::none(),
            self.feeds(*perf, then_do, before, after, turn),
            then_do matches After::Fold(_, rest) ==> turn.next.pending() == batch::contents(rest@),
            then_do matches After::Leave(_, rest) ==> turn.next.pending() == batch::contents(rest@),
    {
        let lines: usize = session::scroll_count(before, after);
        let next = match then_do {
            After::Batch(b) => {
                let mut b = b;
                b.add_scroll(lines);
                Next::Poll(b)
            },
            After::Print(b) => {
                let mut b = b;
                b.add_command_scroll(lines);
                Next::Poll(b)
            },
            After::Error => Next::Look(Purpose::Error),
            After::Command => self.command_drawn(perf),
            After::Fold(b, rest) => {
                let mut b = b;
                b.add_scroll(lines);
                fold(b, rest)
            },
            After::Leave(code, rest) => leave(code, rest),
        };
        Turn::quiet(next)
    }

    /// The batch is complete: it is copied to the terminal, or its frame comes
    /// next.
    fn settled(&self, perf: &mut Perf, collected: Batch) -> (turn: Turn)
        ensures
            self.settles(*old(perf), *final(perf), collected@, turn),
            collected.passthrough && !self.esc.in_alternate_screen ==> turn.next.pending()
                == collected@.raw,
    {
        let mut b = collected;
        let mut terminal: Vec<u8> = Vec::new();
        let settled = b.settle(&mut terminal, perf, &self.esc);
        let turn = match settled {
            Settled::Copied => {
                let mut turn = Turn::quiet(Next::Wait);
                turn.terminal = terminal;
                turn.flush = true;
                assert(turn.terminal@ =~= batch::joined(collected@.raw));
                turn
            },
            Settled::Fold(chunks) => {
                let mut turn = Turn::quiet(fold(b, chunks));
                turn.terminal = terminal;
                assert(turn.terminal@ =~= collected@.forwarded);
                turn
            },
            Settled::Draw => Turn::quiet(Next::Look(Purpose::Batch(b))),
        };
        turn
    }

    /// What comes of a complete batch: one that stayed on the alternate screen
    /// is copied to the terminal, byte for byte, and counted. One that left it
    /// has what was forwarded written, and its chunks fed to the emulator. All
    /// but the first are drawn.
    pub open spec fn settles(&self, perf: Perf, after: Perf, b: BatchState, turn: Turn) -> bool {
        if b.copied(self.esc) {
            &&& turn.effects() == (Effects {
                terminal: batch::joined(b.raw),
                flush: true,
                ..Effects::none()
            })
            &&& turn.next == Next::Wait
            &&& after == perf.with_passthrough().with_batch(b.bytes_in, b.chunks)
        } else if b.passthrough {
            &&& turn.effects() == (Effects { terminal: b.forwarded, ..Effects::none() })
            &&& folds(turn.next, BatchState { raw: Seq::empty(), ..b }, b.raw)
            &&& after == perf
        } else {
            &&& turn.effects() == Effects::none()
            &&& folds(turn.next, b, Seq::empty())
            &&& after == perf
        }
    }

    /// What comes of a batch in which the session ends. On the alternate screen
    /// what was held back is dropped and the terminal restored; otherwise what
    /// was forwarded is written, the chunks held back are fed to the emulator,
    /// and its screen is drawn a last time.
    pub open spec fn exits(&self, b: BatchState, code: Option<u32>, turn: Turn) -> bool {
        if b.copied(self.esc) {
            &&& turn.effects() == Effects::none()
            &&& turn.next == Next::Cleanup(Ending::Close(code))
        } else {
            &&& turn.effects() == (Effects { terminal: b.forwarded, ..Effects::none() })
            &&& leaves(turn.next, code, b.raw)
        }
    }

    /// The session ends within the batch.
    fn exited(&self, collected: Batch, code: Option<u32>) -> (turn: Turn)
        requires
            collected@.wf(),
        ensures
            self.exits(collected@, code, turn),
            !(collected.passthrough && self.esc.in_alternate_screen) ==> turn.next.pending()
                == collected@.raw,
    {
        let mut b = collected;
        let mut terminal: Vec<u8> = Vec::new();
        match b.settle_exit(&mut terminal, &self.esc) {
            ExitPlan::Restore => Turn::quiet(Next::Cleanup(Ending::Close(code))),
            ExitPlan::Draw(chunks) => {
                let mut turn = Turn::quiet(leave(code, chunks));
                turn.terminal = terminal;
                assert(turn.terminal@ =~= collected@.forwarded);
                turn
            },
        }
    }

    /// What comes of an event while a batch is being collected, and of there
    /// being none. More output joins the batch, input goes to the shell, and
    /// the batch goes on after a command; a resize completes it, and so does
    /// that there is no event. An exit of the shell and a command to shut down
    /// end the session.
    pub open spec fn takes(
        &self,
        perf: Perf,
        after: Perf,
        collected: BatchState,
        event: Option<Event>,
        turn: Turn,
    ) -> bool {
        match event {
            None => self.settles(perf, after, collected, turn),
            Some(Event::Resize) => self.settles(perf, after, collected, turn),
            Some(Event::PtyOutput(data)) => {
                &&& turn.effects() == Effects::none()
                &&& turn.next matches Next::Scan { batch, chunk, first }
                &&& batch@ == collected
                &&& chunk == data
                &&& !first
                &&& after == perf
            },
            Some(Event::PtyExit(code)) => {
                &&& self.exits(collected, code, turn)
                &&& after == perf
            },
            Some(Event::Command(ShellCommand::Shutdown)) => {
                &&& self.exits(collected, None, turn)
                &&& after == perf
            },
            Some(Event::Stdin(data)) => {
                &&& turn.effects() == (Effects { shell: data@, ..Effects::none() })
                &&& polls(turn.next, collected)
                &&& after == perf
            },
            Some(Event::Command(command)) => {
                &&& turn.effects() == (Effects {
                    status: session::status_of(command),
                    ..Effects::none()
                })
                &&& match command {
                    ShellCommand::PrintWatchedFiles { files } => {
                        &&& turn.next matches Next::Feed {
                            food: Food::Text(text),
                            then_do: After::Print(b),
                        }
                        &&& text@ == messages::watched_seq(messages::views(files@))
                        &&& b@ == collected
                    },
                    _ => polls(turn.next, collected),
                }
                &&& after == perf
            },
        }
    }

    /// Either an event was there already, or the batch is complete. A command to
    /// shut down ends the session as an exit of the shell without a code does.
    pub fn polled(&mut self, perf: &mut Perf, collected: Batch, event: Option<Event>) -> (turn: Turn)
        requires
            collected@.wf(),
        ensures
            final(self)@ == (LoopState {
                resize_pending: old(self).resize_pending || event == Some(Event::Resize),
                ..old(self)@
            }),
            old(self).takes(*old(perf), *final(perf), collected@, event, turn),
            match event {
                None => true,
                Some(Event::Resize) => true,
                Some(Event::PtyExit(_)) => true,
                Some(Event::Command(ShellCommand::Shutdown)) => true,
                _ => false,
            } && collected.passthrough && !old(self).esc.in_alternate_screen
                ==> turn.next.pending() == collected@.raw,
    {
        let event = match event {
            None => {
                return self.settled(perf, collected);
            },
            Some(event) => event,
        };
        match session::drain(event, &mut self.resize_pending) {
            Drained::Nothing => {
                let turn = Turn::quiet(Next::Poll(collected));
                assert(turn.shell@ =~= event->Stdin_0@);
                turn
            },
            Drained::Chunk(data) => Turn::quiet(
                Next::Scan { batch: collected, chunk: data, first: false },
            ),
            Drained::Exit(code) => self.exited(collected, code),
            Drained::Forward(data) => {
                let mut turn = Turn::quiet(Next::Poll(collected));
                turn.shell = data;
                turn
            },
            Drained::Command(command) => {
                let effect = session::handle_command(command);
                if effect.ends {
                    return self.exited(collected, None);
                }
                let next = match effect.print {
                    Some(text) => Next::Feed {
                        food: Food::Text(text),
                        then_do: After::Print(collected),
                    },
                    None => Next::Poll(collected),
                };
                let mut turn = Turn::quiet(next);
                turn.status = effect.status;
                turn
            },
            Drained::Stop => self.settled(perf, collected),
        }
    }

    /// What comes when it is known what resets the modes.
    pub open spec fn cleans(&self, ending: Ending, cleanup: Seq<u8>, turn: Turn) -> bool {
        match ending {
            Ending::Close(code) => {
                &&& turn.effects() == (Effects {
                    terminal: vstd::utf8::encode_utf8(self.session.clear_status_seq(self.esc))
                        + cleanup,
                    flush: true,
                    ..Effects::none()
                })
                &&& turn.next == Next::Exit(code)
            },
            Ending::Draw(code) => {
                &&& turn.effects() == (Effects { terminal: cleanup, ..Effects::none() })
                &&& turn.next == Next::Look(Purpose::Last(code))
            },
        }
    }

    /// It is known what resets the modes. The status line is blanked and the
    /// modes reset, or only the latter where the screen is drawn after that.
    pub fn cleaned(&self, ending: Ending, cleanup: &[u8]) -> (turn: Turn)
        requires
            ending is Close && self.session.config.show_status_line
                && !self.esc.in_alternate_screen ==> self.session.size.rows > 0,
        ensures
            self.cleans(ending, cleanup@, turn),
    {
        match ending {
            Ending::Close(code) => {
                let mut turn = Turn::quiet(Next::Exit(code));
                self.session.closing_bytes(&mut turn.terminal, &self.esc, cleanup);
                turn.flush = true;
                assert(turn.terminal@ =~= vstd::utf8::encode_utf8(
                    self.session.clear_status_seq(self.esc),
                ) + cleanup@);
                turn
            },
            Ending::Draw(code) => {
                let mut turn = Turn::quiet(Next::Look(Purpose::Last(code)));
                text::append_bytes(&mut turn.terminal, cleanup);
                assert(turn.terminal@ =~= cleanup@);
                turn
            },
        }
    }
}

impl Purpose {
    /// Whether rows of the screen are drawn. Where rows of the terminal above
    /// the screen are in use, the first frame only takes note of it.
    pub open spec fn draws_rows(self) -> bool {
        match self {
            Purpose::Opening(row_offset) => row_offset == 0,
            Purpose::Tick => false,
            Purpose::Status => false,
            _ => true,
        }
    }
}

impl LoopState {
    /// What a frame is going to do.
    pub open spec fn plan(self, perf: Perf, purpose: Purpose, cursor_row: u16) -> FramePlan {
        let same = FramePlan {
            switched: false,
            consumed: 0,
            clears: false,
            scrolls: false,
            marks_status: false,
            draws_status: true,
        };
        match purpose {
            Purpose::Opening(_) => FramePlan {
                switched: true,
                draws_status: self.session.config.show_status_line,
                ..same
            },
            Purpose::Batch(b) => frame::frame_plan(
                self.session,
                self.renderer,
                perf,
                b@,
                self.esc,
                cursor_row,
            ),
            Purpose::Error => FramePlan { scrolls: self.renderer.row_offset == 0, ..same },
            Purpose::Command => FramePlan {
                scrolls: self.renderer.row_offset == 0,
                draws_status: self.session.shows_status(perf, self.esc),
                ..same
            },
            Purpose::Tick => same,
            Purpose::Status => same,
            Purpose::Resize => FramePlan {
                switched: true,
                draws_status: self.session.config.show_status_line
                    && !self.esc.in_alternate_screen,
                ..same
            },
            Purpose::Last(_) => FramePlan { scrolls: true, draws_status: false, ..same },
        }
    }

    /// The renderer after the preparations of a frame.
    pub open spec fn prepared(self, perf: Perf, purpose: Purpose, cursor_row: u16) -> RendererState {
        self.plan(perf, purpose, cursor_row).prepared(self.renderer)
    }

    /// Whether the frame can place the cursor, if it has to.
    pub open spec fn can_show(self, perf: Perf, purpose: Purpose, screen: Screen) -> bool {
        let offset = self.renderer.row_offset;
        match purpose {
            Purpose::Opening(row_offset) => offset == 0 && renderer::placeable(
                screen.cursor,
                row_offset,
            ),
            Purpose::Batch(_) => renderer::placeable(
                screen.cursor,
                self.prepared(perf, purpose, screen.cursor.row).row_offset,
            ),
            Purpose::Command => !self.esc.in_alternate_screen || perf.legacy_render ==> {
                &&& self.renderer.can_place(screen)
                &&& self.session.shows_status(perf, self.esc) ==> renderer::placeable(
                    screen.cursor,
                    offset,
                )
            },
            Purpose::Tick => self.session.shows_status(perf, self.esc) ==> renderer::placeable(
                screen.cursor,
                offset,
            ),
            Purpose::Last(_) => self.renderer.can_place(screen),
            _ => renderer::placeable(screen.cursor, offset),
        }
    }

    /// The renderer when it comes to the screen's rows.
    pub open spec fn before_rows(
        self,
        perf: Perf,
        purpose: Purpose,
        scrollback: Scrollback,
        screen: Screen,
    ) -> RendererState {
        let plan = self.plan(perf, purpose, screen.cursor.row);
        frame::before_rows(plan.prepared(self.renderer), plan.scrolls, scrollback)
    }

    /// Which rows a frame looks at.
    pub open spec fn read_rows(
        self,
        perf: Perf,
        purpose: Purpose,
        scrollback: Scrollback,
        screen: Screen,
    ) -> Seq<bool> {
        if purpose.draws_rows() {
            self.before_rows(perf, purpose, scrollback, screen).read_rows(
                perf.legacy_render,
                screen,
            )
        } else if purpose is Opening {
            Seq::new(screen.rows as nat, |i: int| true)
        } else {
            Seq::empty()
        }
    }

    /// What the first frame writes. It is drawn if nothing is above the screen.
    pub open spec fn opening_seq(
        self,
        legacy: bool,
        row_offset: u16,
        screen: Screen,
        status: Seq<char>,
    ) -> Seq<char> {
        let closing = cell::when(self.session.config.show_status_line, status)
            + renderer::place_seq(screen.cursor, row_offset);
        if row_offset > 0 {
            closing
        } else {
            self.renderer.invalidated().frame_seq(legacy, screen) + closing
        }
    }

    /// What a frame writes.
    pub open spec fn frame_seq(
        self,
        perf: Perf,
        purpose: Purpose,
        scrollback: Scrollback,
        screen: Screen,
        status: Seq<char>,
    ) -> Seq<char> {
        let legacy = perf.legacy_render;
        let r = self.renderer;
        let plan = self.plan(perf, purpose, screen.cursor.row);
        let place = renderer::place_seq(screen.cursor, r.row_offset);
        match purpose {
            Purpose::Opening(row_offset) => self.opening_seq(legacy, row_offset, screen, status),
            Purpose::Batch(_) => frame::batch_frame_seq(
                plan,
                r,
                legacy,
                self.esc,
                scrollback,
                screen,
                status,
            ),
            Purpose::Error => frame::screen_seq(r, legacy, plan.scrolls, scrollback, screen)
                + status + place,
            Purpose::Command => if self.esc.in_alternate_screen && !legacy {
                Seq::empty()
            } else {
                ansi::begin_sync_seq() + frame::screen_seq(
                    r,
                    legacy,
                    plan.scrolls,
                    scrollback,
                    screen,
                ) + cell::when(plan.draws_status, status + place) + ansi::end_sync_seq()
            },
            Purpose::Tick => cell::when(
                self.session.shows_status(perf, self.esc),
                ansi::begin_sync_seq() + status + place + ansi::end_sync_seq(),
            ),
            Purpose::Status => status + place,
            Purpose::Resize => r.invalidated().frame_seq(legacy, screen) + cell::when(
                plan.draws_status,
                status,
            ) + place,
            Purpose::Last(_) => frame::screen_seq(r, legacy, true, scrollback, screen),
        }
    }

    /// The renderer after a frame.
    pub open spec fn after_frame(
        self,
        perf: Perf,
        purpose: Purpose,
        scrollback: Scrollback,
        screen: Screen,
    ) -> RendererState {
        let plan = self.plan(perf, purpose, screen.cursor.row);
        match purpose {
            Purpose::Opening(row_offset) => if row_offset > 0 {
                (RendererState { row_offset, ..self.renderer }).synced(screen)
            } else {
                self.renderer.invalidated().after_frame(perf.legacy_render, screen)
            },
            Purpose::Tick => self.renderer,
            Purpose::Status => self.renderer,
            Purpose::Command => if self.esc.in_alternate_screen && !perf.legacy_render {
                self.renderer
            } else {
                frame::after_screen(
                    self.renderer,
                    perf.legacy_render,
                    plan.scrolls,
                    scrollback,
                    screen,
                )
            },
            _ => frame::after_screen(
                plan.prepared(self.renderer),
                perf.legacy_render,
                plan.scrolls,
                scrollback,
                screen,
            ),
        }
    }

    /// The profiler after a frame.
    pub open spec fn perf_after(
        self,
        perf: Perf,
        purpose: Purpose,
        scrollback: Scrollback,
        screen: Screen,
        drew: bool,
    ) -> Perf {
        let drawn = self.before_rows(perf, purpose, scrollback, screen).perf_after(perf, screen);
        match purpose {
            Purpose::Batch(b) => frame::batch_perf(
                self.plan(perf, purpose, screen.cursor.row),
                self.renderer,
                perf,
                b@,
                scrollback,
                screen,
                drew,
            ),
            Purpose::Command => if self.esc.in_alternate_screen && !perf.legacy_render {
                perf
            } else {
                drawn
            },
            _ => if purpose.draws_rows() {
                drawn
            } else {
                perf
            },
        }
    }
}

impl EventLoop {
    /// Decides what a frame is going to do.
    fn plan(&self, perf: &Perf, purpose: &Purpose, cursor_row: u16) -> (plan: FramePlan)
        ensures
            plan == self@.plan(*perf, *purpose, cursor_row),
            plan.consumed <= self.renderer.row_offset,
    {
        let mut plan = FramePlan {
            switched: false,
            consumed: 0,
            clears: false,
            scrolls: false,
            marks_status: false,
            draws_status: true,
        };
        match purpose {
            Purpose::Opening(_) => {
                plan.switched = true;
                plan.draws_status = self.session.config.show_status_line;
            },
            Purpose::Batch(b) => {
                plan = self.session.plan_frame(&self.renderer, perf, b, &self.esc, cursor_row);
            },
            Purpose::Error => {
                plan.scrolls = self.renderer.row_offset == 0;
            },
            Purpose::Command => {
                plan.scrolls = self.renderer.row_offset == 0;
                plan.draws_status = self.session.draws_status(perf, &self.esc);
            },
            Purpose::Tick => {},
            Purpose::Status => {},
            Purpose::Resize => {
                plan.switched = true;
                plan.draws_status = self.session.config.show_status_line
                    && !self.esc.in_alternate_screen;
            },
            Purpose::Last(_) => {
                plan.scrolls = true;
                plan.draws_status = false;
            },
        }
        plan
    }

    /// Whether the frame can place the cursor, if it has to.
    pub fn can_show(&self, perf: &Perf, purpose: &Purpose, screen: &Screen) -> (yes: bool)
        ensures
            yes == self@.can_show(*perf, *purpose, *screen),
    {
        let offset: u16 = self.renderer.row_offset;
        let moved = screen.cursor != self.renderer.prev_cursor;
        let shows = self.session.draws_status(perf, &self.esc);
        let draws = !self.esc.in_alternate_screen || perf::legacy(perf);
        match purpose {
            Purpose::Opening(row_offset) => offset == 0 && screen.cursor.is_placeable(*row_offset),
            Purpose::Batch(_) => {
                let plan = self.plan(perf, purpose, screen.cursor.row);
                screen.cursor.is_placeable(offset - plan.consumed)
            },
            Purpose::Command => !(draws && (moved || shows)) || screen.cursor.is_placeable(offset),
            Purpose::Tick => !shows || screen.cursor.is_placeable(offset),
            Purpose::Last(_) => !moved || screen.cursor.is_placeable(offset),
            _ => screen.cursor.is_placeable(offset),
        }
    }

    fn draws_rows(purpose: &Purpose) -> (yes: bool)
        ensures
            yes == purpose.draws_rows(),
    {
        match purpose {
            Purpose::Opening(row_offset) => *row_offset == 0,
            Purpose::Tick => false,
            Purpose::Status => false,
            _ => true,
        }
    }

    /// What is asked for once the emulator was looked at: the scrollback lines
    /// that are to be pushed, and the change marks of the rows that fit.
    pub open spec fn looks(&self, perf: Perf, purpose: Purpose, sight: Sight, turn: Turn) -> bool {
        let plan = self@.plan(perf, purpose, sight.cursor.row);
        let p = plan.prepared(self@.renderer);
        let flushes = plan.scrolls && sight.scrollback_rows > p.flushed && p.content_rows
            > 0;
        &&& turn.effects() == (Effects {
            status: if plan.marks_status {
                StatusUpdate::Redraw
            } else {
                StatusUpdate::Keep
            },
            ..Effects::none()
        })
        &&& turn.next == (Next::Probe {
            purpose,
            sight,
            history: if flushes {
                Some(p.flushed)
            } else {
                None
            },
            marks: if purpose.draws_rows() && !perf.legacy_render {
                Some(
                    if sight.rows <= p.visible_rows() {
                        sight.rows as usize
                    } else {
                        p.visible_rows() as usize
                    },
                )
            } else {
                None
            },
        })
    }

    /// The emulator was looked at. Asks for the scrollback lines that are to be
    /// pushed, and for the change marks of the rows that fit into the terminal,
    /// except with legacy rendering, which draws without them.
    pub fn looked(&self, perf: &Perf, purpose: Purpose, sight: Sight) -> (turn: Turn)
        ensures
            self.looks(*perf, purpose, sight, turn),
    {
        let plan = self.plan(perf, &purpose, sight.cursor.row);
        let offset: u16 = self.renderer.row_offset - plan.consumed;
        let visible: usize = self.renderer.content_rows.saturating_sub(offset) as usize;
        let rows: usize = sight.rows as usize;
        let history = if plan.scrolls && sight.scrollback_rows > self.renderer.scrollback_flushed
            && self.renderer.content_rows > 0 {
            Some(self.renderer.scrollback_flushed)
        } else {
            None
        };
        let marks = if Self::draws_rows(&purpose) && !perf::legacy(perf) {
            Some(
                if rows <= visible {
                    rows
                } else {
                    visible
                },
            )
        } else {
            None
        };
        let mut turn = Turn::quiet(Next::Probe { purpose, sight, history, marks });
        if plan.marks_status {
            turn.status = StatusUpdate::Redraw;
        }
        turn
    }

    /// The scrollback and the change marks were read. Asks for the rows that
    /// the frame looks at: those that changed, or all of them.
    pub fn probed(
        &self,
        perf: &Perf,
        purpose: Purpose,
        sight: Sight,
        history: Vec<HistoryLine>,
        dirty: Vec<Option<bool>>,
    ) -> (turn: Turn)
        ensures
            turn.effects() == Effects::none(),
            turn.next is Read,
            turn.next->Read_purpose == purpose,
            turn.next->Read_scrollback == (Scrollback {
                rows: sight.scrollback_rows,
                lines: history,
            }),
            turn.next->Read_screen.rows == sight.rows,
            turn.next->Read_screen.dirty == dirty,
            turn.next->Read_screen.cursor == sight.cursor,
            turn.next->Read_screen.lines@.len() == 0,
            turn.next->Read_status == self@.plan(*perf, purpose, sight.cursor.row).draws_status,
            turn.next->Read_rows@ == self@.read_rows(
                *perf,
                purpose,
                turn.next->Read_scrollback,
                turn.next->Read_screen,
            ),
    {
        let plan = self.plan(perf, &purpose, sight.cursor.row);
        let scrollback = Scrollback { rows: sight.scrollback_rows, lines: history };
        let screen = Screen { rows: sight.rows, dirty, lines: Vec::new(), cursor: sight.cursor };
        let rows = if Self::draws_rows(&purpose) {
            ShellSession::frame_reads(&plan, &self.renderer, perf, &scrollback, &screen)
        } else {
            let mut rows: Vec<bool> = Vec::new();
            if let Purpose::Opening(_) = purpose {
                while rows.len() < sight.rows as usize
                    invariant
                        rows@.len() <= sight.rows,
                        rows@ =~= Seq::new(rows@.len(), |i: int| true),
                    decreases sight.rows - rows@.len(),
                {
                    rows.push(true);
                }
            }
            rows
        };
        Turn::quiet(
            Next::Read { purpose, scrollback, screen, rows, status: plan.draws_status },
        )
    }

    /// What comes of a frame: it is shown, the coordinator is told of the size
    /// after a resize, and after the last frame the session ends.
    pub open spec fn draws(
        &self,
        perf: Perf,
        purpose: Purpose,
        scrollback: Scrollback,
        screen: Screen,
        status: Seq<char>,
        turn: Turn,
    ) -> bool {
        &&& turn.effects() == (Effects {
            flush: !(purpose is Last),
            tell: if purpose is Resize {
                let pty = self.session.inner_size();
                Some(ShellEvent::Resize { cols: pty.cols, rows: pty.rows })
            } else {
                None
            },
            ..Effects::shown(
                self@.frame_seq(
                    perf,
                    purpose,
                    scrollback,
                    screen,
                    status,
                ),
            )
        })
        &&& turn.next == (match purpose {
            Purpose::Last(code) => Next::Exit(code),
            _ => Next::Wait,
        })
    }

    /// The rows were read, and the status line drawn if it was asked for:
    /// `status` is what draws it and `drew` whether its text changed. Shows
    /// the frame.
    pub fn read(
        &mut self,
        perf: &mut Perf,
        purpose: Purpose,
        scrollback: &Scrollback,
        screen: &Screen,
        status: &str,
        drew: bool,
    ) -> (turn: Turn)
        requires
            old(self)@.can_show(*old(perf), purpose, *screen),
        ensures
            final(self)@ == (LoopState {
                renderer: old(self)@.after_frame(*old(perf), purpose, *scrollback, *screen),
                ..old(self)@
            }),
            old(self)@.wf() ==> final(self)@.wf(),
            *final(perf) == old(self)@.perf_after(
                *old(perf),
                purpose,
                *scrollback,
                *screen,
                drew,
            ),
            old(self).draws(*old(perf), purpose, *scrollback, *screen, status@, turn),
    {
        proof {
            reveal_strlit("");
            assert(""@ =~= Seq::<char>::empty());
        }
        let session = &self.session;
        let renderer = &mut self.renderer;
        match purpose {
            Purpose::Opening(row_offset) => {
                let frame = session.opening_frame(renderer, perf, row_offset, screen, status);
                Turn::show(frame.as_str(), Next::Wait)
            },
            Purpose::Batch(b) => {
                let frame = session.batch_frame(
                    renderer,
                    perf,
                    &b,
                    &self.esc,
                    scrollback,
                    screen,
                    status,
                    drew,
                );
                Turn::show(frame.0.as_str(), Next::Wait)
            },
            Purpose::Error => {
                let frame = session.error_frame(renderer, perf, scrollback, screen, status);
                Turn::show(frame.0.as_str(), Next::Wait)
            },
            Purpose::Command => {
                let frame = session.command_frame(
                    renderer,
                    perf,
                    &self.esc,
                    scrollback,
                    screen,
                    status,
                );
                match frame {
                    Some(frame) => Turn::show(frame.0.as_str(), Next::Wait),
                    None => Turn::show("", Next::Wait),
                }
            },
            Purpose::Tick => {
                match session.tick_frame(renderer, perf, &self.esc, screen.cursor, status) {
                    Some(frame) => Turn::show(frame.as_str(), Next::Wait),
                    None => Turn::show("", Next::Wait),
                }
            },
            Purpose::Status => {
                let frame = session.status_frame(renderer, screen.cursor, status);
                Turn::show(frame.as_str(), Next::Wait)
            },
            Purpose::Resize => {
                let frame = session.resize_frame(renderer, perf, &self.esc, screen, status);
                let pty = session.pty_size();
                let mut turn = Turn::show(frame.as_str(), Next::Wait);
                turn.tell = Some(ShellEvent::Resize { cols: pty.cols, rows: pty.rows });
                turn
            },
            Purpose::Last(code) => {
                let frame = session.last_frame(renderer, perf, scrollback, screen);
                let mut turn = Turn::show(frame.as_str(), Next::Exit(code));
                turn.flush = false;
                turn
            },
        }
    }
}

} // verus!
