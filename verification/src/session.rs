//! Shell session: configuration, geometry, and the decisions of its event
//! loop.

use vstd::prelude::*;

use crate::ansi;
use crate::messages;
use crate::perf;
use crate::perf::Perf;
use crate::renderer::{Renderer, RendererState};

verus! {

/// `tokio_util::sync::CancellationToken`, carried through and never looked
/// into.
#[verifier::external_type_specification]
#[verifier::external_body]
pub struct ExCancellationToken(tokio_util::sync::CancellationToken);

/// Size of a terminal.
#[derive(Clone, Copy, Debug, PartialEq, Eq, Structural)]
pub struct PtySize {
    pub rows: u16,
    pub cols: u16,
    pub pixel_width: u16,
    pub pixel_height: u16,
}

/// Configuration of a session.
#[derive(Clone, Copy, Debug, PartialEq, Eq)]
pub struct SessionConfig {
    /// Whether the last row of the terminal holds a status line.
    pub show_status_line: bool,
    /// Size of the terminal, detected if `None`.
    pub size: Option<PtySize>,
}

impl Default for SessionConfig {
    fn default() -> (config: SessionConfig)
        ensures
            config == (SessionConfig { show_status_line: true, size: None }),
    {
        SessionConfig { show_status_line: true, size: None }
    }
}

/// Input and output of a session. What is `None` is taken from the process.
pub struct SessionIo<R, W> {
    pub stdin: Option<R>,
    pub stdout: Option<W>,
}

impl<R, W> Default for SessionIo<R, W> {
    fn default() -> (io: SessionIo<R, W>)
        ensures
            io.stdin is None,
            io.stdout is None,
    {
        SessionIo { stdin: None, stdout: None }
    }
}

/// Why a session ended early. Errors from elsewhere come as their messages.
#[derive(Debug)]
pub enum SessionError {
    Pty(String),
    Io(String),
    Terminal(String),
    ChannelClosed,
    UnexpectedCommand(String),
}

impl SessionError {
    /// The error in words.
    pub open spec fn message_seq(self) -> Seq<char> {
        match self {
            SessionError::Pty(e) => "PTY error: "@ + e@,
            SessionError::Io(e) => "IO error: "@ + e@,
            SessionError::Terminal(e) => "terminal error: "@ + e@,
            SessionError::ChannelClosed => "channel closed"@,
            SessionError::UnexpectedCommand(c) => "unexpected command: expected Spawn, got "@ + c@,
        }
    }

    /// The error in words.
    pub fn message(&self) -> (message: String)
        ensures
            message@ == self.message_seq(),
    {
        let mut message: String = String::new();
        match self {
            SessionError::Pty(e) => {
                message.append("PTY error: ");
                message.append(e.as_str());
            },
            SessionError::Io(e) => {
                message.append("IO error: ");
                message.append(e.as_str());
            },
            SessionError::Terminal(e) => {
                message.append("terminal error: ");
                message.append(e.as_str());
            },
            SessionError::ChannelClosed => {
                message.append("channel closed");
            },
            SessionError::UnexpectedCommand(c) => {
                message.append("unexpected command: expected Spawn, got ");
                message.append(c.as_str());
            },
        }
        assert(message@ =~= self.message_seq());
        message
    }
}

/// A command from the coordinator of the session. Files are given by their
/// names.
#[derive(Debug)]
pub enum ShellCommand {
    /// Start the shell.
    Spawn { watch_files: Vec<String> },
    ReloadReady { changed_files: Vec<String> },
    Building { changed_files: Vec<String> },
    BuildFailed { changed_files: Vec<String>, error: String },
    ReloadApplied,
    WatchedFiles { files: Vec<String> },
    WatchingPaused { paused: bool },
    PrintWatchedFiles { files: Vec<String> },
    Shutdown,
}

/// What a session tells its coordinator.
#[derive(Debug)]
pub enum ShellEvent {
    TogglePause,
    ListWatchedFiles,
    Resize { cols: u16, rows: u16 },
    Exited { exit_code: Option<u32> },
}

/// What happens to a session.
#[derive(Debug)]
pub enum Event {
    /// The user typed.
    Stdin(Vec<u8>),
    /// The shell wrote.
    PtyOutput(Vec<u8>),
    /// The shell exited.
    PtyExit(Option<u32>),
    Command(ShellCommand),
    /// The terminal may have a new size.
    Resize,
}

/// What the escape scanner knows of the nested program.
#[derive(Clone, Copy, Debug, PartialEq, Eq, Structural)]
pub struct EscapeState {
    /// The alternate screen is active.
    pub in_alternate_screen: bool,
    /// The screen was erased in the present batch.
    pub erase_display: bool,
    /// The scrollback was erased in the present batch.
    pub clear_scrollback: bool,
    /// Resizes are to be reported in band.
    pub in_band_resize: bool,
}

/// What the escape scanner made of a chunk.
#[derive(Debug)]
pub struct Scan {
    /// What it knows after the chunk.
    pub esc: EscapeState,
    /// The sequences that it forwards to the terminal.
    pub forwarded: Vec<u8>,
}

/// What the status line is told.
#[derive(Debug)]
pub enum StatusUpdate {
    Keep,
    ReloadReady(Vec<String>),
    Building(Vec<String>),
    BuildFailed(Vec<String>, String),
    Reloaded,
    WatchedFileCount(usize),
    Paused(bool),
    /// The build error is shown on the screen or not.
    ErrorShown(bool),
    /// The notice of a reload has been up for long enough.
    ClearReloaded,
    /// It has to be drawn anew even if its text is the same.
    Redraw,
}

/// What a command leads to.
#[derive(Debug)]
pub struct CommandEffect {
    pub status: StatusUpdate,
    /// Text to print through the emulator.
    pub print: Option<String>,
    /// Whether the session ends.
    pub ends: bool,
}

/// What input leads to.
#[derive(Debug)]
pub enum StdinAction {
    /// Nothing at all.
    Nothing,
    /// Tell the coordinator.
    Tell(ShellEvent),
    /// Show the build error: print this through the emulator and redraw.
    ShowError(String),
    /// Hide the build error: have the shell repaint with these bytes, and
    /// redraw the status line.
    HideError(Vec<u8>),
    /// Hand the input to the shell.
    Forward,
}

/// What the event loop waits for.
#[derive(Clone, Copy, Debug, PartialEq, Eq, Structural)]
pub enum Wait {
    /// Nothing: a resize is due.
    ResizeNow,
    /// An event, no longer than one step of the spinner.
    SpinnerStep,
    /// An event, no longer than the reload notice stays.
    ReloadNotice,
    /// An event.
    Event,
}

/// What an event that arrives while a batch is being collected leads to.
#[derive(Debug)]
pub enum Drained {
    /// Nothing.
    Nothing,
    /// The event belongs to the batch.
    Chunk(Vec<u8>),
    /// The shell exited.
    Exit(Option<u32>),
    /// Hand the input to the shell.
    Forward(Vec<u8>),
    Command(ShellCommand),
    /// Stop collecting: a resize comes first.
    Stop,
}

/// What a resize leads to.
#[derive(Clone, Copy, Debug, PartialEq, Eq, Structural)]
pub struct ResizePlan {
    /// New size of the shell's terminal and of the emulator.
    pub pty: PtySize,
    /// Whether the shell is to be told in band.
    pub notify: bool,
    /// Whether the screen is to be drawn anew. The nested program does it
    /// otherwise.
    pub repaint: bool,
}

/// An interactive session.
pub struct ShellSession {
    pub config: SessionConfig,
    pub size: PtySize,
    /// Whether the status line is switched on.
    pub status_enabled: bool,
    pub shutdown_token: Option<tokio_util::sync::CancellationToken>,
}

/// Size of a terminal of which only rows and columns are known.
pub open spec fn cells_size(cols: u16, rows: u16) -> PtySize {
    PtySize { rows, cols, pixel_width: 0, pixel_height: 0 }
}

/// Whether the status line is drawn: not on the alternate screen, which
/// belongs to a nested program, unless rendering is legacy.
pub open spec fn status_shown(show: bool, legacy: bool, in_alternate_screen: bool) -> bool {
    show && (legacy || !in_alternate_screen)
}

impl ShellSession {
    /// The status line is switched on exactly when the configuration shows it.
    pub open spec fn wf(self) -> bool {
        self.status_enabled == self.config.show_status_line
    }

    /// Size of the shell's terminal: one row less than the terminal has where
    /// there is a status line, and never less than one.
    pub open spec fn inner_size(self) -> PtySize {
        if self.config.show_status_line {
            PtySize {
                rows: if self.size.rows >= 2 {
                    (self.size.rows - 1) as u16
                } else {
                    1
                },
                ..self.size
            }
        } else {
            self.size
        }
    }

    /// Whether the status line is drawn.
    pub open spec fn shows_status(self, perf: Perf, esc: EscapeState) -> bool {
        status_shown(
            self.config.show_status_line,
            perf.legacy_render,
            esc.in_alternate_screen,
        )
    }

    /// A session with the given configuration. The size of the terminal is
    /// `detected` unless the configuration gives one.
    pub fn new(config: SessionConfig, detected: PtySize) -> (session: ShellSession)
        ensures
            session.wf(),
            session.config == config,
            session.size == (match config.size {
                Some(size) => size,
                None => detected,
            }),
            session.shutdown_token is None,
    {
        let size = match config.size {
            Some(size) => size,
            None => detected,
        };
        ShellSession {
            config,
            size,
            status_enabled: config.show_status_line,
            shutdown_token: None,
        }
    }

    /// A session with the default configuration.
    pub fn with_defaults(detected: PtySize) -> (session: ShellSession)
        ensures
            session.wf(),
            session.config == (SessionConfig { show_status_line: true, size: None }),
            session.size == detected,
            session.shutdown_token is None,
    {
        Self::new(SessionConfig::default(), detected)
    }

    /// Shows the status line or not.
    pub fn with_status_line(self, show: bool) -> (session: ShellSession)
        ensures
            session.wf(),
            session.config == (SessionConfig { show_status_line: show, ..self.config }),
            session.size == self.size,
            session.shutdown_token == self.shutdown_token,
    {
        let mut session = self;
        session.config.show_status_line = show;
        session.status_enabled = show;
        session
    }

    /// Has the session end when the token is cancelled.
    pub fn with_shutdown_token(
        self,
        token: tokio_util::sync::CancellationToken,
    ) -> (session: ShellSession)
        ensures
            session == (ShellSession { shutdown_token: Some(token), ..self }),
    {
        let mut session = self;
        session.shutdown_token = Some(token);
        session
    }

    /// Size of the shell's terminal.
    pub fn pty_size(&self) -> (size: PtySize)
        ensures
            size == self.inner_size(),
    {
        if self.config.show_status_line {
            let rows: u16 = self.size.rows.saturating_sub(1);
            PtySize {
                rows: if rows >= 1 {
                    rows
                } else {
                    1
                },
                cols: self.size.cols,
                pixel_width: self.size.pixel_width,
                pixel_height: self.size.pixel_height,
            }
        } else {
            self.size
        }
    }

    /// Size of the terminal once it was measured at the start.
    pub open spec fn adopted(self, detected: Option<(u16, u16)>) -> PtySize {
        match (self.config.size, detected) {
            (None, Some((cols, rows))) => cells_size(cols, rows),
            _ => self.size,
        }
    }

    /// Takes over the size of the terminal, as columns and rows, unless the
    /// configuration gives one or it is not known.
    pub fn adopt_size(&mut self, detected: Option<(u16, u16)>)
        ensures
            *final(self) == (ShellSession {
                size: match detected {
                    Some((cols, rows)) => if old(self).config.size is None {
                        cells_size(cols, rows)
                    } else {
                        old(self).size
                    },
                    None => old(self).size,
                },
                ..*old(self)
            }),
            final(self).size == old(self).adopted(detected),
    {
        if self.config.size.is_none() {
            if let Some((cols, rows)) = detected {
                self.size = PtySize { rows, cols, pixel_width: 0, pixel_height: 0 };
            }
        }
    }

    /// Whether the status line is drawn.
    pub fn draws_status(&self, perf: &Perf, esc: &EscapeState) -> (yes: bool)
        ensures
            yes == self.shows_status(*perf, *esc),
    {
        self.config.show_status_line && (perf::legacy(perf) || !esc.in_alternate_screen)
    }
}

/// Key that pauses and resumes watching: Ctrl-Alt-D.
pub open spec fn key_toggle_pause() -> Seq<u8> {
    seq![0x1bu8, 0x04u8]
}

/// Key that lists the watched files: Ctrl-Alt-W.
pub open spec fn key_list_watched() -> Seq<u8> {
    seq![0x1bu8, 0x17u8]
}

/// Key that shows and hides the build error: Ctrl-Alt-E.
pub open spec fn key_toggle_error() -> Seq<u8> {
    seq![0x1bu8, 0x05u8]
}

/// Whether input is the escape character and the given one.
fn is_key(data: &[u8], key: u8) -> (yes: bool)
    ensures
        yes == (data@ == seq![0x1bu8, key]),
{
    let yes = data.len() == 2 && data[0] == 0x1b && data[1] == key;
    proof {
        if yes {
            assert(data@ =~= seq![0x1bu8, key]);
        }
    }
    yes
}

/// Decides what input leads to. Three keys belong to the session and all else
/// to the shell. `error` is the build error if there is one, and `shown`
/// whether it is being shown.
pub fn stdin_action(data: &[u8], error: Option<&str>, shown: bool) -> (action: StdinAction)
    ensures
        data@ == key_toggle_pause() ==> action == StdinAction::Tell(ShellEvent::TogglePause),
        data@ == key_list_watched() ==> action == StdinAction::Tell(ShellEvent::ListWatchedFiles),
        data@ == key_toggle_error() ==> match error {
            None => action == StdinAction::Nothing,
            Some(e) => if shown {
                action is HideError && action->HideError_0@ == seq![0x0cu8]
            } else {
                action is ShowError && action->ShowError_0@ == messages::error_seq(e@)
            },
        },
        data@ != key_toggle_pause() && data@ != key_list_watched() && data@ != key_toggle_error()
            ==> action == (if data@.len() == 0 {
            StdinAction::Nothing
        } else {
            StdinAction::Forward
        }),
{
    proof {
        assert(key_toggle_pause()[1] != key_list_watched()[1]);
        assert(key_toggle_pause()[1] != key_toggle_error()[1]);
        assert(key_list_watched()[1] != key_toggle_error()[1]);
    }
    if is_key(data, 0x04) {
        return StdinAction::Tell(ShellEvent::TogglePause);
    }
    if is_key(data, 0x17) {
        return StdinAction::Tell(ShellEvent::ListWatchedFiles);
    }
    if is_key(data, 0x05) {
        return match error {
            None => StdinAction::Nothing,
            Some(e) => if shown {
                let mut repaint: Vec<u8> = Vec::new();
                repaint.push(0x0c);
                assert(repaint@ =~= seq![0x0cu8]);
                StdinAction::HideError(repaint)
            } else {
                StdinAction::ShowError(messages::error_text(e))
            },
        };
    }
    if data.len() == 0 {
        StdinAction::Nothing
    } else {
        StdinAction::Forward
    }
}

/// What the event loop waits for: not at all for a resize that was put off, for
/// the next step of the spinner while something is built, as long as a notice is
/// shown, or for an event only.
pub open spec fn wait_for(resize_pending: bool, building: bool, notice: bool) -> Wait {
    match (resize_pending, building, notice) {
        (true, _, _) => Wait::ResizeNow,
        (false, true, _) => Wait::SpinnerStep,
        (false, false, true) => Wait::ReloadNotice,
        (false, false, false) => Wait::Event,
    }
}

/// Decides what the event loop waits for. A resize that was put off comes
/// first and is then no longer pending.
pub fn next_wait(resize_pending: &mut bool, building: bool, notice: bool) -> (wait: Wait)
    ensures
        !*final(resize_pending),
        wait == (if *old(resize_pending) {
            Wait::ResizeNow
        } else if building {
            Wait::SpinnerStep
        } else if notice {
            Wait::ReloadNotice
        } else {
            Wait::Event
        }),
        wait == wait_for(*old(resize_pending), building, notice),
{
    if *resize_pending {
        *resize_pending = false;
        Wait::ResizeNow
    } else if building {
        Wait::SpinnerStep
    } else if notice {
        Wait::ReloadNotice
    } else {
        Wait::Event
    }
}

/// Decides what an event leads to that arrives while a batch is being
/// collected. Keys of the session are not looked for then, and a resize is put
/// off until the batch is drawn.
pub fn drain(event: Event, resize_pending: &mut bool) -> (drained: Drained)
    ensures
        *final(resize_pending) == (*old(resize_pending) || event is Resize),
        drained == (match event {
            Event::PtyOutput(data) => Drained::Chunk(data),
            Event::PtyExit(code) => Drained::Exit(code),
            Event::Stdin(data) => if data@.len() == 0 {
                Drained::Nothing
            } else {
                Drained::Forward(data)
            },
            Event::Command(command) => Drained::Command(command),
            Event::Resize => Drained::Stop,
        }),
{
    match event {
        Event::PtyOutput(data) => Drained::Chunk(data),
        Event::PtyExit(code) => Drained::Exit(code),
        Event::Stdin(data) => if data.len() == 0 {
            Drained::Nothing
        } else {
            Drained::Forward(data)
        },
        Event::Command(command) => Drained::Command(command),
        Event::Resize => {
            *resize_pending = true;
            Drained::Stop
        },
    }
}

/// Number of lines that scrolled off the screen, from the emulator's row counts
/// before and after; a count that is not known is taken for zero.
pub fn scroll_count(before: Option<usize>, after: Option<usize>) -> (lines: usize)
    ensures
        ({
            let b: int = if before is Some {
                before->0 as int
            } else {
                0
            };
            let a: int = if after is Some {
                after->0 as int
            } else {
                0
            };
            lines == (if a >= b {
                a - b
            } else {
                0
            })
        }),
{
    let b: usize = match before {
        Some(rows) => rows,
        None => 0,
    };
    let a: usize = match after {
        Some(rows) => rows,
        None => 0,
    };
    a.saturating_sub(b)
}

/// What the status line is told by a command.
pub open spec fn status_of(command: ShellCommand) -> StatusUpdate {
    match command {
        ShellCommand::ReloadReady { changed_files } => StatusUpdate::ReloadReady(changed_files),
        ShellCommand::Building { changed_files } => StatusUpdate::Building(changed_files),
        ShellCommand::BuildFailed { changed_files, error } => StatusUpdate::BuildFailed(
            changed_files,
            error,
        ),
        ShellCommand::ReloadApplied => StatusUpdate::Reloaded,
        ShellCommand::WatchedFiles { files } => StatusUpdate::WatchedFileCount(files.len()),
        ShellCommand::WatchingPaused { paused } => StatusUpdate::Paused(paused),
        ShellCommand::PrintWatchedFiles { files } => StatusUpdate::Keep,
        ShellCommand::Shutdown => StatusUpdate::Keep,
        ShellCommand::Spawn { watch_files } => StatusUpdate::Keep,
    }
}

/// Decides what a command leads to: an update of the status line, a list of the
/// watched files, or the end of the session. A second spawn leads to nothing.
pub fn handle_command(command: ShellCommand) -> (effect: CommandEffect)
    ensures
        effect.status == status_of(command),
        effect.print is Some <==> command is PrintWatchedFiles,
        command matches ShellCommand::PrintWatchedFiles { files } ==> effect.print->0@
            == messages::watched_seq(messages::views(files@)),
        effect.ends <==> command is Shutdown,
{
    match command {
        ShellCommand::ReloadReady { changed_files } => CommandEffect {
            status: StatusUpdate::ReloadReady(changed_files),
            print: None,
            ends: false,
        },
        ShellCommand::Building { changed_files } => CommandEffect {
            status: StatusUpdate::Building(changed_files),
            print: None,
            ends: false,
        },
        ShellCommand::BuildFailed { changed_files, error } => CommandEffect {
            status: StatusUpdate::BuildFailed(changed_files, error),
            print: None,
            ends: false,
        },
        ShellCommand::ReloadApplied => CommandEffect {
            status: StatusUpdate::Reloaded,
            print: None,
            ends: false,
        },
        ShellCommand::WatchedFiles { files } => CommandEffect {
            status: StatusUpdate::WatchedFileCount(files.len()),
            print: None,
            ends: false,
        },
        ShellCommand::WatchingPaused { paused } => CommandEffect {
            status: StatusUpdate::Paused(paused),
            print: None,
            ends: false,
        },
        ShellCommand::PrintWatchedFiles { files } => CommandEffect {
            status: StatusUpdate::Keep,
            print: Some(messages::watched_text(&files)),
            ends: false,
        },
        ShellCommand::Shutdown => CommandEffect {
            status: StatusUpdate::Keep,
            print: None,
            ends: true,
        },
        ShellCommand::Spawn { .. } => CommandEffect {
            status: StatusUpdate::Keep,
            print: None,
            ends: false,
        },
    }
}

/// How a session starts: with the files to watch if it is told to start the
/// shell, not at all if it is told to shut down or will not be told anything,
/// and with an error otherwise.
pub open spec fn starts(
    first: Option<&ShellCommand>,
    shown: Seq<char>,
    started: Result<Option<usize>, SessionError>,
) -> bool {
    match started {
        Ok(Some(count)) => first matches Some(ShellCommand::Spawn { watch_files }) && count
            == watch_files@.len(),
        Ok(None) => first is None || *first->0 is Shutdown,
        Err(SessionError::UnexpectedCommand(command)) => first is Some && !(*first->0 is Spawn)
            && !(*first->0 is Shutdown) && command@ == shown,
        Err(_) => false,
    }
}

/// Decides how a session starts, from the first command, `None` if there will
/// be none: with the number of files to watch, not at all, or with an error
/// that shows the command as `shown`.
pub fn start(first: Option<&ShellCommand>, shown: &str) -> (started: Result<
    Option<usize>,
    SessionError,
>)
    ensures
        match first {
            None => started == Ok::<Option<usize>, SessionError>(None),
            Some(ShellCommand::Shutdown) => started == Ok::<Option<usize>, SessionError>(None),
            Some(ShellCommand::Spawn { watch_files }) => started == Ok::<
                Option<usize>,
                SessionError,
            >(Some(watch_files.len())),
            Some(_) => started is Err && started->Err_0 is UnexpectedCommand
                && started->Err_0->UnexpectedCommand_0@ == shown@,
        },
        starts(first, shown@, started),
{
    match first {
        None => Ok(None),
        Some(command) => match command {
            ShellCommand::Shutdown => Ok(None),
            ShellCommand::Spawn { watch_files } => Ok(Some(watch_files.len())),
            _ => Err(SessionError::UnexpectedCommand(shown.to_owned())),
        },
    }
}

/// Number of terminal rows above the screen: those above the cursor, which is
/// in row `row`, counted from zero, or in the first one if that is not known.
pub fn rows_above(row: Option<u16>) -> (rows: u16)
    requires
        row != Some(u16::MAX),
    ensures
        rows == (match row {
            Some(row) => row,
            None => 0,
        }),
{
    match row {
        Some(row) => row,
        None => 0,
    }
}

/// Capacity of the buffer in front of the terminal. It holds a full repaint,
/// so that a frame is written at one go, unless rendering is legacy.
pub fn stdout_capacity(perf: &Perf) -> (bytes: usize)
    ensures
        bytes == (if perf.legacy_render {
            8192int
        } else {
            262144int
        }),
{
    if perf::legacy(perf) {
        8 * 1024
    } else {
        256 * 1024
    }
}

/// Size of a read from the shell. It holds a frame of a full-screen program,
/// unless rendering is legacy.
pub fn pty_read_size(perf: &Perf) -> (bytes: usize)
    ensures
        bytes == (if perf.legacy_render {
            4096int
        } else {
            65536int
        }),
{
    if perf::legacy(perf) {
        4096
    } else {
        64 * 1024
    }
}

/// What brings the terminal into a known state before the first frame: all of
/// it scrolls, and rows are counted from its top.
pub open spec fn takeover_seq() -> Seq<char> {
    ansi::reset_scroll_region_seq() + "\x1b[?6l"@
}

/// What is written before the first frame.
pub fn takeover() -> (out: String)
    ensures
        out@ == takeover_seq(),
{
    let mut out: String = String::new();
    ansi::reset_scroll_region(&mut out);
    out.append("\x1b[?6l");
    assert(out@ =~= takeover_seq());
    out
}

impl ShellSession {
    /// Whether the terminal has another size than the session knows.
    pub open spec fn resized(self, detected: Option<(u16, u16)>) -> bool {
        detected is Some && ((detected->0).0 != self.size.cols || (detected->0).1 != self.size.rows)
    }

    /// The session and its renderer once the terminal was measured, and how the
    /// shell's terminal and the emulator are resized.
    pub open spec fn after_resize(
        self,
        r: RendererState,
        perf: Perf,
        esc: EscapeState,
        detected: Option<(u16, u16)>,
    ) -> (ShellSession, RendererState, Option<ResizePlan>) {
        if self.resized(detected) {
            let (cols, rows) = detected->0;
            let session = ShellSession { size: cells_size(cols, rows), ..self };
            let pty = session.inner_size();
            let copied = esc.in_alternate_screen && perf.passes_through();
            let moved = RendererState { row_offset: 0, content_rows: pty.rows, ..r };
            let renderer = if copied {
                moved.invalidated()
            } else {
                RendererState { flushed: 0, ..moved }
            };
            let plan = ResizePlan { pty, notify: esc.in_band_resize, repaint: !copied };
            (session, renderer, Some(plan))
        } else {
            (self, r, None)
        }
    }

    /// Takes over a new size of the terminal, as columns and rows. It ends the
    /// use of rows above the screen. A nested program that is being copied
    /// through paints the terminal itself, and everything is drawn when it
    /// leaves; otherwise scrollback is dropped and everything is drawn at once.
    /// Returns `None` if the size is not known or the same.
    pub fn resize(
        &mut self,
        renderer: &mut Renderer,
        perf: &Perf,
        esc: &EscapeState,
        detected: Option<(u16, u16)>,
    ) -> (plan: Option<ResizePlan>)
        ensures
            plan is Some <==> old(self).resized(detected),
            plan is None ==> *final(self) == *old(self) && final(renderer)@ == old(renderer)@,
            plan is Some ==> {
                let copied = esc.in_alternate_screen && perf.passes_through();
                let r = RendererState {
                    row_offset: 0,
                    content_rows: final(self).inner_size().rows,
                    ..old(renderer)@
                };
                &&& *final(self) == (ShellSession {
                    size: cells_size((detected->0).0, (detected->0).1),
                    ..*old(self)
                })
                &&& plan->0 == (ResizePlan {
                    pty: final(self).inner_size(),
                    notify: esc.in_band_resize,
                    repaint: !copied,
                })
                &&& final(renderer)@ == (if copied {
                    r.invalidated()
                } else {
                    RendererState { flushed: 0, ..r }
                })
            },
            detected is Some ==> final(self).size.cols == (detected->0).0 && final(self).size.rows
                == (detected->0).1,
            detected is None ==> plan is None,
            (*final(self), final(renderer)@, plan) == old(self).after_resize(
                old(renderer)@,
                *perf,
                *esc,
                detected,
            ),
    {
        if let Some((cols, rows)) = detected {
            if cols != self.size.cols || rows != self.size.rows {
                self.size = PtySize { rows, cols, pixel_width: 0, pixel_height: 0 };
                renderer.row_offset = 0;
                let pty = self.pty_size();
                renderer.content_rows = pty.rows;
                let copied = esc.in_alternate_screen && perf::passthrough(perf);
                if copied {
                    renderer.invalidate();
                } else {
                    renderer.discard_vt_scrollback();
                }
                return Some(
                    ResizePlan { pty, notify: esc.in_band_resize, repaint: !copied },
                );
            }
        }
        None
    }
}

} // verus!
