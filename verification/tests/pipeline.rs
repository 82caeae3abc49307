use devenv_shell::cell::{Cell, CellContentTag, CellWide, GridCell};
use devenv_shell::event_loop::{EventLoop, Food, Next, Sight, Turn};
use devenv_shell::harness::RenderHarness;
use devenv_shell::perf;
use devenv_shell::perf::Perf;
use devenv_shell::renderer::{CursorState, HistoryLine, Renderer, Screen, Scrollback};
use devenv_shell::session::{
    EscapeState, Event, PtySize, Scan, SessionConfig, ShellCommand, ShellEvent, ShellSession,
    StatusUpdate, Wait,
};

/// A terminal emulator that knows just enough for these tests.
struct Emulator {
    cols: usize,
    rows: usize,
    primary: Vec<Vec<char>>,
    alternate: Vec<Vec<char>>,
    in_alternate: bool,
    col: usize,
    row: usize,
    saved: (usize, usize),
    history: Vec<Vec<char>>,
    dirty: Vec<bool>,
    reads: usize,
}

const EMPTY: char = '\0';

impl Emulator {
    fn new(cols: usize, rows: usize) -> Emulator {
        Emulator {
            cols,
            rows,
            primary: vec![vec![EMPTY; cols]; rows],
            alternate: vec![vec![EMPTY; cols]; rows],
            in_alternate: false,
            col: 0,
            row: 0,
            saved: (0, 0),
            history: Vec::new(),
            dirty: vec![true; rows],
            reads: 0,
        }
    }

    fn grid(&mut self) -> &mut Vec<Vec<char>> {
        if self.in_alternate {
            &mut self.alternate
        } else {
            &mut self.primary
        }
    }

    fn erase(&mut self) {
        let (cols, rows) = (self.cols, self.rows);
        *self.grid() = vec![vec![EMPTY; cols]; rows];
        self.dirty = vec![true; rows];
    }

    fn csi(&mut self, params: &str, last: char) {
        match (params, last) {
            ("?1049", 'h') => {
                self.saved = (self.col, self.row);
                self.in_alternate = true;
                self.erase();
            }
            ("?1049", 'l') => {
                self.in_alternate = false;
                self.col = self.saved.0;
                self.row = self.saved.1;
                self.dirty = vec![true; self.rows];
            }
            ("2", 'J') => self.erase(),
            ("3", 'J') => self.history.clear(),
            (_, 'H') => {
                let at: Vec<usize> = params.split(';').map(|n| n.parse().unwrap_or(1)).collect();
                self.row = at[0] - 1;
                self.col = if at.len() > 1 { at[1] - 1 } else { 0 };
            }
            _ => {}
        }
    }

    fn line_feed(&mut self) {
        if self.row + 1 < self.rows {
            self.row += 1;
            return;
        }
        let cols = self.cols;
        let gone = self.grid().remove(0);
        self.grid().push(vec![EMPTY; cols]);
        if !self.in_alternate {
            self.history.push(gone);
        }
        self.dirty = vec![true; self.rows];
    }

    fn write(&mut self, bytes: &[u8]) {
        let text: Vec<char> = String::from_utf8_lossy(bytes).chars().collect();
        let mut i = 0;
        while i < text.len() {
            match text[i] {
                '\x1b' if i + 1 < text.len() && text[i + 1] == '[' => {
                    let mut end = i + 2;
                    while end < text.len() && !text[end].is_ascii_alphabetic() {
                        end += 1;
                    }
                    let params: String = text[i + 2..end].iter().collect();
                    self.csi(&params, text[end]);
                    i = end;
                }
                '\r' => self.col = 0,
                '\n' => self.line_feed(),
                c => {
                    let (row, col) = (self.row, self.col);
                    self.grid()[row][col] = c;
                    self.dirty[row] = true;
                    self.col += 1;
                }
            }
            i += 1;
        }
    }

    fn total_rows(&self) -> usize {
        self.rows + self.history.len()
    }

    fn cursor(&self) -> CursorState {
        CursorState {
            col: self.col as u16,
            row: self.row as u16,
            visible: true,
        }
    }

    fn row_cells(&mut self, row: usize) -> Vec<Cell> {
        self.reads += 1;
        let line = self.grid()[row].clone();
        line.into_iter().map(cell).collect()
    }

    fn history_lines(&self) -> Vec<HistoryLine> {
        self.history
            .iter()
            .map(|line| HistoryLine {
                cells: line.iter().map(|c| cell(*c)).collect(),
                continuation: Some(false),
                wrapped: Some(false),
            })
            .collect()
    }

    fn scrollback(&self) -> Scrollback {
        Scrollback {
            rows: self.history.len(),
            lines: self.history_lines(),
        }
    }

    fn take_dirty(&mut self) -> Vec<Option<bool>> {
        let marks = self.dirty.iter().map(|d| Some(*d)).collect();
        self.dirty = vec![false; self.rows];
        marks
    }

    fn screen(&mut self) -> Screen {
        Screen {
            rows: self.rows as u16,
            dirty: self.take_dirty(),
            lines: (0..self.rows).map(|row| self.row_cells(row)).collect(),
            cursor: self.cursor(),
        }
    }
}

fn cell(c: char) -> Cell {
    let text = if c == EMPTY {
        " ".to_string()
    } else {
        c.to_string()
    };
    Cell {
        id: c as u64,
        wide: Some(CellWide::Narrow),
        has_text: Some(c != EMPTY),
        has_styling: Some(false),
        content_tag: Some(CellContentTag::Codepoint),
        bg_color_palette: None,
        bg_color_rgb: None,
        grid: Some(GridCell { style: None, text }),
    }
}

/// Tracks private modes and erased screens, and forwards the former.
fn scan(esc: &mut EscapeState, chunk: &[u8], first: bool) -> Scan {
    if first {
        esc.erase_display = false;
        esc.clear_scrollback = false;
    }
    let mut forwarded = Vec::new();
    let mut i = 0;
    while i < chunk.len() {
        if chunk[i..].starts_with(b"\x1b[") {
            let mut end = i + 2;
            while !chunk[end].is_ascii_alphabetic() {
                end += 1;
            }
            let sequence = &chunk[i..=end];
            match sequence {
                b"\x1b[?1049h" => esc.in_alternate_screen = true,
                b"\x1b[?1049l" => esc.in_alternate_screen = false,
                b"\x1b[?2048h" => esc.in_band_resize = true,
                b"\x1b[2J" => esc.erase_display = true,
                b"\x1b[3J" => esc.clear_scrollback = true,
                _ => {}
            }
            if sequence[2] == b'?' {
                forwarded.extend_from_slice(sequence);
            }
            i = end;
        }
        i += 1;
    }
    Scan {
        esc: *esc,
        forwarded,
    }
}

fn no_escapes() -> EscapeState {
    EscapeState {
        in_alternate_screen: false,
        erase_display: false,
        clear_scrollback: false,
        in_band_resize: false,
    }
}

fn blank_screen() -> Screen {
    Screen {
        rows: 0,
        dirty: Vec::new(),
        lines: Vec::new(),
        cursor: CursorState {
            col: 0,
            row: 0,
            visible: true,
        },
    }
}

/// A harness with the emulator and the scanner that feed it.
struct Bench {
    harness: RenderHarness,
    emulator: Emulator,
    esc: EscapeState,
    perf: Perf,
}

impl Bench {
    fn new(cols: u16, rows: u16, status_line: bool, perf: Perf) -> Bench {
        Bench {
            harness: RenderHarness::new(cols, rows, status_line),
            emulator: Emulator::new(cols as usize, rows as usize),
            esc: no_escapes(),
            perf,
        }
    }

    fn feed(&mut self, chunk: &[u8]) {
        let was_in_alt = self.esc.in_alternate_screen;
        let scan = scan(&mut self.esc, chunk, true);
        let copied =
            was_in_alt && scan.esc.in_alternate_screen && perf::passthrough(&self.perf);
        let (scrollback, screen) = if copied {
            (self.emulator.scrollback(), blank_screen())
        } else {
            self.emulator.write(chunk);
            (self.emulator.scrollback(), self.emulator.screen())
        };
        let flushed = self.harness.feed(
            &mut self.perf,
            chunk,
            &scan,
            &scrollback,
            &screen,
            "<status>",
        );
        if flushed {
            self.emulator.write(b"\x1b[3J");
        }
    }
}

fn with_flags(legacy: bool, passthrough: bool) -> Perf {
    let mut perf = Perf::new();
    perf::set_legacy(&mut perf, legacy);
    perf::set_passthrough(&mut perf, passthrough);
    perf
}

fn contains(haystack: &[u8], needle: &[u8]) -> bool {
    haystack.windows(needle.len()).any(|w| w == needle)
}

fn count(haystack: &[u8], needle: &[u8]) -> usize {
    haystack
        .windows(needle.len())
        .filter(|w| *w == needle)
        .count()
}

#[test]
fn passthrough_copies_raw_in_alt_screen() {
    let mut h = Bench::new(80, 24, false, with_flags(false, true));
    h.feed(b"\x1b[?1049h\x1b[2J\x1b[Hhello");
    h.harness.reset_output();
    let update = b"\x1b[5;3Hworld";
    h.feed(update);
    assert_eq!(
        h.harness.output_bytes(),
        update,
        "alt-screen update should pass through raw"
    );
    assert_eq!(h.harness.output_len(), update.len());
}

#[test]
fn passthrough_carries_mode_escapes_verbatim() {
    let mut h = Bench::new(80, 24, false, with_flags(false, true));
    h.feed(b"\x1b[?1049h\x1b[2J\x1b[Hhi");
    h.harness.reset_output();
    let update = b"\x1b[?1000h\x1b[5;3Hx";
    h.feed(update);
    assert_eq!(
        h.harness.output_bytes(),
        update,
        "mode escape + content must pass through verbatim (no duplication, no loss)"
    );
}

#[test]
fn passthrough_disabled_re_renders() {
    let mut h = Bench::new(80, 24, false, with_flags(false, false));
    h.feed(b"\x1b[?1049h\x1b[2J\x1b[Hhello");
    h.harness.reset_output();
    let update = b"\x1b[5;3Hworld";
    h.feed(update);
    assert_ne!(h.harness.output_bytes(), update);
    assert!(!h.harness.output_bytes().is_empty());
    assert_eq!(
        h.harness.output_bytes(),
        b"\x1b[5;1H\x1b[2K  world\x1b[0m\x1b[5;8H\x1b[5;8H"
    );
}

#[test]
fn legacy_disables_passthrough() {
    let mut h = Bench::new(80, 24, false, with_flags(true, true));
    h.feed(b"\x1b[?1049h\x1b[2J\x1b[Hhello");
    h.harness.reset_output();
    let update = b"\x1b[5;3Hworld";
    h.feed(update);
    assert_ne!(
        h.harness.output_bytes(),
        update,
        "legacy mode should re-render, not pass through"
    );
}

#[test]
fn passthrough_exit_reconciles_to_primary() {
    let mut h = Bench::new(80, 24, false, with_flags(false, true));
    h.feed(b"\x1b[?1049h\x1b[2J\x1b[Halt-content");
    h.feed(b"\x1b[3;3Hmore-alt");
    h.harness.reset_output();
    h.feed(b"\x1b[?1049l\r\n$ ready");
    let out = h.harness.output_bytes();
    assert!(
        contains(out, b"\x1b[?1049l"),
        "alt-screen reset should be forwarded on exit"
    );
    assert!(
        contains(out, b"ready"),
        "primary prompt should be re-rendered after exit"
    );
    assert_eq!(count(out, b"\x1b[2K"), 24);
}

#[test]
fn native_clear_collapses_full_erase() {
    let mut vt = Emulator::new(80, 24);
    let mut perf = Perf::new();
    let mut renderer = Renderer::new(24);
    let mut out = String::new();
    for r in 1..=24 {
        vt.write(format!("\x1b[{r};1Hrow {r} content here").as_bytes());
    }
    renderer.render_full(&mut out, &mut perf, &vt.screen());
    assert_eq!(count(out.as_bytes(), b"\x1b[2K"), 24);
    out.clear();

    vt.write(b"\x1b[2J\x1b[Huser@host:~$ ");
    renderer.native_clear(&mut out);
    renderer.render(&mut out, &mut perf, &vt.screen());

    let out = out.as_bytes();
    assert_eq!(
        count(out, b"\x1b[2J"),
        1,
        "expected exactly one native screen clear, got {:?}",
        String::from_utf8_lossy(out)
    );
    assert_eq!(
        count(out, b"\x1b[2K"),
        1,
        "blank rows must be skipped, got {:?}",
        String::from_utf8_lossy(out)
    );
    assert!(
        out.windows(12).any(|w| w == b"user@host:~$"),
        "prompt row must still be drawn, got {:?}",
        String::from_utf8_lossy(out)
    );
}

#[test]
fn status_line_is_left_out_on_the_alternate_screen() {
    let mut h = Bench::new(20, 4, true, with_flags(false, false));
    h.feed(b"hello");
    assert!(contains(h.harness.output_bytes(), b"<status>"));
    h.harness.reset_output();
    h.feed(b"\x1b[?1049h\x1b[2J\x1b[Hfull");
    assert!(!contains(h.harness.output_bytes(), b"<status>"));
    let mut h = Bench::new(20, 4, true, with_flags(true, false));
    h.feed(b"\x1b[?1049h\x1b[2J\x1b[Hfull");
    assert!(contains(h.harness.output_bytes(), b"<status>"));
}

#[test]
fn harness_pushes_scrollback() {
    let mut h = Bench::new(20, 2, false, with_flags(false, true));
    h.feed(b"one\r\ntwo\r\nthree\r\nfour");
    let out = h.harness.output_bytes();
    assert!(contains(
        out,
        b"\x1b[1;2r\x1b[1;1H\x1b[2K\x1b[2;1H\x1b[2K\x1b[1;1Hone\x1b[0m\x1b[2;1Htwo\x1b[0m\x1b[2;1H\n\n\x1b[r"
    ));
    assert!(h.emulator.history.is_empty());
    assert!(contains(out, b"\x1b[1;1H\x1b[2Kthree\x1b[0m"));
    assert!(contains(out, b"\x1b[2;1H\x1b[2Kfour\x1b[0m"));
}

/// A session with all that surrounds its event loop.
struct World {
    lp: EventLoop,
    perf: Perf,
    emulator: Emulator,
    esc: EscapeState,
    out: Vec<u8>,
    flushes: usize,
    shell: Vec<u8>,
    told: Vec<ShellEvent>,
    status: Vec<StatusUpdate>,
    erased_marks: usize,
    measured: Option<(u16, u16)>,
}

impl World {
    fn open(status_line: bool, row_offset: u16, perf: Perf) -> World {
        let config = SessionConfig {
            show_status_line: status_line,
            size: None,
        };
        let detected = PtySize {
            rows: 5,
            cols: 20,
            pixel_width: 0,
            pixel_height: 0,
        };
        let session = ShellSession::new(config, detected);
        let pty = session.pty_size();
        let (lp, turn) = EventLoop::open(session, row_offset);
        let mut world = World {
            lp,
            perf,
            emulator: Emulator::new(pty.cols as usize, pty.rows as usize),
            esc: no_escapes(),
            out: Vec::new(),
            flushes: 0,
            shell: Vec::new(),
            told: Vec::new(),
            status: Vec::new(),
            erased_marks: 0,
            measured: None,
        };
        assert_eq!(world.go(turn, Vec::new()), None);
        world
    }

    /// Does what a turn asks for, with the given events there already, until
    /// the loop waits (`None`) or exits.
    fn go(&mut self, turn: Turn, mut there: Vec<Event>) -> Option<Option<u32>> {
        let mut turn = turn;
        loop {
            self.out.extend_from_slice(&turn.terminal);
            if turn.flush {
                self.flushes += 1;
            }
            self.shell.extend_from_slice(&turn.shell);
            if let Some(event) = turn.tell {
                self.told.push(event);
            }
            if let Some(plan) = turn.resize {
                self.emulator = Emulator::new(plan.pty.cols as usize, plan.pty.rows as usize);
                if plan.notify {
                    self.shell.extend_from_slice(b"<resized>");
                }
            }
            if !matches!(turn.status, StatusUpdate::Keep) {
                self.status.push(turn.status);
            }
            turn = match turn.next {
                Next::Wait => {
                    assert!(there.is_empty());
                    return None;
                }
                Next::Exit(code) => return Some(code),
                Next::Measure => self.lp.measured(&self.perf, self.measured),
                Next::Scan {
                    batch,
                    chunk,
                    first,
                } => {
                    let scan = scan(&mut self.esc, &chunk, first);
                    self.lp.scanned(batch, chunk, &scan)
                }
                Next::Feed { food, then_do } => {
                    let before = self.emulator.total_rows();
                    match food {
                        Food::Chunk(bytes) => self.emulator.write(&bytes),
                        Food::Text(text) => self.emulator.write(text.as_bytes()),
                    }
                    let after = self.emulator.total_rows();
                    self.lp.fed(&self.perf, then_do, Some(before), Some(after))
                }
                Next::Poll(batch) => {
                    let event = if there.is_empty() {
                        None
                    } else {
                        Some(there.remove(0))
                    };
                    self.lp.polled(&mut self.perf, batch, event)
                }
                Next::Look(purpose) => {
                    let sight = Sight {
                        rows: self.emulator.rows as u16,
                        cursor: self.emulator.cursor(),
                        scrollback_rows: self.emulator.history.len(),
                    };
                    self.lp.looked(&self.perf, purpose, sight)
                }
                Next::Probe {
                    purpose,
                    sight,
                    history,
                    marks,
                } => {
                    let lines = match history {
                        Some(_) => {
                            let lines = self.emulator.history_lines();
                            self.emulator.write(b"\x1b[3J");
                            lines
                        }
                        None => Vec::new(),
                    };
                    let dirty = match marks {
                        Some(n) => {
                            self.erased_marks += n;
                            let mut dirty = self.emulator.take_dirty();
                            dirty.truncate(n);
                            dirty
                        }
                        None => Vec::new(),
                    };
                    self.lp.probed(&self.perf, purpose, sight, lines, dirty)
                }
                Next::Read {
                    purpose,
                    scrollback,
                    screen,
                    rows,
                    status,
                } => {
                    let mut screen = screen;
                    for (row, wanted) in rows.iter().enumerate() {
                        let cells = if *wanted {
                            self.emulator.row_cells(row)
                        } else {
                            Vec::new()
                        };
                        screen.lines.push(cells);
                    }
                    let status = if status { "<status>" } else { "" };
                    assert!(self.lp.can_show(&self.perf, &purpose, &screen));
                    self.lp
                        .read(&mut self.perf, purpose, &scrollback, &screen, status, true)
                }
                Next::Cleanup(ending) => self.lp.cleaned(ending, b"<cleanup>"),
            };
        }
    }

    fn arrive(&mut self, event: Event, there: Vec<Event>) -> Option<Option<u32>> {
        let turn = self.lp.arrived(&self.perf, event, None, false);
        self.go(turn, there)
    }

    fn output(&mut self, chunk: &[u8]) {
        self.out.clear();
        assert_eq!(self.arrive(Event::PtyOutput(chunk.to_vec()), Vec::new()), None);
    }

    fn shown(&self) -> String {
        String::from_utf8(self.out.clone()).unwrap()
    }
}

#[test]
fn opening_draws_every_row_and_the_status_line() {
    let world = World::open(true, 0, Perf::new());
    assert_eq!(
        world.shown(),
        "\x1b[1;1H\x1b[2K\x1b[0m\x1b[2;1H\x1b[2K\x1b[0m\x1b[3;1H\x1b[2K\x1b[0m\
         \x1b[4;1H\x1b[2K\x1b[0m<status>\x1b[1;1H"
    );
    assert_eq!(world.flushes, 1);
}

#[test]
fn opening_below_other_rows_draws_none() {
    let world = World::open(true, 2, Perf::new());
    assert_eq!(world.shown(), "<status>\x1b[3;1H");
    assert_eq!(world.lp.renderer.row_offset, 2);
    assert_eq!(world.lp.renderer.prev_lines.len(), 4);
}

#[test]
fn batch_is_one_synchronized_frame() {
    let mut world = World::open(true, 0, Perf::new());
    world.output(b"hi");
    assert_eq!(
        world.shown(),
        "\x1b[?2026h\x1b[1;1H\x1b[2Khi\x1b[0m\x1b[1;3H<status>\x1b[1;3H\x1b[?2026l"
    );
    world.output(b"");
    assert_eq!(world.shown(), "\x1b[?2026h<status>\x1b[1;3H\x1b[?2026l");
}

#[test]
fn only_changed_rows_are_read() {
    let mut world = World::open(true, 0, Perf::new());
    world.output(b"one\r\ntwo\r\nthree");
    let before = world.emulator.reads;
    world.output(b"!");
    assert_eq!(world.emulator.reads, before + 1);
    assert!(world.shown().contains("three!"));
    assert!(!world.shown().contains("two"));
    let mut world = World::open(true, 0, with_flags(true, true));
    world.output(b"one\r\ntwo\r\nthree");
    let before = world.emulator.reads;
    world.output(b"!");
    assert_eq!(world.emulator.reads, before + 4);
    assert!(!world.shown().contains("two"));
    assert_eq!(world.erased_marks, 0);
}

#[test]
fn chunks_that_wait_join_the_batch() {
    let mut perf = Perf::new();
    perf::set_enabled(&mut perf, true);
    let mut world = World::open(false, 0, perf);
    world.out.clear();
    let there = vec![
        Event::PtyOutput(b"cd".to_vec()),
        Event::Stdin(b"typed".to_vec()),
        Event::Stdin(Vec::new()),
        Event::PtyOutput(b"ef".to_vec()),
    ];
    assert_eq!(world.arrive(Event::PtyOutput(b"ab".to_vec()), there), None);
    assert_eq!(
        world.shown(),
        "\x1b[?2026h\x1b[1;1H\x1b[2Kabcdef\x1b[0m\x1b[1;7H\x1b[1;7H\x1b[?2026l"
    );
    assert_eq!(world.shell, b"typed");
    assert_eq!(world.perf.counters.frames, 1);
    assert_eq!(world.perf.counters.chunks, 3);
    assert_eq!(world.perf.counters.bytes_in, 6);
}

#[test]
fn keys_of_the_session_are_not_looked_for_in_a_batch() {
    let mut world = World::open(false, 0, Perf::new());
    let there = vec![Event::Stdin(vec![0x1b, 0x04])];
    assert_eq!(world.arrive(Event::PtyOutput(b"x".to_vec()), there), None);
    assert_eq!(world.shell, vec![0x1b, 0x04]);
    assert!(world.told.is_empty());
}

#[test]
fn full_screen_program_is_copied_through() {
    let mut perf = Perf::new();
    perf::set_enabled(&mut perf, true);
    let mut world = World::open(true, 0, perf);
    world.output(b"\x1b[?1049h\x1b[2J\x1b[Hfull");
    assert!(!world.shown().contains("<status>"));
    assert!(world.shown().starts_with("\x1b[?1049h\x1b[?2026h"));
    world.out.clear();
    let there = vec![Event::PtyOutput(b"\x1b[?1000hb".to_vec())];
    assert_eq!(
        world.arrive(Event::PtyOutput(b"\x1b[2;2Ha".to_vec()), there),
        None
    );
    assert_eq!(world.shown(), "\x1b[2;2Ha\x1b[?1000hb");
    assert_eq!(world.perf.counters.passthrough_batches, 1);
    assert_eq!(world.perf.counters.bytes_in, 19 + 7 + 9);
}

#[test]
fn leaving_the_full_screen_program_draws_everything() {
    let mut world = World::open(true, 0, Perf::new());
    world.output(b"prompt");
    world.output(b"\x1b[?1049h\x1b[2J\x1b[Hfull");
    world.out.clear();
    world.status.clear();
    let there = vec![Event::PtyOutput(b"\x1b[?1049l\r\n$".to_vec())];
    assert_eq!(
        world.arrive(Event::PtyOutput(b"gone".to_vec()), there),
        None
    );
    assert_eq!(
        world.shown(),
        "\x1b[?1049l\x1b[?2026h\x1b[1;1H\x1b[2Kprompt\x1b[0m\x1b[2;1H\x1b[2K$\x1b[0m\
         \x1b[3;1H\x1b[2K\x1b[0m\x1b[4;1H\x1b[2K\x1b[0m\x1b[2;2H<status>\x1b[2;2H\x1b[?2026l"
    );
    assert!(matches!(world.status.as_slice(), [StatusUpdate::Redraw]));
}

#[test]
fn exit_in_a_full_screen_program_restores_the_terminal() {
    let mut world = World::open(true, 0, Perf::new());
    world.output(b"\x1b[?1049h\x1b[2J\x1b[Hfull");
    world.out.clear();
    let flushes = world.flushes;
    let there = vec![Event::PtyExit(Some(3))];
    assert_eq!(
        world.arrive(Event::PtyOutput(b"lost".to_vec()), there),
        Some(Some(3))
    );
    assert_eq!(world.shown(), "<cleanup>");
    assert_eq!(world.flushes, flushes + 1);
}

#[test]
fn exit_in_a_batch_draws_a_last_frame() {
    let mut world = World::open(true, 0, Perf::new());
    world.out.clear();
    let flushes = world.flushes;
    let there = vec![Event::PtyExit(None)];
    assert_eq!(
        world.arrive(Event::PtyOutput(b"bye".to_vec()), there),
        Some(None)
    );
    assert_eq!(
        world.shown(),
        "<cleanup>\x1b[1;1H\x1b[2Kbye\x1b[0m\x1b[1;4H"
    );
    assert_eq!(world.flushes, flushes);
}

#[test]
fn exit_after_leaving_the_full_screen_program_feeds_what_was_held_back() {
    let mut world = World::open(false, 0, Perf::new());
    world.output(b"\x1b[?1049h\x1b[2J\x1b[Hfull");
    world.out.clear();
    let there = vec![
        Event::PtyOutput(b"\x1b[?1049lbye".to_vec()),
        Event::PtyExit(Some(0)),
    ];
    assert_eq!(
        world.arrive(Event::PtyOutput(b"x".to_vec()), there),
        Some(Some(0))
    );
    assert!(world.shown().starts_with("\x1b[?1049l<cleanup>\x1b[1;1H\x1b[2Kbye"));
}

#[test]
fn exit_blanks_the_status_line() {
    let mut world = World::open(true, 0, Perf::new());
    world.out.clear();
    assert_eq!(
        world.arrive(Event::PtyExit(Some(7)), Vec::new()),
        Some(Some(7))
    );
    assert_eq!(
        world.shown(),
        "\x1b7\x1b[5;1H\x1b[2K\x1b8<cleanup>"
    );
    let mut world = World::open(false, 0, Perf::new());
    world.out.clear();
    let turn = world.lp.closed();
    assert_eq!(world.go(turn, Vec::new()), Some(None));
    assert_eq!(world.shown(), "<cleanup>");
}

#[test]
fn resize_in_a_batch_comes_right_after_it() {
    let mut world = World::open(true, 0, Perf::new());
    world.out.clear();
    assert_eq!(
        world.arrive(Event::PtyOutput(b"a".to_vec()), vec![Event::Resize]),
        None
    );
    assert!(world.shown().contains("a"));
    assert_eq!(world.lp.wait(true, true), Wait::ResizeNow);
    assert_eq!(world.lp.wait(true, true), Wait::SpinnerStep);
    assert_eq!(world.lp.wait(false, true), Wait::ReloadNotice);
    assert_eq!(world.lp.wait(false, false), Wait::Event);
}

#[test]
fn resize_draws_everything_and_tells() {
    let mut world = World::open(true, 2, Perf::new());
    world.out.clear();
    world.measured = Some((10, 3));
    assert_eq!(world.arrive(Event::Resize, Vec::new()), None);
    assert_eq!(
        world.shown(),
        "\x1b[1;1H\x1b[2K\x1b[0m\x1b[2;1H\x1b[2K\x1b[0m<status>\x1b[1;1H"
    );
    assert!(matches!(
        world.told.as_slice(),
        [ShellEvent::Resize { cols: 10, rows: 2 }]
    ));
    assert!(matches!(world.status.as_slice(), [StatusUpdate::Redraw]));
    assert!(world.shell.is_empty());
    world.out.clear();
    assert_eq!(world.arrive(Event::Resize, Vec::new()), None);
    world.measured = None;
    assert_eq!(world.arrive(Event::Resize, Vec::new()), None);
    assert_eq!(world.shown(), "");
    assert_eq!(world.told.len(), 1);
}

#[test]
fn resize_leaves_the_drawing_to_a_full_screen_program() {
    let mut world = World::open(true, 0, Perf::new());
    world.output(b"\x1b[?1049h\x1b[?2048h\x1b[2J\x1b[Hfull");
    world.out.clear();
    world.measured = Some((10, 3));
    assert_eq!(world.arrive(Event::Resize, Vec::new()), None);
    assert_eq!(world.shown(), "");
    assert_eq!(world.shell, b"<resized>");
    assert!(world.lp.renderer.force_full);
    assert_eq!(world.lp.renderer.content_rows, 2);
    assert_eq!(world.told.len(), 1);
}

#[test]
fn commands_update_the_status_line_and_draw() {
    let mut world = World::open(true, 0, Perf::new());
    world.out.clear();
    let command = ShellCommand::Building {
        changed_files: vec!["a.nix".to_string()],
    };
    assert_eq!(world.arrive(Event::Command(command), Vec::new()), None);
    assert_eq!(
        world.shown(),
        "\x1b[?2026h<status>\x1b[1;1H\x1b[?2026l"
    );
    assert!(matches!(world.status.as_slice(), [StatusUpdate::Building(files)] if files.len() == 1));
    world.out.clear();
    let command = ShellCommand::PrintWatchedFiles {
        files: vec!["b.nix".to_string()],
    };
    assert_eq!(world.arrive(Event::Command(command), Vec::new()), None);
    assert!(world.shown().contains("b.nix"));
    world.output(b"\x1b[?1049h\x1b[2J\x1b[Hfull");
    world.out.clear();
    assert_eq!(
        world.arrive(Event::Command(ShellCommand::ReloadApplied), Vec::new()),
        None
    );
    assert_eq!(world.shown(), "");
}

#[test]
fn command_in_a_batch_prints_into_it() {
    let mut world = World::open(false, 0, Perf::new());
    world.out.clear();
    let there = vec![
        Event::Command(ShellCommand::PrintWatchedFiles {
            files: vec!["b.nix".to_string()],
        }),
        Event::Command(ShellCommand::WatchingPaused { paused: true }),
    ];
    assert_eq!(world.arrive(Event::PtyOutput(b"a".to_vec()), there), None);
    assert!(world.shown().contains("b.nix"));
    assert_eq!(count(&world.out, b"\x1b[?2026h"), 1);
    assert!(matches!(world.status.as_slice(), [StatusUpdate::Paused(true)]));
}

#[test]
fn spinner_and_notice_redraw_the_status_line() {
    let mut world = World::open(true, 0, Perf::new());
    world.out.clear();
    let turn = world.lp.timed_out(&world.perf, Wait::SpinnerStep);
    assert_eq!(world.go(turn, Vec::new()), None);
    assert_eq!(
        world.shown(),
        "\x1b[?2026h<status>\x1b[1;1H\x1b[?2026l"
    );
    assert!(world.status.is_empty());
    world.output(b"\x1b[?1049h\x1b[2J\x1b[Hfull");
    world.out.clear();
    world.status.clear();
    let turn = world.lp.timed_out(&world.perf, Wait::ReloadNotice);
    assert_eq!(world.go(turn, Vec::new()), None);
    assert_eq!(world.shown(), "");
    assert!(matches!(
        world.status.as_slice(),
        [StatusUpdate::ClearReloaded]
    ));
}

#[test]
fn build_error_is_shown_and_hidden() {
    let mut world = World::open(true, 0, Perf::new());
    world.out.clear();
    let key = || Event::Stdin(vec![0x1b, 0x05]);
    let turn = world.lp.arrived(&world.perf, key(), Some("bad\n"), false);
    assert_eq!(world.go(turn, Vec::new()), None);
    assert!(world.shown().contains("Build error:"));
    assert!(world.shown().ends_with("<status>\x1b[4;1H"));
    world.out.clear();
    let turn = world.lp.arrived(&world.perf, key(), Some("bad\n"), true);
    assert_eq!(world.go(turn, Vec::new()), None);
    assert_eq!(world.shown(), "<status>\x1b[4;1H");
    assert_eq!(world.shell, vec![0x0c]);
    assert!(matches!(
        world.status.as_slice(),
        [StatusUpdate::ErrorShown(true), StatusUpdate::ErrorShown(false)]
    ));
    world.out.clear();
    let turn = world.lp.arrived(&world.perf, key(), None, false);
    assert_eq!(world.go(turn, Vec::new()), None);
    assert_eq!(world.shown(), "");
}

#[test]
fn session_keys_are_told_and_other_input_forwarded() {
    let mut world = World::open(true, 0, Perf::new());
    assert_eq!(world.arrive(Event::Stdin(vec![0x1b, 0x04]), Vec::new()), None);
    assert_eq!(world.arrive(Event::Stdin(vec![0x1b, 0x17]), Vec::new()), None);
    assert!(matches!(
        world.told.as_slice(),
        [ShellEvent::TogglePause, ShellEvent::ListWatchedFiles]
    ));
    assert!(world.shell.is_empty());
    assert_eq!(world.arrive(Event::Stdin(b"ls\r".to_vec()), Vec::new()), None);
    assert_eq!(world.shell, b"ls\r");
}

#[test]
fn rows_above_the_screen_are_scrolled_off_as_needed() {
    let mut world = World::open(true, 2, Perf::new());
    world.output(b"a\r\nb");
    assert_eq!(
        world.shown(),
        "\x1b[?2026h\x1b[3;1H\x1b[2Ka\x1b[0m\x1b[4;1H\x1b[2Kb\x1b[0m\x1b[4;2H<status>\x1b[4;2H\x1b[?2026l"
    );
    world.output(b"\r\nc");
    assert_eq!(world.lp.renderer.row_offset, 1);
    assert!(world.shown().starts_with("\x1b[?2026h\x1b[1;4r\x1b[4;1H\n\x1b[r\x1b[2;1H\x1b[2Ka"));
    world.output(b"\x1b[2J\x1b[H$");
    assert_eq!(world.lp.renderer.row_offset, 0);
    assert_eq!(
        world.shown(),
        "\x1b[?2026h\x1b[1;4r\x1b[4;1H\n\x1b[r\x1b[2J\x1b[1;1H\x1b[1;1H\x1b[2K$\x1b[0m\
         \x1b[1;2H<status>\x1b[1;2H\x1b[?2026l"
    );
}

#[test]
fn erased_scrollback_is_erased_in_the_terminal() {
    let mut world = World::open(false, 0, Perf::new());
    world.output(b"\x1b[3J");
    assert_eq!(
        world.shown(),
        "\x1b[?2026h\x1b[3J\x1b[1;1H\x1b[?2026l"
    );
}

#[test]
fn scrollback_is_pushed_once() {
    let mut world = World::open(true, 0, Perf::new());
    world.output(b"1\r\n2\r\n3\r\n4\r\n5\r\n6");
    assert_eq!(count(&world.out, b"\n"), 2);
    assert!(world.emulator.history.is_empty());
    assert_eq!(world.lp.renderer.scrollback_flushed, 0);
    world.output(b"\r\n7");
    assert_eq!(count(&world.out, b"\n"), 1);
    assert!(world.shown().contains("\x1b[1;1H3\x1b[0m\x1b[4;1H\n"));
    world.output(b"!");
    assert_eq!(count(&world.out, b"\n"), 0);
}

#[test]
fn harness_writes_what_a_session_writes() {
    let mut bench = Bench::new(20, 4, true, Perf::new());
    let mut world = World::open(true, 0, Perf::new());
    bench.feed(b"one\r\n");
    world.output(b"one\r\n");
    for chunk in [
        "two",
        "\r\nthree\r\nfour\r\nfive",
        "\x1b[2J\x1b[Hagain",
        "\x1b[?1049h\x1b[2J\x1b[Hfull",
        "\x1b[?1049lback",
    ] {
        bench.harness.reset_output();
        bench.feed(chunk.as_bytes());
        world.output(chunk.as_bytes());
        let shown = world.shown();
        let unmarked = shown.replace("\x1b[?2026h", "").replace("\x1b[?2026l", "");
        assert_eq!(unmarked.as_bytes(), bench.harness.output_bytes(), "{chunk:?}");
    }
}

#[test]
fn shutdown_command_ends_the_session() {
    let mut world = World::open(true, 0, Perf::new());
    world.out.clear();
    assert_eq!(
        world.arrive(Event::Command(ShellCommand::Shutdown), Vec::new()),
        Some(None)
    );
    assert_eq!(world.shown(), "\x1b7\x1b[5;1H\x1b[2K\x1b8<cleanup>");
    assert!(world.status.is_empty());
    let mut world = World::open(true, 0, Perf::new());
    world.output(b"\x1b[?1049h\x1b[2J\x1b[Hfull");
    world.out.clear();
    assert_eq!(
        world.arrive(Event::Command(ShellCommand::Shutdown), Vec::new()),
        Some(None)
    );
    assert_eq!(world.shown(), "<cleanup>");
}

#[test]
fn shutdown_command_in_a_batch_ends_the_session() {
    let mut world = World::open(true, 0, Perf::new());
    world.out.clear();
    let there = vec![Event::Command(ShellCommand::Shutdown)];
    assert_eq!(
        world.arrive(Event::PtyOutput(b"bye".to_vec()), there),
        Some(None)
    );
    assert_eq!(
        world.shown(),
        "<cleanup>\x1b[1;1H\x1b[2Kbye\x1b[0m\x1b[1;4H"
    );
    let mut world = World::open(true, 0, Perf::new());
    world.output(b"\x1b[?1049h\x1b[2J\x1b[Hfull");
    world.out.clear();
    let there = vec![Event::Command(ShellCommand::Shutdown)];
    assert_eq!(
        world.arrive(Event::PtyOutput(b"lost".to_vec()), there),
        Some(None)
    );
    assert_eq!(world.shown(), "<cleanup>");
}

#[test]
fn grid_dirty_is_consumed_by_update() {
    fn count_grid_dirty(vt: &Emulator, rows: u16) -> u32 {
        let marks = Screen {
            rows,
            dirty: vt.dirty.iter().map(|d| Some(*d)).collect(),
            ..blank_screen()
        };
        Renderer::collect_dirty(&Perf::new(), &marks, rows as usize)
            .into_iter()
            .filter(|dirty| *dirty)
            .count() as u32
    }

    let mut vt = Emulator::new(80, 24);
    vt.write(b"\x1b[2J\x1b[Hhello");
    let n1 = count_grid_dirty(&vt, 24);
    vt.take_dirty();
    let n2 = count_grid_dirty(&vt, 24);

    vt.write(b"\x1b[10;5HZ");
    let n3 = count_grid_dirty(&vt, 24);
    vt.take_dirty();
    let n4 = count_grid_dirty(&vt, 24);

    assert!(n1 >= 1, "write should dirty >=1 row, got {n1}");
    assert_eq!(n2, 0, "update should consume grid dirty, got {n2}");
    assert!(
        (1..=3).contains(&n3),
        "single-cell change should dirty a small subset, got {n3}"
    );
    assert_eq!(n4, 0, "update should consume grid dirty again, got {n4}");
}

#[test]
fn harness_marks_the_status_line_after_a_clear() {
    let clear = |esc: EscapeState| Scan {
        esc: EscapeState {
            erase_display: true,
            ..esc
        },
        forwarded: Vec::new(),
    };
    let perf = Perf::new();
    let harness = RenderHarness::new(20, 4, true);
    let plan = harness.plan(&perf, &clear(no_escapes()));
    assert!(plan.clears && plan.marks_status && plan.scrolls && plan.draws_status);
    assert!(!plan.switched);
    let plan = harness.plan(&with_flags(true, true), &clear(no_escapes()));
    assert!(!plan.clears && !plan.marks_status);
    let alternate = EscapeState {
        in_alternate_screen: true,
        ..no_escapes()
    };
    let plan = harness.plan(&perf, &clear(alternate));
    assert!(plan.switched && !plan.clears && !plan.scrolls && !plan.draws_status);
    assert!(!harness.copies_chunk(&perf, &clear(alternate)));
    let harness = RenderHarness::new(20, 4, false);
    assert!(!harness.plan(&perf, &clear(no_escapes())).marks_status);
}
