//! Differential renderer: draws what changed on the emulator's screen into a
//! bounded region of the terminal, above the status line.

use vstd::prelude::*;

use crate::ansi;
use crate::cell;
use crate::cell::Cell;
use crate::perf;
use crate::perf::Perf;
use crate::text;

verus! {

/// Position and visibility of a cursor.
#[derive(Clone, Copy, Debug, PartialEq, Eq, Structural)]
pub struct CursorState {
    pub col: u16,
    pub row: u16,
    pub visible: bool,
}

/// The emulator's screen as read for one frame.
#[derive(Debug)]
pub struct Screen {
    /// Number of rows.
    pub rows: u16,
    /// Per row, whether it changed since the last frame; `None` where the
    /// query failed.
    pub dirty: Vec<Option<bool>>,
    /// Per row, its cells. Rows that are not going to be looked at may be left
    /// out or empty.
    pub lines: Vec<Vec<Cell>>,
    pub cursor: CursorState,
}

/// A line that scrolled off the emulator's screen.
#[derive(Debug)]
pub struct HistoryLine {
    pub cells: Vec<Cell>,
    /// Whether it goes on a soft-wrapped line; `None` where the query failed.
    pub continuation: Option<bool>,
    /// Whether it is soft-wrapped; `None` where the query failed.
    pub wrapped: Option<bool>,
}

/// The emulator's scrollback.
#[derive(Debug)]
pub struct Scrollback {
    /// Number of lines.
    pub rows: usize,
    /// The lines, oldest first. Those that the terminal has already may be
    /// empty.
    pub lines: Vec<HistoryLine>,
}

/// What becomes of a row in a frame.
#[derive(Clone, Copy, Debug, PartialEq, Eq, Structural)]
pub enum RowFate {
    /// Not looked at: it did not change.
    Untouched,
    /// Blank, and the terminal shows it blank already.
    Blank,
    /// Looked at, and the same as in the last frame.
    Same,
    /// Drawn.
    Redrawn,
}

/// Differential renderer.
#[derive(Debug)]
pub struct Renderer {
    /// Cells of the last frame, by their identities, one line per row.
    pub prev_lines: Vec<Vec<u64>>,
    /// Cursor of the last frame.
    pub prev_cursor: CursorState,
    /// Number of terminal rows above the first row of the screen. It shrinks
    /// as the screen scrolls and ends with a resize or a full-screen program.
    pub row_offset: u16,
    /// Number of terminal rows that may be drawn into, without the status line.
    pub content_rows: u16,
    /// Number of scrollback lines that the terminal has already.
    pub scrollback_flushed: usize,
    /// Whether the next frame looks at every row.
    pub force_full: bool,
    /// Whether the terminal was just cleared, so that blank rows need no
    /// drawing in the next frame.
    pub cleared: bool,
}

/// State of a renderer.
#[verifier::ext_equal]
pub struct RendererState {
    pub lines: Seq<Seq<u64>>,
    pub cursor: CursorState,
    pub row_offset: u16,
    pub content_rows: u16,
    pub flushed: usize,
    pub force_full: bool,
    pub cleared: bool,
}

impl View for Renderer {
    type V = RendererState;

    open spec fn view(&self) -> RendererState {
        RendererState {
            lines: self.prev_lines@.map_values(|line: Vec<u64>| line@),
            cursor: self.prev_cursor,
            row_offset: self.row_offset,
            content_rows: self.content_rows,
            flushed: self.scrollback_flushed,
            force_full: self.force_full,
            cleared: self.cleared,
        }
    }
}

impl Screen {
    /// The cells of a row, none where it was left out.
    pub open spec fn line(self, i: int) -> Seq<Cell> {
        if 0 <= i < self.lines@.len() {
            self.lines@[i]@
        } else {
            Seq::empty()
        }
    }

    /// Whether a row counts as changed: always with legacy rendering, and
    /// unless it is known not to have changed otherwise.
    pub open spec fn row_dirty(self, legacy: bool, i: int) -> bool {
        legacy || !(0 <= i < self.dirty@.len() && self.dirty@[i] == Some(false))
    }
}

impl Scrollback {
    /// The cells of a line, none where it was left out.
    pub open spec fn line(self, y: int) -> Seq<Cell> {
        if 0 <= y < self.lines@.len() {
            self.lines@[y].cells@
        } else {
            Seq::empty()
        }
    }

    /// Whether a line is known to go on a soft-wrapped one.
    pub open spec fn continues(self, y: int) -> bool {
        0 <= y < self.lines@.len() && self.lines@[y].continuation == Some(true)
    }

    /// Whether a line is known to be soft-wrapped.
    pub open spec fn wraps(self, y: int) -> bool {
        0 <= y < self.lines@.len() && self.lines@[y].wrapped == Some(true)
    }
}

/// Terminal row of the cursor, in the arithmetic of a `u16`.
pub open spec fn cursor_row(cursor: CursorState, row_offset: u16) -> nat {
    ((cursor.row + row_offset) % 0x1_0000) as nat
}

/// Whether the terminal can be told to put its cursor there: the coordinates
/// that it is told are one more than these.
pub open spec fn placeable(cursor: CursorState, row_offset: u16) -> bool {
    cursor.col < u16::MAX && cursor_row(cursor, row_offset) < u16::MAX
}

impl CursorState {
    /// Whether the terminal can be told to put its cursor there, `row_offset`
    /// rows further down.
    pub fn is_placeable(&self, row_offset: u16) -> (yes: bool)
        ensures
            yes == placeable(*self, row_offset),
    {
        self.col < u16::MAX && (self.row as u32 + row_offset as u32) % 0x1_0000 < u16::MAX as u32
    }
}

/// What puts the terminal's cursor where the emulator has it.
pub open spec fn place_seq(cursor: CursorState, row_offset: u16) -> Seq<char> {
    ansi::move_to_seq(cursor.col as nat, cursor_row(cursor, row_offset))
}

/// What brings the terminal's cursor from its state in the last frame to a
/// new one.
pub open spec fn cursor_update_seq(from: CursorState, to: CursorState, row_offset: u16) -> Seq<
    char,
> {
    if to == from {
        Seq::empty()
    } else if to.visible && !from.visible {
        ansi::show_cursor_seq() + place_seq(to, row_offset)
    } else if !to.visible && from.visible {
        ansi::hide_cursor_seq() + place_seq(to, row_offset)
    } else {
        place_seq(to, row_offset)
    }
}

impl RendererState {
    /// Number of screen rows that fit into the terminal.
    pub open spec fn visible_rows(self) -> nat {
        if self.row_offset <= self.content_rows {
            (self.content_rows - self.row_offset) as nat
        } else {
            0
        }
    }

    /// Number of rows that a frame goes through.
    pub open spec fn limit(self, screen: Screen) -> nat {
        if screen.rows <= self.visible_rows() {
            screen.rows as nat
        } else {
            self.visible_rows()
        }
    }

    /// Whether row `i` is as it was when it was last looked at.
    pub open spec fn remembers(self, screen: Screen, i: int) -> bool {
        i < self.lines.len() && cell::row_ids(screen.line(i)) == self.lines[i]
    }

    /// What becomes of row `i`.
    pub open spec fn fate(self, legacy: bool, screen: Screen, i: int) -> RowFate {
        if !self.force_full && !screen.row_dirty(legacy, i) {
            RowFate::Untouched
        } else if self.cleared && cell::blank_row(screen.line(i)) {
            RowFate::Blank
        } else if self.remembers(screen, i) {
            RowFate::Same
        } else {
            RowFate::Redrawn
        }
    }

    /// Whether the cells of row `i` are kept for comparison with later frames.
    pub open spec fn kept(self, legacy: bool, screen: Screen, i: int) -> bool {
        self.fate(legacy, screen, i) == RowFate::Blank || self.fate(legacy, screen, i)
            == RowFate::Redrawn
    }

    /// What draws row `i` at its place in the terminal.
    pub open spec fn row_seq(self, screen: Screen, i: int) -> Seq<char> {
        ansi::move_to_seq(0, (i + self.row_offset) as nat) + ansi::erase_seq(ansi::Erase::Line)
            + cell::row_text(screen.line(i)) + ansi::reset_color_seq()
    }

    /// What draws those of the first `n` rows that are redrawn.
    pub open spec fn rows_seq(self, legacy: bool, screen: Screen, n: int) -> Seq<char>
        decreases n,
    {
        if n <= 0 {
            Seq::empty()
        } else if self.fate(legacy, screen, n - 1) == RowFate::Redrawn {
            self.rows_seq(legacy, screen, n - 1) + self.row_seq(screen, n - 1)
        } else {
            self.rows_seq(legacy, screen, n - 1)
        }
    }

    /// Number of rows among the first `n` that are redrawn.
    pub open spec fn redrawn(self, legacy: bool, screen: Screen, n: int) -> nat
        decreases n,
    {
        if n <= 0 {
            0
        } else if self.fate(legacy, screen, n - 1) == RowFate::Redrawn {
            self.redrawn(legacy, screen, n - 1) + 1
        } else {
            self.redrawn(legacy, screen, n - 1)
        }
    }

    /// One more than the last row among the first `n` that is kept.
    pub open spec fn kept_end(self, legacy: bool, screen: Screen, n: int) -> nat
        decreases n,
    {
        if n <= 0 {
            0
        } else if self.kept(legacy, screen, n - 1) {
            n as nat
        } else {
            self.kept_end(legacy, screen, n - 1)
        }
    }

    /// The lines of the last frame after the first `n` rows: those kept
    /// replace their predecessors, and what was never drawn is empty.
    pub open spec fn lines_after(self, legacy: bool, screen: Screen, n: int) -> Seq<Seq<u64>> {
        let end = self.kept_end(legacy, screen, n);
        Seq::new(
            if end <= self.lines.len() {
                self.lines.len()
            } else {
                end
            },
            |i: int|
                if i < n && self.kept(legacy, screen, i) {
                    cell::row_ids(screen.line(i))
                } else if i < self.lines.len() {
                    self.lines[i]
                } else {
                    Seq::empty()
                },
        )
    }

    /// What a frame writes: the rows that changed, and the cursor.
    pub open spec fn frame_seq(self, legacy: bool, screen: Screen) -> Seq<char> {
        self.rows_seq(legacy, screen, self.limit(screen) as int) + cursor_update_seq(
            self.cursor,
            screen.cursor,
            self.row_offset,
        )
    }

    /// The state after a frame.
    pub open spec fn after_frame(self, legacy: bool, screen: Screen) -> RendererState {
        RendererState {
            lines: self.lines_after(legacy, screen, self.limit(screen) as int),
            cursor: screen.cursor,
            force_full: false,
            cleared: false,
            ..self
        }
    }

    /// The profiler after a frame.
    pub open spec fn perf_after(self, perf: Perf, screen: Screen) -> Perf {
        let drawn = self.redrawn(perf.legacy_render, screen, self.limit(screen) as int);
        perf.with_rows(drawn, (self.limit(screen) - drawn) as nat)
    }

    /// Whether a frame can place the cursor, if it has to.
    pub open spec fn can_place(self, screen: Screen) -> bool {
        screen.cursor != self.cursor ==> placeable(screen.cursor, self.row_offset)
    }

    /// Whether a frame looks at the cells of row `i`.
    pub open spec fn looks_at(self, legacy: bool, screen: Screen, i: int) -> bool {
        self.force_full || screen.row_dirty(legacy, i)
    }

    /// Which rows a frame looks at.
    pub open spec fn read_rows(self, legacy: bool, screen: Screen) -> Seq<bool> {
        Seq::new(self.limit(screen), |i: int| self.looks_at(legacy, screen, i))
    }

    /// The state after the terminal was cleared.
    pub open spec fn after_clear(self) -> RendererState {
        RendererState {
            lines: Seq::empty(),
            cursor: CursorState { col: 0, row: 0, visible: self.cursor.visible },
            cleared: true,
            ..self
        }
    }

    /// The state after the screen was taken for the last frame.
    pub open spec fn synced(self, screen: Screen) -> RendererState {
        RendererState {
            lines: Seq::new(screen.rows as nat, |i: int| cell::row_ids(screen.line(i))),
            cursor: screen.cursor,
            ..self
        }
    }

    /// Number of scrollback lines that the terminal does not have yet.
    pub open spec fn unflushed(self, scrollback: Scrollback) -> int {
        if self.flushed <= scrollback.rows {
            scrollback.rows - self.flushed
        } else {
            0
        }
    }

    /// Whether there are scrollback lines to push and rows to draw them on.
    pub open spec fn flushes(self, scrollback: Scrollback) -> bool {
        self.unflushed(scrollback) > 0 && self.content_rows > 0
    }

    /// What pushes the new scrollback lines into the terminal's scrollback.
    pub open spec fn flush_seq(self, scrollback: Scrollback) -> Seq<char> {
        if self.flushes(scrollback) {
            ansi::scroll_region_seq(1, self.content_rows as nat) + batches_seq(
                scrollback,
                self.flushed as int,
                self.unflushed(scrollback),
                self.content_rows,
            ) + ansi::reset_scroll_region_seq()
        } else {
            Seq::empty()
        }
    }

    /// The state after that.
    pub open spec fn after_flush(self, scrollback: Scrollback) -> RendererState {
        if self.flushes(scrollback) {
            RendererState { flushed: 0, ..self.invalidated() }
        } else {
            self
        }
    }

    /// Nothing of the last frame counts any more.
    pub open spec fn invalidated(self) -> RendererState {
        RendererState { lines: Seq::empty(), force_full: true, ..self }
    }
}

/// What clears the terminal and puts its cursor into the first cell.
pub open spec fn native_clear_seq() -> Seq<char> {
    ansi::erase_seq(ansi::Erase::Screen) + ansi::move_to_seq(0, 0)
}

/// What scrolls the first `content_rows` rows of the terminal by `count` lines.
pub open spec fn scroll_seq(content_rows: u16, count: nat) -> Seq<char> {
    if count == 0 || content_rows == 0 {
        Seq::empty()
    } else {
        ansi::scroll_region_seq(1, content_rows as nat) + ansi::move_to_seq(
            0,
            (content_rows - 1) as nat,
        ) + text::run('\n', count) + ansi::reset_scroll_region_seq()
    }
}

/// What blanks the first `n` rows of the terminal.
pub open spec fn blank_rows_seq(n: int) -> Seq<char>
    decreases n,
{
    if n <= 0 {
        Seq::empty()
    } else {
        blank_rows_seq(n - 1) + ansi::move_to_seq(0, (n - 1) as nat) + ansi::erase_seq(
            ansi::Erase::Line,
        )
    }
}

/// What draws `n` scrollback lines from line `y` on, one per terminal row. A
/// line that goes on a soft-wrapped one is not positioned, so that the
/// terminal wraps into it by itself.
pub open spec fn history_rows_seq(scrollback: Scrollback, y: int, n: int) -> Seq<char>
    decreases n,
{
    if n <= 0 {
        Seq::empty()
    } else {
        history_rows_seq(scrollback, y, n - 1) + cell::when(
            !(scrollback.continues(y + n - 1) && n > 1 && scrollback.wraps(y + n - 2)),
            ansi::move_to_seq(0, (n - 1) as nat),
        ) + cell::row_text(scrollback.line(y + n - 1)) + ansi::reset_color_seq()
    }
}

/// What draws `count` scrollback lines from line `y` on and scrolls them off.
pub open spec fn batch_seq(scrollback: Scrollback, y: int, count: int, content_rows: u16) -> Seq<
    char,
> {
    blank_rows_seq(count) + history_rows_seq(scrollback, y, count) + ansi::move_to_seq(
        0,
        (content_rows - 1) as nat,
    ) + text::run('\n', count as nat)
}

/// What draws `remaining` scrollback lines from line `y` on and scrolls them
/// off, in batches of at most `content_rows`.
pub open spec fn batches_seq(
    scrollback: Scrollback,
    y: int,
    remaining: int,
    content_rows: u16,
) -> Seq<char>
    decreases remaining,
{
    if remaining <= 0 || content_rows == 0 {
        Seq::empty()
    } else if remaining <= content_rows {
        batch_seq(scrollback, y, remaining, content_rows)
    } else {
        batch_seq(scrollback, y, content_rows as int, content_rows) + batches_seq(
            scrollback,
            y + content_rows,
            remaining - content_rows,
            content_rows,
        )
    }
}

/// Lines with line `i` replaced by `ids`, extended by empty lines as far as
/// needed.
pub open spec fn with_line(lines: Seq<Seq<u64>>, i: int, ids: Seq<u64>) -> Seq<Seq<u64>> {
    Seq::new(
        if i < lines.len() {
            lines.len()
        } else {
            (i + 1) as nat
        },
        |j: int|
            if j == i {
                ids
            } else if j < lines.len() {
                lines[j]
            } else {
                Seq::empty()
            },
    )
}

/// At most all of the first `n` rows are redrawn, and those kept are counted.
pub proof fn lemma_counts(r: RendererState, legacy: bool, screen: Screen, n: int)
    requires
        0 <= n,
    ensures
        r.redrawn(legacy, screen, n) <= n,
        r.kept_end(legacy, screen, n) <= n,
        forall|j: int|
            0 <= j < n && #[trigger] r.kept(legacy, screen, j) ==> j < r.kept_end(
                legacy,
                screen,
                n,
            ),
    decreases n,
{
    if n > 0 {
        lemma_counts(r, legacy, screen, n - 1);
    }
}

/// How one row changes the lines that are kept, and where the row's own line
/// is found before.
proof fn lemma_lines_step(r: RendererState, legacy: bool, screen: Screen, i: int)
    requires
        0 <= i,
    ensures
        r.kept(legacy, screen, i) ==> with_line(
            r.lines_after(legacy, screen, i),
            i,
            cell::row_ids(screen.line(i)),
        ) == r.lines_after(legacy, screen, i + 1),
        !r.kept(legacy, screen, i) ==> r.lines_after(legacy, screen, i) == r.lines_after(
            legacy,
            screen,
            i + 1,
        ),
        i < r.lines_after(legacy, screen, i).len() <==> i < r.lines.len(),
        i < r.lines.len() ==> r.lines_after(legacy, screen, i)[i] == r.lines[i],
{
    lemma_counts(r, legacy, screen, i);
    let before = r.lines_after(legacy, screen, i);
    let after = r.lines_after(legacy, screen, i + 1);
    if r.kept(legacy, screen, i) {
        assert(with_line(before, i, cell::row_ids(screen.line(i))) =~= after);
    } else {
        assert(before =~= after);
    }
}

/// Whether an answer is a known yes.
fn is_yes(answer: Option<bool>) -> (yes: bool)
    ensures
        yes == (answer == Some(true)),
{
    match answer {
        Some(v) => v,
        None => false,
    }
}

/// Whether a row has the given identities.
fn same_ids(cells: &Vec<Cell>, ids: &Vec<u64>) -> (same: bool)
    ensures
        same == (cell::row_ids(cells@) == ids@),
{
    if cells.len() != ids.len() {
        assert(cell::row_ids(cells@).len() == cells@.len());
        return false;
    }
    let mut i: usize = 0;
    while i < cells.len()
        invariant
            i <= cells.len(),
            cells@.len() == ids@.len(),
            forall|j: int| 0 <= j < i ==> (#[trigger] cells@[j]).id == ids@[j],
        decreases cells.len() - i,
    {
        if cells[i].id != ids[i] {
            assert(cell::row_ids(cells@)[i as int] != ids@[i as int]);
            return false;
        }
        i = i + 1;
    }
    assert(cell::row_ids(cells@) =~= ids@);
    true
}

/// The identities of a row's cells.
fn ids_of(cells: &Vec<Cell>) -> (ids: Vec<u64>)
    ensures
        ids@ == cell::row_ids(cells@),
{
    let mut ids: Vec<u64> = Vec::new();
    let mut i: usize = 0;
    while i < cells.len()
        invariant
            i <= cells.len(),
            ids@ == cell::row_ids(cells@).take(i as int),
        decreases cells.len() - i,
    {
        ids.push(cells[i].id);
        i = i + 1;
        assert(ids@ =~= cell::row_ids(cells@).take(i as int));
    }
    assert(ids@ =~= cell::row_ids(cells@));
    ids
}

impl Renderer {
    /// A renderer for `content_rows` rows that has drawn nothing yet.
    pub fn new(content_rows: u16) -> (renderer: Renderer)
        ensures
            renderer@ == (RendererState {
                lines: Seq::empty(),
                cursor: CursorState { col: 0, row: 0, visible: true },
                row_offset: 0,
                content_rows,
                flushed: 0,
                force_full: false,
                cleared: false,
            }),
    {
        let renderer = Renderer {
            prev_lines: Vec::new(),
            prev_cursor: CursorState { col: 0, row: 0, visible: true },
            row_offset: 0,
            content_rows,
            scrollback_flushed: 0,
            force_full: false,
            cleared: false,
        };
        assert(renderer@.lines =~= Seq::empty());
        renderer
    }

    /// Number of screen rows that fit into the terminal.
    pub fn visible_rows(&self) -> (rows: usize)
        ensures
            rows == self@.visible_rows(),
    {
        (self.content_rows as usize).saturating_sub(self.row_offset as usize)
    }

    /// Makes the next frame look at every row and draw it.
    pub fn invalidate(&mut self)
        ensures
            final(self)@ == old(self)@.invalidated(),
    {
        self.prev_lines.clear();
        self.force_full = true;
        assert(self@.lines =~= Seq::empty());
    }

    /// Which rows in `0..limit` count as changed.
    pub fn collect_dirty(perf: &Perf, screen: &Screen, limit: usize) -> (dirty: Vec<bool>)
        ensures
            dirty@ == Seq::new(
                limit as nat,
                |i: int| screen.row_dirty(perf.legacy_render, i),
            ),
    {
        let mut dirty: Vec<bool> = Vec::new();
        let mut i: usize = 0;
        while i < limit
            invariant
                i <= limit,
                dirty@ == Seq::new(i as nat, |j: int| screen.row_dirty(perf.legacy_render, j)),
            decreases limit - i,
        {
            let changed = if perf::legacy(perf) || i >= screen.dirty.len() {
                true
            } else {
                match screen.dirty[i] {
                    Some(changed) => changed,
                    None => true,
                }
            };
            dirty.push(changed);
            i = i + 1;
            assert(dirty@ =~= Seq::new(
                i as nat,
                |j: int| screen.row_dirty(perf.legacy_render, j),
            ));
        }
        dirty
    }

    /// Keeps the identities of row `i` for comparison with later frames.
    fn keep_line(&mut self, i: usize, ids: Vec<u64>)
        requires
            i < u16::MAX,
        ensures
            final(self)@ == (RendererState {
                lines: with_line(old(self)@.lines, i as int, ids@),
                ..old(self)@
            }),
    {
        while self.prev_lines.len() <= i
            invariant
                i < u16::MAX,
                self@ == (RendererState { lines: self@.lines, ..old(self)@ }),
                old(self)@.lines.len() <= self@.lines.len(),
                self@.lines.len() <= old(self)@.lines.len() || self@.lines.len() <= i + 1,
                forall|j: int|
                    0 <= j < self@.lines.len() ==> #[trigger] self@.lines[j] == (if j < old(
                        self,
                    )@.lines.len() {
                        old(self)@.lines[j]
                    } else {
                        Seq::empty()
                    }),
            decreases i + 1 - self.prev_lines.len(),
        {
            let ghost before = self@.lines;
            self.prev_lines.push(Vec::new());
            assert(self@.lines =~= before.push(Seq::empty()));
        }
        let ghost before = self@.lines;
        self.prev_lines.set(i, ids);
        assert(self@.lines =~= before.update(i as int, ids@));
        assert(self@.lines =~= with_line(old(self)@.lines, i as int, ids@));
    }

    /// Draws the row that comes `i` rows below the first one.
    fn write_row_from_cells(&self, out: &mut String, i: usize, screen: &Screen, cells: &Vec<Cell>)
        requires
            i < self@.visible_rows(),
            cells@ == screen.line(i as int),
        ensures
            final(out)@ == old(out)@ + self@.row_seq(*screen, i as int),
    {
        ansi::move_to(out, 0, i as u16 + self.row_offset);
        ansi::clear(out, ansi::Erase::Line);
        cell::dump_row_from_cells(out, cells.as_slice());
        ansi::reset_color(out);
        assert(out@ =~= old(out)@ + self@.row_seq(*screen, i as int));
    }

    /// Draws what changed since the last frame, row by row, and moves the
    /// cursor. Rows that did not change are skipped without a look at their
    /// cells, and rows outside the terminal are clipped.
    pub fn render(&mut self, out: &mut String, perf: &mut Perf, screen: &Screen)
        requires
            old(self)@.can_place(*screen),
        ensures
            final(out)@ == old(out)@ + old(self)@.frame_seq(old(perf).legacy_render, *screen),
            final(self)@ == old(self)@.after_frame(old(perf).legacy_render, *screen),
            *final(perf) == old(self)@.perf_after(*old(perf), *screen),
    {
        let ghost r = self@;
        let ghost legacy = perf.legacy_render;
        let ghost start = out@;
        let max_row: usize = self.visible_rows();
        let rows: usize = screen.rows as usize;
        let limit: usize = if rows <= max_row {
            rows
        } else {
            max_row
        };
        let force = self.force_full;
        let cleared = self.cleared;
        self.force_full = false;
        self.cleared = false;
        let dirty = Self::collect_dirty(perf, screen, limit);
        let none: Vec<Cell> = Vec::new();
        let mut i: usize = 0;
        assert(r.lines =~= r.lines_after(legacy, *screen, 0));
        assert(out@ =~= start + r.rows_seq(legacy, *screen, 0));
        assert(*perf == old(perf).with_rows(0, 0));
        while i < limit
            invariant
                i <= limit,
                limit == r.limit(*screen),
                r == old(self)@,
                legacy == old(perf).legacy_render,
                force == r.force_full,
                cleared == r.cleared,
                none@ == Seq::<Cell>::empty(),
                dirty@ == Seq::new(limit as nat, |j: int| screen.row_dirty(legacy, j)),
                self@ == (RendererState {
                    lines: r.lines_after(legacy, *screen, i as int),
                    force_full: false,
                    cleared: false,
                    ..r
                }),
                r.redrawn(legacy, *screen, i as int) <= i,
                *perf == old(perf).with_rows(
                    r.redrawn(legacy, *screen, i as int),
                    (i - r.redrawn(legacy, *screen, i as int)) as nat,
                ),
                out@ == start + r.rows_seq(legacy, *screen, i as int),
            decreases limit - i,
        {
            let ghost drawn = r.redrawn(legacy, *screen, i as int);
            proof {
                lemma_counts(r, legacy, *screen, i as int);
                lemma_lines_step(r, legacy, *screen, i as int);
                perf::rows_add_up(*old(perf), drawn, (i - drawn) as nat, 0, 1);
                perf::rows_add_up(*old(perf), drawn, (i - drawn) as nat, 1, 0);
            }
            if !force && !dirty[i] {
                perf::record_row(perf, false);
                i = i + 1;
                continue;
            }
            let cells = if i < screen.lines.len() {
                &screen.lines[i]
            } else {
                &none
            };
            assert(cells@ == screen.line(i as int));
            if cleared && cell::is_blank_cells(cells.as_slice()) {
                perf::record_row(perf, false);
                self.keep_line(i, ids_of(cells));
                i = i + 1;
                continue;
            }
            assert(i < self.prev_lines@.len() ==> self@.lines[i as int]
                == self.prev_lines@[i as int]@);
            if i < self.prev_lines.len() && same_ids(cells, &self.prev_lines[i]) {
                perf::record_row(perf, false);
                i = i + 1;
                continue;
            }
            perf::record_row(perf, true);
            self.write_row_from_cells(out, i, screen, cells);
            proof {
                text::lemma_cat(
                    start,
                    r.rows_seq(legacy, *screen, i as int),
                    r.row_seq(*screen, i as int),
                );
            }
            self.keep_line(i, ids_of(cells));
            i = i + 1;
        }
        self.update_cursor(out, screen.cursor);
        proof {
            text::lemma_cat(
                start,
                r.rows_seq(legacy, *screen, limit as int),
                cursor_update_seq(r.cursor, screen.cursor, r.row_offset),
            );
        }
    }

    /// Moves the terminal's cursor to where the emulator has it, if it moved.
    pub fn update_cursor(&mut self, out: &mut String, cursor: CursorState)
        requires
            cursor != old(self).prev_cursor ==> placeable(cursor, old(self).row_offset),
        ensures
            final(out)@ == old(out)@ + cursor_update_seq(
                old(self).prev_cursor,
                cursor,
                old(self).row_offset,
            ),
            final(self)@ == (RendererState { cursor, ..old(self)@ }),
    {
        if cursor != self.prev_cursor {
            if cursor.visible && !self.prev_cursor.visible {
                ansi::show_cursor(out);
            } else if !cursor.visible && self.prev_cursor.visible {
                ansi::hide_cursor(out);
            }
            self.write_cursor(out, cursor);
            self.prev_cursor = cursor;
        }
        assert(out@ =~= old(out)@ + cursor_update_seq(
            old(self).prev_cursor,
            cursor,
            old(self).row_offset,
        ));
    }

    /// Moves the terminal's cursor to where the emulator has it, whether or
    /// not it moved.
    pub fn write_cursor(&self, out: &mut String, cursor: CursorState)
        requires
            placeable(cursor, self.row_offset),
        ensures
            final(out)@ == old(out)@ + place_seq(cursor, self.row_offset),
    {
        let row: u32 = (cursor.row as u32 + self.row_offset as u32) % 0x1_0000;
        ansi::move_to(out, cursor.col, row as u16);
    }

    /// Which rows the next frame looks at. The cells of the others need not be
    /// read.
    pub fn rows_to_read(&self, perf: &Perf, screen: &Screen) -> (read: Vec<bool>)
        ensures
            read@ == self@.read_rows(perf.legacy_render, *screen),
    {
        Self::reads(perf, screen, self.visible_rows(), self.force_full)
    }

    /// Which of the rows that fit into `visible` rows are dirty, or all of
    /// them.
    pub(crate) fn reads(perf: &Perf, screen: &Screen, visible: usize, force: bool) -> (read: Vec<
        bool,
    >)
        ensures
            read@ == Seq::new(
                if screen.rows <= visible {
                    screen.rows as nat
                } else {
                    visible as nat
                },
                |i: int| force || screen.row_dirty(perf.legacy_render, i),
            ),
    {
        let rows: usize = screen.rows as usize;
        let limit: usize = if rows <= visible {
            rows
        } else {
            visible
        };
        let dirty = Self::collect_dirty(perf, screen, limit);
        let mut read: Vec<bool> = Vec::new();
        let mut i: usize = 0;
        while i < limit
            invariant
                i <= limit,
                dirty@ == Seq::new(
                    limit as nat,
                    |j: int| screen.row_dirty(perf.legacy_render, j),
                ),
                read@ == Seq::new(
                    i as nat,
                    |j: int| force || screen.row_dirty(perf.legacy_render, j),
                ),
            decreases limit - i,
        {
            read.push(force || dirty[i]);
            i = i + 1;
            assert(read@ =~= Seq::new(
                i as nat,
                |j: int| force || screen.row_dirty(perf.legacy_render, j),
            ));
        }
        read
    }

    /// Draws every row, whatever the last frame showed.
    pub fn render_full(&mut self, out: &mut String, perf: &mut Perf, screen: &Screen)
        requires
            old(self)@.can_place(*screen),
        ensures
            final(out)@ == old(out)@ + old(self)@.invalidated().frame_seq(
                old(perf).legacy_render,
                *screen,
            ),
            final(self)@ == old(self)@.invalidated().after_frame(
                old(perf).legacy_render,
                *screen,
            ),
            *final(perf) == old(self)@.invalidated().perf_after(*old(perf), *screen),
    {
        self.invalidate();
        self.render(out, perf, screen);
    }

    /// Clears the terminal with one sequence, so that the next frame draws
    /// only the rows that are not blank. Whether the cursor is shown does not
    /// change.
    pub fn native_clear(&mut self, out: &mut String)
        ensures
            final(out)@ == old(out)@ + native_clear_seq(),
            final(self)@ == old(self)@.after_clear(),
    {
        ansi::clear(out, ansi::Erase::Screen);
        ansi::move_to(out, 0, 0);
        self.prev_lines.clear();
        self.prev_cursor = CursorState { col: 0, row: 0, visible: self.prev_cursor.visible };
        self.cleared = true;
        assert(self@.lines =~= Seq::empty());
        assert(out@ =~= old(out)@ + native_clear_seq());
    }

    /// Scrolls the terminal by `count` lines without touching the rows below
    /// `content_rows`.
    pub fn scroll_region(out: &mut String, content_rows: u16, count: usize)
        ensures
            final(out)@ == old(out)@ + scroll_seq(content_rows, count as nat),
    {
        if count == 0 || content_rows == 0 {
            assert(out@ =~= old(out)@ + scroll_seq(content_rows, count as nat));
            return ;
        }
        ansi::set_scroll_region(out, 1, content_rows);
        ansi::move_to(out, 0, content_rows - 1);
        text::push_run(out, '\n', count);
        ansi::reset_scroll_region(out);
        assert(out@ =~= old(out)@ + scroll_seq(content_rows, count as nat));
    }

    /// Takes the screen as it is for the last frame, without drawing it.
    pub fn sync(&mut self, screen: &Screen)
        ensures
            final(self)@ == old(self)@.synced(*screen),
    {
        self.prev_lines.clear();
        let none: Vec<Cell> = Vec::new();
        let rows: usize = screen.rows as usize;
        let mut y: usize = 0;
        assert(self@.lines =~= Seq::empty());
        while y < rows
            invariant
                y <= rows,
                rows == screen.rows,
                none@ == Seq::<Cell>::empty(),
                self@ == (RendererState {
                    lines: Seq::new(y as nat, |i: int| cell::row_ids(screen.line(i))),
                    ..old(self)@
                }),
            decreases rows - y,
        {
            let cells = if y < screen.lines.len() {
                &screen.lines[y]
            } else {
                &none
            };
            let ghost before = self@.lines;
            self.prev_lines.push(ids_of(cells));
            assert(self@.lines =~= before.push(cell::row_ids(screen.line(y as int))));
            y = y + 1;
            assert(self@.lines =~= Seq::new(y as nat, |i: int| cell::row_ids(screen.line(i))));
        }
        self.prev_cursor = screen.cursor;
    }

    /// Forgets scrollback that is thrown away without being shown.
    pub fn discard_vt_scrollback(&mut self)
        ensures
            final(self)@ == (RendererState { flushed: 0, ..old(self)@ }),
    {
        self.scrollback_flushed = 0;
    }

    /// Draws the scrollback lines of one batch onto the terminal, `count` of
    /// them from line `y` on, and scrolls them off.
    fn flush_batch(&self, out: &mut String, scrollback: &Scrollback, y: usize, count: usize)
        requires
            0 < count <= self.content_rows,
            y + count <= usize::MAX,
        ensures
            final(out)@ == old(out)@ + batch_seq(
                *scrollback,
                y as int,
                count as int,
                self.content_rows,
            ),
    {
        let ghost start = out@;
        let mut i: usize = 0;
        assert(out@ =~= start + blank_rows_seq(0));
        while i < count
            invariant
                i <= count,
                count <= self.content_rows,
                out@ == start + blank_rows_seq(i as int),
            decreases count - i,
        {
            let ghost shown = out@;
            ansi::move_to(out, 0, i as u16);
            ansi::clear(out, ansi::Erase::Line);
            i = i + 1;
            assert(out@ =~= start + blank_rows_seq(i as int));
        }
        let ghost blanked = out@;
        let none: Vec<Cell> = Vec::new();
        let mut prev_was_wrap_source = false;
        i = 0;
        assert(out@ =~= blanked + history_rows_seq(*scrollback, y as int, 0));
        while i < count
            invariant
                i <= count,
                count <= self.content_rows,
                y + count <= usize::MAX,
                none@ == Seq::<Cell>::empty(),
                prev_was_wrap_source == (i > 0 && scrollback.wraps(y + i - 1)),
                out@ == blanked + history_rows_seq(*scrollback, y as int, i as int),
            decreases count - i,
        {
            let ghost rows = history_rows_seq(*scrollback, y as int, i as int);
            let screen_y: usize = y + i;
            let is_continuation = screen_y < scrollback.lines.len() && is_yes(
                scrollback.lines[screen_y].continuation,
            );
            let is_wrap_source = screen_y < scrollback.lines.len() && is_yes(
                scrollback.lines[screen_y].wrapped,
            );
            let ghost jump = cell::when(
                !(is_continuation && prev_was_wrap_source),
                ansi::move_to_seq(0, i as nat),
            );
            if !(is_continuation && prev_was_wrap_source) {
                ansi::move_to(out, 0, i as u16);
            }
            assert(out@ =~= blanked + rows + jump);
            let cells = if screen_y < scrollback.lines.len() {
                &scrollback.lines[screen_y].cells
            } else {
                &none
            };
            assert(cells@ == scrollback.line(y + i));
            cell::dump_row_from_cells(out, cells.as_slice());
            ansi::reset_color(out);
            proof {
                text::lemma_cat(blanked, rows, jump);
                text::lemma_cat(blanked, rows + jump, cell::row_text(cells@));
                text::lemma_cat(
                    blanked,
                    rows + jump + cell::row_text(cells@),
                    ansi::reset_color_seq(),
                );
            }
            i = i + 1;
            prev_was_wrap_source = is_wrap_source;
        }
        ansi::move_to(out, 0, self.content_rows - 1);
        text::push_run(out, '\n', count);
        assert(out@ =~= start + batch_seq(
            *scrollback,
            y as int,
            count as int,
            self.content_rows,
        ));
    }

    /// Pushes the scrollback lines that the terminal does not have yet into
    /// its own scrollback: draws them onto the terminal and scrolls them off
    /// within a region that leaves the status line alone. Returns whether
    /// there were any; the emulator's scrollback is to be erased then.
    pub fn flush_scrollback(&mut self, out: &mut String, scrollback: &Scrollback) -> (flushed: bool)
        ensures
            flushed == old(self)@.flushes(*scrollback),
            final(out)@ == old(out)@ + old(self)@.flush_seq(*scrollback),
            final(self)@ == old(self)@.after_flush(*scrollback),
    {
        let unflushed: usize = scrollback.rows.saturating_sub(self.scrollback_flushed);
        if unflushed == 0 || self.content_rows == 0 {
            assert(out@ =~= old(out)@ + old(self)@.flush_seq(*scrollback));
            return false;
        }
        let batch_size: usize = self.content_rows as usize;
        ansi::set_scroll_region(out, 1, self.content_rows);
        let ghost opened = out@;
        let ghost whole = batches_seq(
            *scrollback,
            self.scrollback_flushed as int,
            unflushed as int,
            self.content_rows,
        );
        let mut screen_y: usize = self.scrollback_flushed;
        let mut remaining: usize = unflushed;
        assert(opened + whole =~= out@ + whole);
        while remaining > 0
            invariant
                batch_size == self.content_rows,
                batch_size > 0,
                screen_y + remaining == scrollback.rows,
                out@ + batches_seq(
                    *scrollback,
                    screen_y as int,
                    remaining as int,
                    self.content_rows,
                ) == opened + whole,
            decreases remaining,
        {
            let count: usize = if remaining <= batch_size {
                remaining
            } else {
                batch_size
            };
            let ghost shown = out@;
            self.flush_batch(out, scrollback, screen_y, count);
            proof {
                text::lemma_cat(
                    shown,
                    batch_seq(*scrollback, screen_y as int, count as int, self.content_rows),
                    batches_seq(
                        *scrollback,
                        screen_y + count,
                        remaining - count,
                        self.content_rows,
                    ),
                );
            }
            screen_y = screen_y + count;
            remaining = remaining - count;
        }
        assert(out@ =~= opened + whole);
        ansi::reset_scroll_region(out);
        proof {
            let region = ansi::scroll_region_seq(1, self.content_rows as nat);
            text::lemma_cat(old(out)@, region, whole);
            text::lemma_cat(old(out)@, region + whole, ansi::reset_scroll_region_seq());
        }
        self.scrollback_flushed = 0;
        self.invalidate();
        true
    }

    /// Pushes new scrollback lines into the terminal's own scrollback, then
    /// draws what changed on the screen. Returns whether the emulator's
    /// scrollback is to be erased; erasing it leaves the screen as it is.
    pub fn render_with_scroll(
        &mut self,
        out: &mut String,
        perf: &mut Perf,
        scrollback: &Scrollback,
        screen: &Screen,
    ) -> (flushed: bool)
        requires
            old(self)@.can_place(*screen),
        ensures
            flushed == old(self)@.flushes(*scrollback),
            final(out)@ == old(out)@ + old(self)@.flush_seq(*scrollback) + old(self)@.after_flush(
                *scrollback,
            ).frame_seq(old(perf).legacy_render, *screen),
            final(self)@ == old(self)@.after_flush(*scrollback).after_frame(
                old(perf).legacy_render,
                *screen,
            ),
            *final(perf) == old(self)@.after_flush(*scrollback).perf_after(*old(perf), *screen),
    {
        let flushed = self.flush_scrollback(out, scrollback);
        self.render(out, perf, screen);
        flushed
    }
}

} // verus!
