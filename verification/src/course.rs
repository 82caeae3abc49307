//! What holds over the course of a session, from one step of its event loop to
//! the next.

use vstd::prelude::*;

use crate::ansi;
use crate::batch;
use crate::batch::BatchState;
use crate::cell;
use crate::event_loop;
use crate::event_loop::{
    After, Ending, EventLoop, Food, LoopState, Next, Purpose, Sight, Turn,
};
use crate::frame;
use crate::harness::HarnessState;
use crate::laws;
use crate::messages;
use crate::mirror;
use crate::perf::Perf;
use crate::renderer;
use crate::renderer::{RendererState, Screen, Scrollback};
use crate::session;
use crate::session::{
    EscapeState, Event, Scan, SessionError, ShellCommand, ShellEvent, ShellSession, StatusUpdate,
    Wait,
};
use crate::text;

verus! {

/// The chunks that the steps feed to the emulator, in the order in which they
/// do.
pub open spec fn fed_chunks(steps: Seq<Next>) -> Seq<Seq<u8>>
    decreases steps.len(),
{
    if steps.len() == 0 {
        Seq::empty()
    } else {
        let first = match steps[0] {
            Next::Feed { food: Food::Chunk(chunk), .. } => seq![chunk@],
            _ => Seq::empty(),
        };
        first + fed_chunks(steps.skip(1))
    }
}

/// Whether each step follows from the one before as it does once the emulator
/// was fed, while chunks are left to fold.
pub open spec fn fold_on(steps: Seq<Next>) -> bool
    decreases steps.len(),
{
    steps.len() > 1 ==> {
        &&& steps[0] matches Next::Feed { then_do: After::Fold(left, rest), .. }
        &&& exists|lines: nat|
            event_loop::folds(
                steps[1],
                #[trigger] scrolled_by(left@, lines),
                batch::contents(rest@),
            )
        &&& fold_on(steps.skip(1))
    }
}

/// Whether each step follows from the one before as it does once the emulator
/// was fed, while chunks are left before the exit.
pub open spec fn leave_on(steps: Seq<Next>) -> bool
    decreases steps.len(),
{
    steps.len() > 1 ==> {
        &&& steps[0] matches Next::Feed { then_do: After::Leave(code, rest), .. }
        &&& event_loop::leaves(steps[1], code, batch::contents(rest@))
        &&& leave_on(steps.skip(1))
    }
}

/// A batch with which more lines scrolled off the screen.
pub open spec fn scrolled_by(b: BatchState, lines: nat) -> BatchState {
    BatchState { scroll: b.scroll + lines, ..b }
}

/// Whether two batches differ at most in the lines that scrolled off, of which
/// the second has no fewer.
pub open spec fn same_but_scrolled(a: BatchState, b: BatchState) -> bool {
    b == BatchState { scroll: b.scroll, ..a } && b.scroll >= a.scroll
}

proof fn lemma_folding(steps: Seq<Next>, b: BatchState, chunks: Seq<Seq<u8>>)
    requires
        steps.len() > 0,
        event_loop::folds(steps[0], b, chunks),
        fold_on(steps),
        steps.last() is Look,
    ensures
        fed_chunks(steps) == chunks,
        steps.last() matches Next::Look(Purpose::Batch(drawn)) && same_but_scrolled(b, drawn@),
    decreases steps.len(),
{
    reveal_with_fuel(fed_chunks, 2);
    if steps.len() == 1 {
        assert(steps.last() == steps[0]);
        assert(steps.skip(1) =~= Seq::empty());
        assert(chunks =~= Seq::empty());
    } else {
        let left = steps[0]->then_do->Fold_0;
        let rest = steps[0]->then_do->Fold_1;
        let lines = choose|lines: nat|
            event_loop::folds(
                steps[1],
                #[trigger] scrolled_by(left@, lines),
                batch::contents(rest@),
            );
        assert(steps.skip(1)[0] == steps[1]);
        assert(steps.skip(1).last() == steps.last());
        lemma_folding(steps.skip(1), scrolled_by(left@, lines), batch::contents(rest@));
        assert(seq![chunks[0]] + chunks.skip(1) =~= chunks);
    }
}

/// A batch that was held back and left the alternate screen is not lost to the
/// emulator: following the steps from where the batch is complete until its
/// frame is asked for, the emulator is fed the chunks that the nested program
/// wrote in it, one after the other, in the order in which they were written.
/// What was owed to the terminal has been written to it before. The frame is
/// that of this batch.
pub proof fn held_back_batch_is_fed_in_order(
    at: EventLoop,
    perf: Perf,
    after: Perf,
    esc: EscapeState,
    chunks: Seq<(Seq<u8>, Seq<u8>)>,
    turn: Turn,
    steps: Seq<Next>,
)
    requires
        esc.in_alternate_screen,
        perf.passthrough_allowed,
        !perf.legacy_render,
        !at.esc.in_alternate_screen,
        at.settles(perf, after, laws::collected(perf, esc, chunks), turn),
        steps.len() > 0,
        steps[0] == turn.next,
        fold_on(steps),
        steps.last() is Look,
    ensures
        fed_chunks(steps) == Seq::new(chunks.len(), |i: int| chunks[i].0),
        batch::joined(fed_chunks(steps)) == laws::written(chunks),
        turn.terminal@ == laws::passed_on(chunks),
        steps.last() matches Next::Look(Purpose::Batch(drawn)) && drawn.was_in_alt
            && drawn.passthrough && drawn.bytes_in == laws::written(chunks).len() && drawn.chunks
            == chunks.len(),
{
    let b = laws::collected(perf, esc, chunks);
    laws::held_back_batch_is_verbatim(perf, esc, chunks);
    assert(turn.effects().terminal == turn.terminal@);
    lemma_folding(steps, BatchState { raw: Seq::empty(), ..b }, b.raw);
}

proof fn lemma_leaving(steps: Seq<Next>, code: Option<u32>, chunks: Seq<Seq<u8>>)
    requires
        steps.len() > 0,
        event_loop::leaves(steps[0], code, chunks),
        leave_on(steps),
        steps.last() is Cleanup,
    ensures
        fed_chunks(steps) == chunks,
        steps.last() == Next::Cleanup(Ending::Draw(code)),
    decreases steps.len(),
{
    reveal_with_fuel(fed_chunks, 2);
    if steps.len() == 1 {
        assert(steps.last() == steps[0]);
        assert(steps.skip(1) =~= Seq::empty());
        assert(chunks =~= Seq::empty());
    } else {
        let rest = steps[0]->then_do->Leave_1;
        assert(steps.skip(1)[0] == steps[1]);
        assert(steps.skip(1).last() == steps.last());
        lemma_leaving(steps.skip(1), code, batch::contents(rest@));
        assert(seq![chunks[0]] + chunks.skip(1) =~= chunks);
    }
}

/// A session that ends within a batch ends with the code it was given, and off
/// the alternate screen it first feeds the emulator what was held back, in the
/// order in which it was written. On the alternate screen nothing is fed, and
/// nothing of the batch is written.
pub proof fn exit_feeds_in_order(
    at: EventLoop,
    perf: Perf,
    esc: EscapeState,
    chunks: Seq<(Seq<u8>, Seq<u8>)>,
    code: Option<u32>,
    turn: Turn,
    steps: Seq<Next>,
)
    requires
        at.exits(laws::collected(perf, esc, chunks), code, turn),
        steps.len() > 0,
        steps[0] == turn.next,
        leave_on(steps),
        steps.last() is Cleanup,
    ensures
        ({
            let held = esc.in_alternate_screen && perf.passthrough_allowed && !perf.legacy_render;
            &&& held && at.esc.in_alternate_screen ==> {
                &&& steps.last() == Next::Cleanup(Ending::Close(code))
                &&& fed_chunks(steps) == Seq::<Seq<u8>>::empty()
                &&& turn.terminal@.len() == 0
            }
            &&& held && !at.esc.in_alternate_screen ==> {
                &&& steps.last() == Next::Cleanup(Ending::Draw(code))
                &&& fed_chunks(steps) == Seq::new(chunks.len(), |i: int| chunks[i].0)
                &&& turn.terminal@ == laws::passed_on(chunks)
            }
            &&& !held ==> {
                &&& steps.last() == Next::Cleanup(Ending::Draw(code))
                &&& fed_chunks(steps) == Seq::<Seq<u8>>::empty()
                &&& turn.terminal@.len() == 0
            }
        }),
{
    let b = laws::collected(perf, esc, chunks);
    laws::held_back_batch_is_verbatim(perf, esc, chunks);
    assert(turn.effects().terminal == turn.terminal@);
    if b.copied(at.esc) {
        reveal_with_fuel(fed_chunks, 2);
        assert(steps.len() == 1);
        assert(steps.last() == steps[0]);
        assert(steps.skip(1) =~= Seq::empty());
    } else {
        lemma_leaving(steps, code, b.raw);
    }
}

/// Whenever the size of the terminal is known, the session has it from then on,
/// and the renderer draws into the rows of the shell's terminal at that size:
/// all of them but one where there is a status line. Something is resized
/// exactly if columns or rows differ from before, and nothing changes
/// otherwise. There are then no rows above the screen, and everything is drawn
/// again unless a nested program that is being copied through does it, after
/// which everything is drawn when it leaves.
pub proof fn resize_takes_the_detected_size(
    session: ShellSession,
    r: RendererState,
    perf: Perf,
    esc: EscapeState,
    detected: Option<(u16, u16)>,
)
    requires
        r.content_rows == session.inner_size().rows,
    ensures
        ({
            let (s, after, plan) = session.after_resize(r, perf, esc, detected);
            let painted = esc.in_alternate_screen && perf.passthrough_allowed && !perf.legacy_render;
            &&& s.config == session.config
            &&& detected matches Some((cols, rows)) ==> {
                &&& s.size.cols == cols
                &&& s.size.rows == rows
                &&& after.content_rows == (if !s.config.show_status_line {
                    rows as int
                } else if rows >= 2 {
                    rows - 1
                } else {
                    1
                })
                &&& plan is Some <==> (cols != session.size.cols || rows != session.size.rows)
            }
            &&& plan is None ==> s == session && after == r
            &&& detected is None ==> plan is None
            &&& plan matches Some(resize) ==> {
                &&& resize.pty.cols == (detected->0).0
                &&& resize.pty.rows == after.content_rows
                &&& resize.notify == esc.in_band_resize
                &&& resize.repaint == !painted
                &&& after.row_offset == 0
                &&& after.cursor == r.cursor
                &&& painted ==> after.lines.len() == 0 && after.force_full && after.flushed
                    == r.flushed
                &&& !painted ==> after.flushed == 0 && after.lines == r.lines
            }
        }),
{
}

/// Whether giving up `n` rows above the screen is enough: as many as lines
/// scrolled off the screen, and enough for the cursor to be visible, unless
/// there are no more.
pub open spec fn enough(r: RendererState, scroll: nat, cursor_row: u16, n: int) -> bool {
    n == r.row_offset || (scroll <= n && cursor_row + (r.row_offset - n) < r.content_rows)
}

/// The frame of a batch gives up all rows above the screen for a full-screen
/// program or an erased screen, and otherwise as few as is enough. It clears the
/// terminal for an erased screen that has it to itself, unless rendering is
/// legacy, and pushes scrollback where nothing is above the screen, which is not
/// the alternate one. The status line has to be drawn anew where the batch went
/// to the other screen or the terminal is cleared.
pub proof fn plan_gives_up_as_few_rows_as_is_enough(
    session: ShellSession,
    r: RendererState,
    perf: Perf,
    b: BatchState,
    esc: EscapeState,
    cursor_row: u16,
)
    requires
        r.row_offset <= r.content_rows,
    ensures
        ({
            let plan = frame::frame_plan(session, r, perf, b, esc, cursor_row);
            let in_alt = esc.in_alternate_screen;
            let top = plan.consumed == r.row_offset;
            &&& plan.consumed <= r.row_offset
            &&& in_alt || esc.erase_display ==> top
            &&& !in_alt && !esc.erase_display ==> {
                &&& enough(r, b.scroll, cursor_row, plan.consumed as int)
                &&& forall|n: int|
                    0 <= n < plan.consumed ==> !#[trigger] enough(r, b.scroll, cursor_row, n)
            }
            &&& plan.switched == (b.was_in_alt != in_alt)
            &&& plan.clears == (top && esc.erase_display && !in_alt && !perf.legacy_render)
            &&& plan.scrolls == (top && !in_alt)
            &&& plan.marks_status == (plan.switched || plan.clears)
            &&& plan.draws_status == (session.config.show_status_line && (perf.legacy_render
                || !in_alt))
        }),
{
}

/// Number of scrollback lines that a frame pushes.
pub open spec fn pushed_lines(
    state: LoopState,
    perf: Perf,
    purpose: Purpose,
    scrollback: Scrollback,
    screen: Screen,
) -> int {
    let batch_pushes = match purpose {
        Purpose::Batch(b) => !state.esc.in_alternate_screen && frame::frame_plan(
            state.session,
            state.renderer,
            perf,
            b@,
            state.esc,
            screen.cursor.row,
        ).consumed == state.renderer.row_offset,
        _ => mirror::pushes(state, perf.legacy_render, purpose),
    };
    if batch_pushes {
        mirror::new_lines(state.renderer, scrollback)
    } else {
        0
    }
}

/// What a frame leaves behind: the cursor that it drew, fewer rows above the
/// screen if it gave some up, and no scrollback line that counts as pushed once
/// lines were. A frame that does not draw the screen leaves the renderer as it
/// is, but for the first one, which takes note of the screen.
pub proof fn frames_leave_their_mark(
    state: LoopState,
    perf: Perf,
    purpose: Purpose,
    scrollback: Scrollback,
    screen: Screen,
)
    requires
        state.renderer.row_offset <= state.renderer.content_rows,
        purpose is Opening ==> state.renderer.row_offset == 0,
    ensures
        ({
            let r = state.renderer;
            let after = state.after_frame(perf, purpose, scrollback, screen);
            let drawn = mirror::draws_screen(state, perf.legacy_render, purpose);
            &&& after.content_rows == r.content_rows
            &&& drawn ==> after.cursor == screen.cursor && !after.force_full && !after.cleared
            &&& drawn ==> after.flushed == (if pushed_lines(
                state,
                perf,
                purpose,
                scrollback,
                screen,
            ) > 0 {
                0
            } else {
                r.flushed
            })
            &&& !drawn && !(purpose is Opening) ==> after == r
            &&& !drawn && purpose is Opening ==> {
                &&& after.cursor == screen.cursor
                &&& after.flushed == r.flushed
                &&& after.force_full == r.force_full
                &&& after.lines.len() == screen.rows
                &&& forall|i: int|
                    0 <= i < screen.rows ==> mirror::identifies(
                        #[trigger] after.lines[i],
                        screen.line(i),
                    )
            }
            &&& purpose is Opening ==> after.row_offset == purpose->Opening_0
            &&& !(purpose is Opening || purpose is Batch) ==> after.row_offset == r.row_offset
            &&& purpose is Batch ==> after.row_offset == r.row_offset - frame::frame_plan(
                state.session,
                r,
                perf,
                purpose->Batch_0@,
                state.esc,
                screen.cursor.row,
            ).consumed
        }),
{
    let after = state.after_frame(perf, purpose, scrollback, screen);
    if purpose is Opening && purpose->Opening_0 > 0 {
        assert forall|i: int| 0 <= i < screen.rows implies mirror::identifies(
            #[trigger] after.lines[i],
            screen.line(i),
        ) by {
            let cells = screen.line(i);
            let ids = cell::row_ids(cells);
            assert(after.lines[i] == ids);
            assert forall|j: int| 0 <= j < ids.len() implies #[trigger] ids[j] == cells[j].id by {}
        }
    }
}

/// The rows of which the emulator's cells are read are those that have a place
/// in the terminal and may have changed: all of them where the frame draws
/// everything anew, and otherwise those that are not marked as unchanged. The
/// first frame reads all rows.
pub proof fn rows_that_may_have_changed_are_read(
    state: LoopState,
    perf: Perf,
    purpose: Purpose,
    scrollback: Scrollback,
    screen: Screen,
    i: int,
)
    requires
        0 <= i < screen.rows,
        state.renderer.row_offset <= state.renderer.content_rows,
        purpose is Opening ==> state.renderer.row_offset == 0,
        !(purpose is Command && state.esc.in_alternate_screen && !perf.legacy_render),
    ensures
        ({
            let r = state.renderer;
            let rows = state.read_rows(perf, purpose, scrollback, screen);
            let read = i < rows.len() && rows[i];
            let given_up = match purpose {
                Purpose::Batch(b) => frame::frame_plan(
                    state.session,
                    r,
                    perf,
                    b@,
                    state.esc,
                    screen.cursor.row,
                ).consumed,
                _ => 0,
            };
            let anew = match purpose {
                Purpose::Opening(_) => true,
                Purpose::Resize => true,
                Purpose::Batch(b) => given_up > 0 || b.was_in_alt != state.esc.in_alternate_screen,
                _ => false,
            } || pushed_lines(state, perf, purpose, scrollback, screen) > 0;
            let drawn = mirror::draws_screen(state, perf.legacy_render, purpose);
            &&& drawn ==> read == (i + r.row_offset - given_up < r.content_rows && (anew
                || mirror::suspect(r, perf.legacy_render, screen, i)))
            &&& !drawn ==> read == (purpose is Opening)
        }),
{
}

/// What becomes of a batch once it is complete. One that was held back and
/// stayed on the alternate screen is copied to the terminal, byte for byte as
/// the nested program wrote it, and nothing is drawn. One that was not held back
/// is drawn, and all of it has been fed already.
pub proof fn batch_is_copied_or_drawn(
    at: EventLoop,
    perf: Perf,
    after: Perf,
    esc: EscapeState,
    chunks: Seq<(Seq<u8>, Seq<u8>)>,
    turn: Turn,
)
    requires
        at.settles(perf, after, laws::collected(perf, esc, chunks), turn),
    ensures
        ({
            let held = esc.in_alternate_screen && perf.passthrough_allowed && !perf.legacy_render;
            &&& held && at.esc.in_alternate_screen ==> {
                &&& turn.terminal@ == laws::written(chunks)
                &&& turn.flush
                &&& turn.next == Next::Wait
                &&& after == perf.with_passthrough().with_batch(
                    laws::written(chunks).len(),
                    chunks.len(),
                )
            }
            &&& !(held && at.esc.in_alternate_screen) ==> after == perf && !turn.flush
            &&& !held ==> {
                &&& turn.terminal@.len() == 0
                &&& turn.next matches Next::Look(Purpose::Batch(b))
                && b@ == laws::collected(perf, esc, chunks)
            }
            &&& turn.shell@.len() == 0
            &&& turn.tell is None
            &&& turn.resize is None
        }),
{
    laws::held_back_batch_is_verbatim(perf, esc, chunks);
    assert(turn.effects().terminal == turn.terminal@);
    assert(turn.effects().shell == turn.shell@);
    assert(turn.effects().flush == turn.flush);
    assert(turn.effects().tell == turn.tell);
    assert(turn.effects().resize == turn.resize);
}

/// The keys of a session are the escape character, which stands for Alt, and a
/// control character: that of D pauses watching, that of W lists the watched
/// files, and that of E shows the error.
pub proof fn keys_are_control_and_alt()
    ensures
        session::key_toggle_pause() == seq![27u8, ('D' as u8 - 64) as u8],
        session::key_list_watched() == seq![27u8, ('W' as u8 - 64) as u8],
        session::key_toggle_error() == seq![27u8, ('E' as u8 - 64) as u8],
{
}

/// A command tells the status line what it carries, all of it, and commands
/// that carry nothing for it leave it alone.
pub proof fn commands_reach_the_status_line(command: ShellCommand)
    ensures
        match (command, session::status_of(command)) {
            (
                ShellCommand::ReloadReady { changed_files },
                StatusUpdate::ReloadReady(files),
            ) => files == changed_files,
            (
                ShellCommand::Building { changed_files },
                StatusUpdate::Building(files),
            ) => files == changed_files,
            (
                ShellCommand::BuildFailed { changed_files, error },
                StatusUpdate::BuildFailed(files, shown),
            ) => files == changed_files && shown == error,
            (ShellCommand::ReloadApplied, StatusUpdate::Reloaded) => true,
            (
                ShellCommand::WatchedFiles { files },
                StatusUpdate::WatchedFileCount(count),
            ) => count == files@.len(),
            (
                ShellCommand::WatchingPaused { paused },
                StatusUpdate::Paused(shown),
            ) => shown == paused,
            (ShellCommand::PrintWatchedFiles { .. }, StatusUpdate::Keep) => true,
            (ShellCommand::Shutdown, StatusUpdate::Keep) => true,
            (ShellCommand::Spawn { .. }, StatusUpdate::Keep) => true,
            _ => false,
        },
{
}

/// Work that only concerns the status line is done where that is shown, and a
/// command is drawn unless the screen belongs to a nested program.
pub proof fn idle_work_is_left_out(next: Next, session: ShellSession, perf: Perf, esc: EscapeState)
    ensures
        event_loop::ticks(next, session.shows_status(perf, esc)) ==> {
            let shown = session.config.show_status_line && (perf.legacy_render
                || !esc.in_alternate_screen);
            &&& shown ==> next == Next::Look(Purpose::Tick)
            &&& !shown ==> next == Next::Wait
        },
        event_loop::draws_command(next, esc, perf.legacy_render) ==> {
            &&& esc.in_alternate_screen && !perf.legacy_render ==> next == Next::Wait
            &&& !esc.in_alternate_screen ==> next == Next::Look(Purpose::Command)
            &&& perf.legacy_render ==> next == Next::Look(Purpose::Command)
        },
{
}

/// The lines that scrolled off are those by which the emulator has more rows
/// than before, none if it has fewer, with an unknown number taken for zero.
pub proof fn scrolled_lines_are_the_new_rows(before: usize, after: usize)
    ensures
        ({
            let lines = event_loop::scrolled(Some(before), Some(after));
            &&& before <= after ==> before + lines == after
            &&& before > after ==> lines == 0
        }),
        event_loop::scrolled(None, Some(after)) == after,
        event_loop::scrolled(Some(before), None) == 0,
        event_loop::scrolled(None, None) == 0,
{
}

/// The shell's terminal always has a row. It has the size of the terminal where
/// there is no status line, and otherwise differs from it in its rows alone.
pub proof fn shell_always_has_a_row(session: ShellSession)
    ensures
        ({
            let inner = session.inner_size();
            let size = session.size;
            &&& !session.config.show_status_line ==> inner == size
            &&& session.config.show_status_line ==> inner.rows >= 1 && (size.rows >= 2
                ==> inner.rows == size.rows - 1) && (size.rows < 2 ==> inner.rows == 1)
            &&& inner.cols == size.cols
            &&& inner.pixel_width == size.pixel_width
            &&& inner.pixel_height == size.pixel_height
        }),
{
}

/// Whether a step tells and writes nothing.
pub open spec fn is_silent(turn: Turn) -> bool {
    &&& turn.terminal@.len() == 0
    &&& turn.shell@.len() == 0
    &&& turn.status == StatusUpdate::Keep
    &&& turn.resize is None
    &&& turn.tell is None
    &&& !turn.flush
}

proof fn lemma_effects(turn: Turn)
    ensures
        turn.effects().terminal == turn.terminal@,
        turn.effects().flush == turn.flush,
        turn.effects().shell == turn.shell@,
        turn.effects().status == turn.status,
        turn.effects().resize == turn.resize,
        turn.effects().tell == turn.tell,
{
}

/// Whether input is one of the three keys of the session.
pub open spec fn is_session_key(data: Seq<u8>) -> bool {
    data.len() == 2 && data[0] == 27 && (data[1] == 4 || data[1] == 23 || data[1] == 5)
}

/// Input reaches the shell as it was typed, but for the keys of the session,
/// each of which does one thing and never reaches it: all that the shell then
/// gets is to be asked to draw its screen again, where a build error goes away.
/// Within a batch all input reaches the shell.
pub proof fn input_reaches_the_shell(
    at: EventLoop,
    perf: Perf,
    after: Perf,
    collected: BatchState,
    data: Vec<u8>,
    error: Option<&str>,
    shown: bool,
    turn: Turn,
)
    ensures
        at.arrives(perf, Event::Stdin(data), error, shown, turn) ==> {
            &&& turn.terminal@.len() == 0 && turn.resize is None && !turn.flush
            &&& !is_session_key(data@) ==> {
                &&& turn.shell@ == data@
                &&& turn.tell is None
                &&& turn.status == StatusUpdate::Keep
                &&& turn.next == Next::Wait
            }
            &&& is_session_key(data@) && data@[1] == 4 ==> {
                &&& turn.tell == Some(ShellEvent::TogglePause)
                &&& turn.shell@.len() == 0
                &&& turn.status == StatusUpdate::Keep
                &&& turn.next == Next::Wait
            }
            &&& is_session_key(data@) && data@[1] == 23 ==> {
                &&& turn.tell == Some(ShellEvent::ListWatchedFiles)
                &&& turn.shell@.len() == 0
                &&& turn.status == StatusUpdate::Keep
                &&& turn.next == Next::Wait
            }
            &&& is_session_key(data@) && data@[1] == 5 ==> {
                &&& turn.tell is None
                &&& error is None ==> is_silent(turn) && turn.next == Next::Wait
                &&& error is Some && shown ==> {
                    &&& turn.shell@ == seq![12u8]
                    &&& turn.status == StatusUpdate::ErrorShown(false)
                    &&& turn.next == Next::Look(Purpose::Status)
                }
                &&& error is Some && !shown ==> {
                    &&& turn.shell@.len() == 0
                    &&& turn.status == StatusUpdate::ErrorShown(true)
                    &&& turn.next matches Next::Feed {
                        food: Food::Text(text),
                        then_do: After::Error,
                    }
                    &&& text@ == messages::error_seq(error->0@)
                }
            }
        },
        at.takes(perf, after, collected, Some(Event::Stdin(data)), turn) ==> {
            &&& turn.shell@ == data@
            &&& turn.terminal@.len() == 0 && turn.resize is None && !turn.flush
            &&& turn.tell is None
            &&& turn.status == StatusUpdate::Keep
            &&& turn.next matches Next::Poll(b) && b@ == collected
        },
{
    lemma_effects(turn);
    assert(data@ == session::key_toggle_pause() <==> (is_session_key(data@) && data@[1] == 4)) by {
        if is_session_key(data@) && data@[1] == 4 {
            assert(data@ =~= session::key_toggle_pause());
        }
    }
    assert(data@ == session::key_list_watched() <==> (is_session_key(data@) && data@[1] == 23)) by {
        if is_session_key(data@) && data@[1] == 23 {
            assert(data@ =~= session::key_list_watched());
        }
    }
    assert(data@ == session::key_toggle_error() <==> (is_session_key(data@) && data@[1] == 5)) by {
        if is_session_key(data@) && data@[1] == 5 {
            assert(data@ =~= session::key_toggle_error());
        }
    }
}

/// What the nested program writes begins a batch, or joins the one that is
/// being collected, as it was written. It is fed to the emulator as it was
/// written, with what the scanner forwards written to the terminal, unless the
/// batch is held back: then nothing is fed or written, and the batch holds it.
pub proof fn output_reaches_the_batch(
    at: EventLoop,
    perf: Perf,
    after: Perf,
    collected: BatchState,
    data: Vec<u8>,
    scan: Scan,
    error: Option<&str>,
    shown: bool,
    turn: Turn,
)
    ensures
        at.arrives(perf, Event::PtyOutput(data), error, shown, turn) ==> {
            &&& is_silent(turn)
            &&& turn.next matches Next::Scan { batch, chunk, first }
            &&& chunk@ == data@
            &&& first
            &&& batch.chunks == 0 && batch.bytes_in == 0 && batch.total_scroll == 0
            &&& batch@.raw.len() == 0 && batch.forwarded@.len() == 0
            &&& batch.was_in_alt == at.esc.in_alternate_screen
            &&& batch.passthrough == (at.esc.in_alternate_screen && perf.passthrough_allowed
                && !perf.legacy_render)
        },
        at.takes(perf, after, collected, Some(Event::PtyOutput(data)), turn) ==> {
            &&& is_silent(turn)
            &&& turn.next matches Next::Scan { batch, chunk, first }
            &&& chunk@ == data@
            &&& !first
            &&& batch@ == collected
        },
        event_loop::scans(collected, data, scan, turn) ==> {
            &&& turn.shell@.len() == 0 && turn.tell is None && turn.resize is None && !turn.flush
            &&& !collected.passthrough ==> {
                &&& turn.terminal@ == scan.forwarded@
                &&& turn.next matches Next::Feed {
                    food: Food::Chunk(food),
                    then_do: After::Batch(b),
                }
                &&& food@ == data@
                &&& b.chunks == collected.chunks + 1
                &&& b.bytes_in == collected.bytes_in + data@.len()
                &&& b@.raw == collected.raw && b@.forwarded == collected.forwarded
            }
            &&& collected.passthrough ==> {
                &&& turn.terminal@.len() == 0
                &&& turn.next matches Next::Poll(b)
                &&& b.chunks == collected.chunks + 1
                &&& b.bytes_in == collected.bytes_in + data@.len()
                &&& b@.raw == collected.raw.push(data@)
                &&& b@.forwarded == collected.forwarded + scan.forwarded@
            }
        },
{
    lemma_effects(turn);
}

/// A session ends with the code that the shell exited with, or none if it was
/// told to shut down. Before that the status line is blanked and the modes are
/// reset, or the modes are reset and a last frame is drawn.
pub proof fn session_ends_with_the_code(
    at: EventLoop,
    perf: Perf,
    code: Option<u32>,
    error: Option<&str>,
    shown: bool,
    cleanup: Seq<u8>,
    ending: Ending,
    turn: Turn,
)
    ensures
        at.arrives(perf, Event::PtyExit(code), error, shown, turn) ==> is_silent(turn) && turn.next
            == Next::Cleanup(Ending::Close(code)),
        at.arrives(perf, Event::Command(ShellCommand::Shutdown), error, shown, turn) ==> is_silent(
            turn,
        ) && turn.next == Next::Cleanup(Ending::Close(None)),
        at.cleans(ending, cleanup, turn) ==> {
            &&& turn.shell@.len() == 0 && turn.tell is None && turn.resize is None
            &&& ending matches Ending::Close(c) ==> {
                &&& turn.next == Next::Exit(c)
                &&& turn.terminal@ == vstd::utf8::encode_utf8(
                    at.session.clear_status_seq(at.esc),
                ) + cleanup
                &&& turn.flush
            }
            &&& ending matches Ending::Draw(c) ==> {
                &&& turn.next == Next::Look(Purpose::Last(c))
                &&& turn.terminal@ == cleanup
            }
        },
{
    lemma_effects(turn);
}

/// A command leads to the same wherever it comes: the status line is told what
/// it carries, and a list of files is printed through the emulator. Outside a
/// batch the screen is drawn after that; within one the batch goes on. Only a
/// command to shut down ends the session.
pub proof fn commands_are_heeded_everywhere(
    at: EventLoop,
    perf: Perf,
    after: Perf,
    collected: BatchState,
    command: ShellCommand,
    error: Option<&str>,
    shown: bool,
    turn: Turn,
)
    requires
        !(command is Shutdown),
        at.arrives(perf, Event::Command(command), error, shown, turn) || at.takes(
            perf,
            after,
            collected,
            Some(Event::Command(command)),
            turn,
        ),
    ensures
        turn.status == session::status_of(command),
        turn.terminal@.len() == 0 && turn.shell@.len() == 0 && turn.tell is None
            && turn.resize is None,
        !(turn.next is Cleanup) && !(turn.next is Exit),
        command matches ShellCommand::PrintWatchedFiles { files } ==> {
            &&& turn.next matches Next::Feed { food: Food::Text(text), then_do }
            &&& text@ == messages::watched_seq(messages::views(files@))
            &&& then_do is Command || (then_do matches After::Print(b) && b@ == collected)
        },
        !(command is PrintWatchedFiles) ==> match turn.next {
            Next::Look(Purpose::Command) => true,
            Next::Wait => at.esc.in_alternate_screen && !perf.legacy_render,
            Next::Poll(b) => b@ == collected,
            _ => false,
        },
{
    lemma_effects(turn);
}

/// Once the emulator was fed, the step goes on with what the feeding was for,
/// with the lines that scrolled off added to the batch: those that a command
/// printed only if the batch is not held back.
pub proof fn fed_lines_are_counted(
    at: EventLoop,
    perf: Perf,
    then_do: After,
    before: usize,
    rows: usize,
    turn: Turn,
)
    requires
        before <= rows,
        at.feeds(perf, then_do, Some(before), Some(rows), turn),
    ensures
        then_do matches After::Batch(b) ==> {
            &&& turn.next matches Next::Poll(c)
            &&& c@ == (BatchState { scroll: (b.total_scroll + rows - before) as nat, ..b@ })
        },
        then_do matches After::Print(b) ==> {
            &&& turn.next matches Next::Poll(c)
            &&& c@ == (BatchState {
                scroll: (b.total_scroll + if b.passthrough {
                    0
                } else {
                    rows - before
                }) as nat,
                ..b@
            })
        },
        then_do matches After::Fold(b, rest) ==> {
            &&& turn.next.pending() == batch::contents(rest@)
            &&& rest@.len() == 0 ==> turn.next is Look
            &&& match turn.next {
                Next::Look(Purpose::Batch(c)) => c@ == (BatchState {
                    scroll: (b.total_scroll + rows - before) as nat,
                    ..b@
                }),
                Next::Feed { then_do: After::Fold(c, _), .. } => c@ == (BatchState {
                    scroll: (b.total_scroll + rows - before) as nat,
                    ..b@
                }),
                _ => false,
            }
        },
        then_do matches After::Leave(code, rest) ==> turn.next.pending() == batch::contents(rest@),
        then_do is Error ==> turn.next == Next::Look(Purpose::Error),
{
    match then_do {
        After::Fold(b, rest) => {
            let all = batch::contents(rest@);
            if all.len() > 0 {
                assert(seq![all[0]] + all.skip(1) =~= all);
            } else {
                assert(all =~= Seq::empty());
            }
        },
        After::Leave(code, rest) => {
            let all = batch::contents(rest@);
            if all.len() > 0 {
                assert(seq![all[0]] + all.skip(1) =~= all);
            } else {
                assert(all =~= Seq::empty());
            }
        },
        _ => {},
    }
}

/// The harness copies a chunk through exactly if a session copies a batch of
/// that chunk: it begins and ends on the alternate screen, output may be copied,
/// and rendering is not legacy.
pub proof fn harness_copies_what_a_session_copies(
    h: HarnessState,
    perf: Perf,
    after: EscapeState,
    chunk: Seq<u8>,
    forwarded: Seq<u8>,
)
    ensures
        h.copies(perf, after) == laws::collected(
            perf,
            h.esc,
            seq![(chunk, forwarded)],
        ).copied(after),
        h.copies(perf, after) == (h.esc.in_alternate_screen && after.in_alternate_screen
            && perf.passthrough_allowed && !perf.legacy_render),
{
    laws::held_back_batch_is_verbatim(perf, h.esc, seq![(chunk, forwarded)]);
}

/// A resize that was put off is dealt with before anything is waited for, and
/// the event loop wakes by itself only to turn the spinner or to take away a
/// notice.
pub proof fn put_off_resize_comes_first(pending: bool, building: bool, notice: bool)
    ensures
        ({
            let wait = session::wait_for(pending, building, notice);
            &&& pending <==> wait == Wait::ResizeNow
            &&& !pending && building <==> wait == Wait::SpinnerStep
            &&& !pending && !building && notice <==> wait == Wait::ReloadNotice
            &&& !pending && !building && !notice <==> wait == Wait::Event
        }),
{
}

/// Exactly those scrollback lines are asked for that the frame pushes, and the
/// marks of exactly the rows that it may draw, unless rendering is legacy, which
/// does without marks. The status line is marked only where the frame of a batch
/// calls for it.
pub proof fn what_a_frame_needs_is_asked_for(
    at: EventLoop,
    perf: Perf,
    purpose: Purpose,
    sight: Sight,
    scrollback: Scrollback,
    screen: Screen,
    turn: Turn,
)
    requires
        at.renderer@.row_offset <= at.renderer@.content_rows,
        !(purpose is Command && at.esc.in_alternate_screen && !perf.legacy_render),
        at.looks(perf, purpose, sight, turn),
        screen.cursor == sight.cursor,
        screen.rows == sight.rows,
        scrollback.rows == sight.scrollback_rows,
    ensures
        turn.next matches Next::Probe { purpose: p, sight: s, history, marks } && {
            let r = at.renderer@;
            let given_up = match purpose {
                Purpose::Batch(b) => frame::frame_plan(
                    at.session,
                    r,
                    perf,
                    b@,
                    at.esc,
                    sight.cursor.row,
                ).consumed,
                _ => 0,
            };
            let room = r.content_rows - r.row_offset + given_up;
            &&& p == purpose && s == sight
            &&& history == (if pushed_lines(at@, perf, purpose, scrollback, screen) > 0 {
                Some(r.flushed)
            } else {
                None
            })
            &&& marks is Some <==> !perf.legacy_render && mirror::draws_screen(
                at@,
                perf.legacy_render,
                purpose,
            )
            &&& marks is Some ==> marks->0 == (if sight.rows <= room {
                sight.rows as int
            } else {
                room
            })
            &&& turn.status == StatusUpdate::Keep || (turn.status == StatusUpdate::Redraw
                && purpose is Batch)
            &&& turn.terminal@.len() == 0 && turn.shell@.len() == 0 && turn.tell is None
        },
{
    lemma_effects(turn);
}

/// A frame is written to the terminal as it is and flushed, but for the last
/// one, after which the session ends with its code. After a resize, and only
/// then, the coordinator is told the size of the shell's terminal.
pub proof fn frames_are_written_and_flushed(
    at: EventLoop,
    perf: Perf,
    purpose: Purpose,
    scrollback: Scrollback,
    screen: Screen,
    status: Seq<char>,
    turn: Turn,
)
    requires
        at.draws(perf, purpose, scrollback, screen, status, turn),
    ensures
        turn.terminal@ == vstd::utf8::encode_utf8(
            at@.frame_seq(perf, purpose, scrollback, screen, status),
        ),
        turn.shell@.len() == 0 && turn.status == StatusUpdate::Keep && turn.resize is None,
        turn.flush <==> !(purpose is Last),
        purpose matches Purpose::Last(code) ==> turn.next == Next::Exit(code),
        !(purpose is Last) ==> turn.next == Next::Wait,
        turn.tell is Some <==> purpose is Resize,
        purpose is Resize ==> (turn.tell matches Some(ShellEvent::Resize { cols, rows }) && cols
            == at.session.size.cols && rows == at.session.inner_size().rows),
{
    lemma_effects(turn);
}

/// Wherever a frame draws the status line, that has been asked for, and it is
/// asked for in no other frame but the spinner's and that of a command that is
/// not drawn.
pub proof fn drawn_status_line_was_asked_for(
    state: LoopState,
    perf: Perf,
    purpose: Purpose,
    cursor_row: u16,
)
    ensures
        ({
            let asked = state.plan(perf, purpose, cursor_row).draws_status;
            let drawn = match purpose {
                Purpose::Batch(_) => state.session.config.show_status_line && (perf.legacy_render
                    || !state.esc.in_alternate_screen),
                _ => mirror::draws_bar(state, perf.legacy_render, purpose),
            };
            &&& drawn ==> asked
            &&& !(purpose is Tick) ==> asked == drawn
        }),
{
}

/// A frame can be shown wherever its cursor can be placed: the terminal counts
/// columns and rows from one, in sixteen bits.
pub proof fn frames_can_be_shown(state: LoopState, perf: Perf, purpose: Purpose, screen: Screen)
    requires
        purpose is Opening ==> state.renderer.row_offset == 0,
        state.renderer.row_offset <= state.renderer.content_rows,
        screen.cursor.col + 1 < 0x1_0000,
        screen.cursor.row + mirror::rows_over(state, purpose) + 1 < 0x1_0000,
    ensures
        state.can_show(perf, purpose, screen),
{
}

/// The cells of a row of the screen are those that were read for it, and those
/// of a scrollback line likewise, with what is known of how it is wrapped. What
/// was not read is taken for empty.
pub proof fn rows_are_as_they_were_read(screen: Screen, scrollback: Scrollback, i: int)
    ensures
        0 <= i < screen.lines@.len() ==> screen.line(i) == screen.lines@[i]@,
        !(0 <= i < screen.lines@.len()) ==> screen.line(i).len() == 0,
        0 <= i < scrollback.lines@.len() ==> {
            &&& scrollback.line(i) == scrollback.lines@[i].cells@
            &&& scrollback.wraps(i) == (scrollback.lines@[i].wrapped == Some(true))
            &&& scrollback.continues(i) == (scrollback.lines@[i].continuation == Some(true))
        },
        !(0 <= i < scrollback.lines@.len()) ==> scrollback.line(i).len() == 0 && !scrollback.wraps(
            i,
        ) && !scrollback.continues(i),
{
}

/// A scrollback line that goes on a soft-wrapped one follows it without a move
/// of the cursor, so that the terminal wraps into it and keeps the two together.
/// Every other line is positioned.
pub proof fn wrapped_lines_stay_together(scrollback: Scrollback, y: int, n: int)
    requires
        0 <= y,
        0 < n,
        y + n < scrollback.lines@.len(),
    ensures
        ({
            let before = renderer::history_rows_seq(scrollback, y, n);
            let line = cell::row_text(scrollback.lines@[y + n].cells@);
            let joined = scrollback.lines@[y + n - 1].wrapped == Some(true) && scrollback.lines@[y
                + n].continuation == Some(true);
            let reset = seq!['\x1b', '[', '0', 'm'];
            &&& joined ==> renderer::history_rows_seq(scrollback, y, n + 1) == before + line + reset
            &&& !joined ==> renderer::history_rows_seq(scrollback, y, n + 1) == before
                + ansi::move_to_seq(0, n as nat) + line + reset
        }),
{
    reveal_strlit("\x1b[0m");
    assert("\x1b[0m"@ =~= seq!['\x1b', '[', '0', 'm']);
    let before = renderer::history_rows_seq(scrollback, y, n);
    assert(before + Seq::<char>::empty() =~= before);
}

/// A session starts the shell exactly if it is told to first, with as many files
/// to watch as it is told, and ends without an error exactly if it is told to
/// shut down or not told anything.
pub proof fn sessions_start_when_told(
    first: Option<&ShellCommand>,
    shown: Seq<char>,
    started: Result<Option<usize>, SessionError>,
)
    requires
        session::starts(first, shown, started),
    ensures
        first is None ==> started == Ok::<Option<usize>, SessionError>(None),
        first matches Some(command) ==> match *command {
            ShellCommand::Spawn { watch_files } => started matches Ok(Some(n)) && n
                == watch_files@.len(),
            ShellCommand::Shutdown => started == Ok::<Option<usize>, SessionError>(None),
            _ => started matches Err(SessionError::UnexpectedCommand(c)) && c@ == shown,
        },
{
}

/// A configured size of the terminal is not given up for a measured one, which
/// counts wherever none is configured.
pub proof fn configured_size_stands(session: ShellSession, detected: Option<(u16, u16)>)
    ensures
        session.config.size is Some ==> session.adopted(detected) == session.size,
        detected is None ==> session.adopted(detected) == session.size,
        session.config.size is None && detected is Some ==> {
            let size = session.adopted(detected);
            &&& size.cols == (detected->0).0
            &&& size.rows == (detected->0).1
            &&& size.pixel_width == 0 && size.pixel_height == 0
        },
{
}

/// What the harness writes for a chunk comes after all that it wrote before: the
/// chunk itself if it is copied through, which draws nothing, and otherwise what
/// the scanner forwards and then the frame.
pub proof fn harness_output_grows(
    h: HarnessState,
    perf: Perf,
    chunk: Seq<u8>,
    scan: Scan,
    scrollback: Scrollback,
    screen: Screen,
    status: Seq<char>,
)
    ensures
        ({
            let after = h.after_chunk(perf, chunk, scan, scrollback, screen, status);
            let new = after.out.skip(h.out.len() as int);
            let copied = h.esc.in_alternate_screen && scan.esc.in_alternate_screen
                && perf.passthrough_allowed && !perf.legacy_render;
            let frame = vstd::utf8::encode_utf8(
                h.drawn_seq(perf.legacy_render, scan.esc, scrollback, screen, status),
            );
            &&& after.out.len() >= h.out.len() && after.out.take(h.out.len() as int) == h.out
            &&& copied ==> new == chunk && after.renderer == h.renderer
            &&& !copied ==> new == scan.forwarded@ + frame && after.renderer.cursor
                == screen.cursor
            &&& after.esc == scan.esc
            &&& after.status == h.status && after.size == h.size
            &&& after.renderer.content_rows == h.renderer.content_rows
            &&& after.renderer.row_offset == h.renderer.row_offset
        }),
{
    let after = h.after_chunk(perf, chunk, scan, scrollback, screen, status);
    let new = after.out.skip(h.out.len() as int);
    let frame = vstd::utf8::encode_utf8(
        h.drawn_seq(perf.legacy_render, scan.esc, scrollback, screen, status),
    );
    assert(after.out.take(h.out.len() as int) =~= h.out);
    if h.copies(perf, scan.esc) {
        assert(new =~= chunk);
    } else {
        assert(new =~= scan.forwarded@ + frame);
    }
}

/// Wherever the nested program erased the scrollback in a batch, its frame writes
/// the sequence that erases the terminal's.
pub proof fn erased_scrollback_is_erased(
    plan: frame::FramePlan,
    r: RendererState,
    legacy: bool,
    esc: EscapeState,
    scrollback: Scrollback,
    screen: Screen,
    status: Seq<char>,
) -> (parts: (Seq<char>, Seq<char>))
    requires
        esc.clear_scrollback,
    ensures
        frame::batch_frame_seq(plan, r, legacy, esc, scrollback, screen, status) == parts.0 + seq![
            '\x1b',
            '[',
            '3',
            'J',
        ] + parts.1,
{
    let p = plan.prepared(r);
    let begin = ansi::begin_sync_seq();
    let scroll = renderer::scroll_seq(r.content_rows, plan.consumed as nat);
    let clear = cell::when(plan.clears, renderer::native_clear_seq());
    let rows = frame::screen_seq(p, legacy, plan.scrolls, scrollback, screen);
    let line = cell::when(plan.draws_status, status);
    let place = renderer::place_seq(screen.cursor, p.row_offset);
    let erase = seq!['\x1b', '[', '3', 'J'];
    reveal_strlit("\x1b[3J");
    assert("\x1b[3J"@ =~= erase);
    lemma_middle(begin, scroll, erase, clear, rows, line, place, ansi::end_sync_seq());
    (begin + scroll, clear + rows + line + place + ansi::end_sync_seq())
}

proof fn lemma_middle(
    a: Seq<char>,
    b: Seq<char>,
    c: Seq<char>,
    d: Seq<char>,
    e: Seq<char>,
    f: Seq<char>,
    g: Seq<char>,
    h: Seq<char>,
)
    ensures
        a + (b + c + d) + e + f + g + h == (a + b) + c + (d + e + f + g + h),
{
    assert(a + (b + c + d) + e + f + g + h =~= (a + b) + c + (d + e + f + g + h));
}

/// Frames of a batch, of a command and of the spinner are each one synchronized
/// update, from their first character to their last: the terminal shows nothing
/// of them before they are complete.
pub proof fn frames_are_synchronized(
    state: LoopState,
    perf: Perf,
    purpose: Purpose,
    scrollback: Scrollback,
    screen: Screen,
    status: Seq<char>,
) -> (inner: Seq<char>)
    requires
        purpose is Batch || purpose is Command || purpose is Tick,
    ensures
        ({
            let frame = state.frame_seq(perf, purpose, scrollback, screen, status);
            let in_alt = state.esc.in_alternate_screen;
            let legacy = perf.legacy_render;
            let written = match purpose {
                Purpose::Batch(_) => true,
                Purpose::Command => !in_alt || legacy,
                _ => state.session.config.show_status_line && (!in_alt || legacy),
            };
            &&& written ==> frame == seq!['\x1b', '[', '?', '2', '0', '2', '6', 'h'] + inner + seq![
                '\x1b',
                '[',
                '?',
                '2',
                '0',
                '2',
                '6',
                'l',
            ]
            &&& !written ==> frame.len() == 0
        }),
{
    let r = state.renderer;
    let legacy = perf.legacy_render;
    let plan = state.plan(perf, purpose, screen.cursor.row);
    let begin = ansi::begin_sync_seq();
    let end = ansi::end_sync_seq();
    reveal_strlit("\x1b[?2026h");
    reveal_strlit("\x1b[?2026l");
    assert(begin =~= seq!['\x1b', '[', '?', '2', '0', '2', '6', 'h']);
    assert(end =~= seq!['\x1b', '[', '?', '2', '0', '2', '6', 'l']);
    match purpose {
        Purpose::Batch(_) => {
            let p = plan.prepared(r);
            let a = plan.prepared_seq(r, state.esc);
            let b = frame::screen_seq(p, legacy, plan.scrolls, scrollback, screen);
            let c = cell::when(plan.draws_status, status);
            let d = renderer::place_seq(screen.cursor, p.row_offset);
            text::lemma_cat(begin, a, b);
            text::lemma_cat(begin, a + b, c);
            text::lemma_cat(begin, a + b + c, d);
            a + b + c + d
        },
        Purpose::Command => {
            let a = frame::screen_seq(r, legacy, plan.scrolls, scrollback, screen);
            let b = cell::when(
                plan.draws_status,
                status + renderer::place_seq(screen.cursor, r.row_offset),
            );
            text::lemma_cat(begin, a, b);
            a + b
        },
        _ => {
            let d = renderer::place_seq(screen.cursor, r.row_offset);
            text::lemma_cat(begin, status, d);
            status + d
        },
    }
}

/// A row is drawn by going to its first cell, erasing the line, writing its text
/// and leaving no style behind.
pub proof fn rows_are_drawn_on_a_clean_line(r: RendererState, screen: Screen, i: int)
    requires
        0 <= i,
    ensures
        r.row_seq(screen, i) == seq!['\x1b', '['] + text::dec((i + r.row_offset + 1) as nat) + seq![
            ';',
            '1',
            'H',
            '\x1b',
            '[',
            '2',
            'K',
        ] + cell::row_text(screen.line(i)) + seq!['\x1b', '[', '0', 'm'],
{
    reveal_strlit("\x1b[0m");
    reveal_strlit("\x1b[2K");
    reveal_strlit("\x1b[");
    reveal_strlit(";");
    reveal_strlit("H");
    assert("\x1b[0m"@ =~= seq!['\x1b', '[', '0', 'm']);
    let n = (i + r.row_offset + 1) as nat;
    assert(text::dec(1) =~= seq!['1']);
    assert(ansi::move_to_seq(0, (i + r.row_offset) as nat) + ansi::erase_seq(ansi::Erase::Line)
        =~= seq!['\x1b', '['] + text::dec(n) + seq![';', '1', 'H', '\x1b', '[', '2', 'K']);
}

} // verus!
