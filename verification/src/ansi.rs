//! Terminal control sequences, appended to a frame under construction.

use crossterm::Command;
use vstd::prelude::*;

use crate::text;

verus! {

/// What a clear command erases.
#[derive(Clone, Copy, Debug, PartialEq, Eq, Structural)]
pub enum Erase {
    /// The whole screen.
    Screen,
    /// The scrollback.
    Scrollback,
    /// The row the cursor is in.
    Line,
}

/// The sequence that places the cursor in column `col` of row `row`, both
/// counted from zero.
pub open spec fn move_to_seq(col: nat, row: nat) -> Seq<char> {
    "\x1b["@ + text::dec(row + 1) + ";"@ + text::dec(col + 1) + "H"@
}

/// The sequence that erases what `what` names.
pub open spec fn erase_seq(what: Erase) -> Seq<char> {
    match what {
        Erase::Screen => "\x1b[2J"@,
        Erase::Scrollback => "\x1b[3J"@,
        Erase::Line => "\x1b[2K"@,
    }
}

/// The sequence that confines scrolling to rows `top` to `bottom`, counted
/// from one (DECSTBM).
pub open spec fn scroll_region_seq(top: nat, bottom: nat) -> Seq<char> {
    "\x1b["@ + text::dec(top) + ";"@ + text::dec(bottom) + "r"@
}

/// The sequence that lets the whole screen scroll again.
pub open spec fn reset_scroll_region_seq() -> Seq<char> {
    "\x1b[r"@
}

pub open spec fn show_cursor_seq() -> Seq<char> {
    "\x1b[?25h"@
}

pub open spec fn hide_cursor_seq() -> Seq<char> {
    "\x1b[?25l"@
}

pub open spec fn save_cursor_seq() -> Seq<char> {
    "\x1b7"@
}

pub open spec fn restore_cursor_seq() -> Seq<char> {
    "\x1b8"@
}

/// The sequence that returns to the default colors and attributes.
pub open spec fn reset_color_seq() -> Seq<char> {
    "\x1b[0m"@
}

pub open spec fn begin_sync_seq() -> Seq<char> {
    "\x1b[?2026h"@
}

pub open spec fn end_sync_seq() -> Seq<char> {
    "\x1b[?2026l"@
}

/// Calls `crossterm::cursor::MoveTo::write_ansi`, which writes CSI, the row
/// plus one, a semicolon, the column plus one and `H`. The additions are made
/// in `u16`, so neither coordinate may be the largest one.
#[verifier::external_body]
pub(crate) fn move_to(out: &mut String, col: u16, row: u16)
    requires
        col < u16::MAX,
        row < u16::MAX,
    ensures
        final(out)@ == old(out)@ + move_to_seq(col as nat, row as nat),
{
    let _ = crossterm::cursor::MoveTo(col, row).write_ansi(out);
}

/// Calls `crossterm::terminal::Clear::write_ansi`, which writes the fixed
/// sequence of the clear type it was made with.
#[verifier::external_body]
pub(crate) fn clear(out: &mut String, what: Erase)
    ensures
        final(out)@ == old(out)@ + erase_seq(what),
{
    let kind = match what {
        Erase::Screen => crossterm::terminal::ClearType::All,
        Erase::Scrollback => crossterm::terminal::ClearType::Purge,
        Erase::Line => crossterm::terminal::ClearType::CurrentLine,
    };
    let _ = crossterm::terminal::Clear(kind).write_ansi(out);
}

/// Calls `crossterm::cursor::Show::write_ansi`, which writes a fixed sequence.
#[verifier::external_body]
pub(crate) fn show_cursor(out: &mut String)
    ensures
        final(out)@ == old(out)@ + show_cursor_seq(),
{
    let _ = crossterm::cursor::Show.write_ansi(out);
}

/// Calls `crossterm::cursor::Hide::write_ansi`, which writes a fixed sequence.
#[verifier::external_body]
pub(crate) fn hide_cursor(out: &mut String)
    ensures
        final(out)@ == old(out)@ + hide_cursor_seq(),
{
    let _ = crossterm::cursor::Hide.write_ansi(out);
}

/// Calls `crossterm::cursor::SavePosition::write_ansi`, which writes a fixed
/// sequence.
#[verifier::external_body]
pub(crate) fn save_cursor(out: &mut String)
    ensures
        final(out)@ == old(out)@ + save_cursor_seq(),
{
    let _ = crossterm::cursor::SavePosition.write_ansi(out);
}

/// Calls `crossterm::cursor::RestorePosition::write_ansi`, which writes a
/// fixed sequence.
#[verifier::external_body]
pub(crate) fn restore_cursor(out: &mut String)
    ensures
        final(out)@ == old(out)@ + restore_cursor_seq(),
{
    let _ = crossterm::cursor::RestorePosition.write_ansi(out);
}

/// Calls `crossterm::style::ResetColor::write_ansi`, which writes a fixed
/// sequence.
#[verifier::external_body]
pub(crate) fn reset_color(out: &mut String)
    ensures
        final(out)@ == old(out)@ + reset_color_seq(),
{
    let _ = crossterm::style::ResetColor.write_ansi(out);
}

/// Calls `crossterm::terminal::BeginSynchronizedUpdate::write_ansi`, which
/// writes a fixed sequence.
#[verifier::external_body]
pub(crate) fn begin_sync(out: &mut String)
    ensures
        final(out)@ == old(out)@ + begin_sync_seq(),
{
    let _ = crossterm::terminal::BeginSynchronizedUpdate.write_ansi(out);
}

/// Calls `crossterm::terminal::EndSynchronizedUpdate::write_ansi`, which
/// writes a fixed sequence.
#[verifier::external_body]
pub(crate) fn end_sync(out: &mut String)
    ensures
        final(out)@ == old(out)@ + end_sync_seq(),
{
    let _ = crossterm::terminal::EndSynchronizedUpdate.write_ansi(out);
}

/// Confines scrolling to rows `top` to `bottom`, counted from one.
pub fn set_scroll_region(out: &mut String, top: u16, bottom: u16)
    ensures
        final(out)@ == old(out)@ + scroll_region_seq(top as nat, bottom as nat),
{
    out.append("\x1b[");
    text::push_dec(out, top as u64);
    out.append(";");
    text::push_dec(out, bottom as u64);
    out.append("r");
    assert(out@ =~= old(out)@ + scroll_region_seq(top as nat, bottom as nat));
}

/// Lets the whole screen scroll again.
pub fn reset_scroll_region(out: &mut String)
    ensures
        final(out)@ == old(out)@ + reset_scroll_region_seq(),
{
    out.append("\x1b[r");
}

} // verus!
