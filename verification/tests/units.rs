use devenv_shell::ansi;
use devenv_shell::batch::{Batch, ExitPlan, Settled};
use devenv_shell::cell;
use devenv_shell::cell::{
    Cell, CellContentTag, CellWide, GridCell, RgbColor, Style, StyleColor, Underline,
};
use devenv_shell::inputs;
use devenv_shell::messages;
use devenv_shell::perf;
use devenv_shell::perf::{CountingWriter, Perf, Snapshot};
use devenv_shell::renderer::{CursorState, HistoryLine, Renderer, Screen, Scrollback};
use devenv_shell::report;
use devenv_shell::report::Ratios;
use devenv_shell::session;
use devenv_shell::session::{
    Drained, EscapeState, Event, PtySize, SessionConfig, SessionError, SessionIo, ShellCommand,
    ShellEvent, ShellSession, StatusUpdate, StdinAction, Wait,
};
use devenv_shell::text;

fn at(col: u16, row: u16) -> CursorState {
    CursorState {
        col,
        row,
        visible: true,
    }
}

fn plain(c: char) -> Cell {
    Cell {
        id: c as u64,
        wide: Some(CellWide::Narrow),
        has_text: Some(true),
        has_styling: Some(false),
        content_tag: Some(CellContentTag::Codepoint),
        bg_color_palette: None,
        bg_color_rgb: None,
        grid: Some(GridCell {
            style: None,
            text: c.to_string(),
        }),
    }
}

fn styled(c: char, style: Style) -> Cell {
    let mut cell = plain(c);
    cell.has_styling = Some(true);
    cell.grid = Some(GridCell {
        style: Some(style),
        text: c.to_string(),
    });
    cell
}

fn blank() -> Cell {
    let mut cell = plain(' ');
    cell.has_text = Some(false);
    cell
}

fn row(s: &str) -> Vec<Cell> {
    s.chars()
        .map(|c| if c == ' ' { blank() } else { plain(c) })
        .collect()
}

fn screen(lines: &[&str], cursor: CursorState) -> Screen {
    Screen {
        rows: lines.len() as u16,
        dirty: vec![Some(true); lines.len()],
        lines: lines.iter().map(|line| row(line)).collect(),
        cursor,
    }
}

fn dumped(cells: &[Cell]) -> String {
    let mut out = String::new();
    cell::dump_row_from_cells(&mut out, cells);
    out
}

fn bold() -> Style {
    Style {
        bold: true,
        ..Style::default()
    }
}

fn size(cols: u16, rows: u16) -> PtySize {
    PtySize {
        rows,
        cols,
        pixel_width: 0,
        pixel_height: 0,
    }
}

fn esc(in_alternate_screen: bool) -> EscapeState {
    EscapeState {
        in_alternate_screen,
        erase_display: false,
        clear_scrollback: false,
        in_band_resize: false,
    }
}

#[test]
fn numbers_and_padding() {
    let mut out = String::new();
    text::push_dec(&mut out, 0);
    text::push_dec(&mut out, u64::MAX);
    assert_eq!(out, format!("0{}", u64::MAX));
    let mut out = String::new();
    text::push_run(&mut out, '─', 3);
    text::push_right_aligned(&mut out, "ab", 4);
    text::push_right_aligned(&mut out, "abcde", 4);
    assert_eq!(out, "───  ababcde");
    let mut bytes = vec![1];
    text::append_bytes(&mut bytes, &[2, 3]);
    text::append_text(&mut bytes, "é");
    assert_eq!(bytes, vec![1, 2, 3, 0xc3, 0xa9]);
}

#[test]
fn scroll_regions() {
    let mut out = String::new();
    ansi::set_scroll_region(&mut out, 1, 23);
    ansi::reset_scroll_region(&mut out);
    assert_eq!(out, "\x1b[1;23r\x1b[r");
    assert_eq!(session::takeover(), "\x1b[r\x1b[?6l");
}

#[test]
fn colors() {
    let shown = |color: StyleColor, base: u8| {
        let mut out = String::new();
        cell::dump_color(&mut out, &color, base);
        out
    };
    assert_eq!(shown(StyleColor::Unset, 30), "");
    assert_eq!(shown(StyleColor::Palette(0), 30), "30");
    assert_eq!(shown(StyleColor::Palette(7), 40), "47");
    assert_eq!(shown(StyleColor::Palette(8), 30), "90");
    assert_eq!(shown(StyleColor::Palette(15), 40), "107");
    assert_eq!(shown(StyleColor::Palette(16), 30), "38;5;16");
    assert_eq!(shown(StyleColor::Palette(255), 40), "48;5;255");
    let rgb = StyleColor::Rgb(RgbColor { r: 1, g: 20, b: 255 });
    assert_eq!(shown(rgb, 40), "48;2;1;20;255");
}

#[test]
fn styles() {
    let shown = |style: Style| {
        let mut out = String::new();
        cell::dump_style(&mut out, &style);
        out
    };
    assert_eq!(shown(Style::default()), "\x1b[0m");
    let all = Style {
        fg_color: StyleColor::Palette(1),
        bg_color: StyleColor::Palette(9),
        underline_color: StyleColor::Palette(2),
        bold: true,
        italic: true,
        faint: true,
        blink: true,
        inverse: true,
        invisible: true,
        strikethrough: true,
        overline: true,
        underline: Underline::Single,
    };
    assert_eq!(shown(all), "\x1b[0;31;101;1;2;3;4;5;7;9m");
    let underlined = |underline| Style {
        underline,
        ..Style::default()
    };
    assert_eq!(shown(underlined(Underline::Double)), "\x1b[0;4:2m");
    assert_eq!(shown(underlined(Underline::Curly)), "\x1b[0;4:3m");
    assert_eq!(shown(underlined(Underline::Dotted)), "\x1b[0;4:4m");
    assert_eq!(shown(underlined(Underline::Dashed)), "\x1b[0;4:5m");
    assert_eq!(shown(underlined(Underline::Other)), "\x1b[0m");
}

#[test]
fn rows_keep_inner_blanks_and_drop_trailing_ones() {
    assert_eq!(dumped(&row("")), "");
    assert_eq!(dumped(&row("    ")), "");
    assert_eq!(dumped(&row("a  b  ")), "a  b");
    assert_eq!(dumped(&row("  a")), "  a");
}

#[test]
fn rows_change_style_only_where_it_changes() {
    let cells = vec![
        plain('a'),
        styled('b', bold()),
        styled('c', bold()),
        plain('d'),
    ];
    assert_eq!(dumped(&cells), "a\x1b[0;1mbc\x1b[0md");
    let cells = vec![styled('b', bold()), blank()];
    assert_eq!(dumped(&cells), "\x1b[0;1mb\x1b[0m");
}

#[test]
fn rows_skip_spacers_and_unresolved_cells() {
    let mut tail = plain('x');
    tail.wide = Some(CellWide::SpacerTail);
    let mut head = plain('x');
    head.wide = Some(CellWide::SpacerHead);
    let mut lost = plain('x');
    lost.grid = None;
    let mut unknown = plain('?');
    unknown.wide = None;
    unknown.has_styling = None;
    unknown.content_tag = None;
    let cells = vec![plain('a'), tail, head, lost, unknown];
    assert_eq!(dumped(&cells), "a?");
    let mut silent = plain('x');
    silent.has_text = None;
    assert_eq!(dumped(&[silent, plain('y')]), " y");
}

#[test]
fn background_fills() {
    let mut filled = blank();
    filled.content_tag = Some(CellContentTag::BgColorPalette);
    filled.bg_color_palette = Some(4);
    assert_eq!(
        cell::cell_style(&filled).bg_color,
        StyleColor::Palette(4)
    );
    assert_eq!(dumped(&[filled]), "\x1b[0;44m \x1b[0m");
    let mut filled = blank();
    filled.content_tag = Some(CellContentTag::BgColorRgb);
    filled.bg_color_rgb = Some(RgbColor { r: 1, g: 2, b: 3 });
    assert_eq!(dumped(&[filled]), "\x1b[0;48;2;1;2;3m \x1b[0m");
    let mut refused = blank();
    refused.content_tag = Some(CellContentTag::BgColorRgb);
    assert_eq!(cell::cell_style(&refused), Style::default());
    assert_eq!(cell::cell_style(&styled('a', bold())), bold());
    let mut unstyled = styled('a', bold());
    unstyled.has_styling = Some(false);
    assert_eq!(cell::cell_style(&unstyled), Style::default());
}

#[test]
fn blank_rows_are_known_ones() {
    assert!(cell::is_blank_cells(&[]));
    assert!(cell::is_blank_cells(&row("   ")));
    assert!(!cell::is_blank_cells(&row("  a")));
    let mut unknown = blank();
    unknown.has_styling = None;
    assert!(!cell::is_blank_cells(&[unknown]));
    let mut unknown = blank();
    unknown.has_text = None;
    assert!(!cell::is_blank_cells(&[unknown]));
    let mut unknown = blank();
    unknown.content_tag = None;
    assert!(!cell::is_blank_cells(&[unknown]));
    let mut filled = blank();
    filled.content_tag = Some(CellContentTag::BgColorPalette);
    assert!(!cell::is_blank_cells(&[filled]));
}

#[test]
fn frame_is_not_repeated() {
    let mut perf = Perf::new();
    let mut renderer = Renderer::new(3);
    let mut out = String::new();
    let shown = screen(&["a", "", "c"], at(1, 2));
    renderer.render_full(&mut out, &mut perf, &shown);
    assert_eq!(
        out,
        "\x1b[1;1H\x1b[2Ka\x1b[0m\x1b[2;1H\x1b[2K\x1b[0m\x1b[3;1H\x1b[2Kc\x1b[0m\x1b[3;2H"
    );
    out.clear();
    renderer.render(&mut out, &mut perf, &shown);
    assert_eq!(out, "");
    perf::set_legacy(&mut perf, true);
    renderer.render(&mut out, &mut perf, &shown);
    assert_eq!(out, "");
}

#[test]
fn rows_reported_again_are_not_drawn_again() {
    let mut perf = Perf::new();
    let mut renderer = Renderer::new(3);
    let mut out = String::new();
    renderer.render_full(&mut out, &mut perf, &screen(&["a", "b", "c"], at(0, 0)));
    out.clear();
    let mut part = screen(&["a", "x", "c"], at(0, 0));
    part.dirty = vec![Some(false), Some(true), Some(false)];
    renderer.render(&mut out, &mut perf, &part);
    assert_eq!(out, "\x1b[2;1H\x1b[2Kx\x1b[0m");
    out.clear();
    let mut again = screen(&["a", "x", "c"], at(0, 0));
    again.dirty = vec![None, Some(true), None];
    renderer.render(&mut out, &mut perf, &again);
    assert_eq!(out, "");
    let lines = history(&[("old", None, None)]);
    assert!(renderer.render_with_scroll(&mut out, &mut perf, &lines, &part));
    out.clear();
    assert!(!renderer.render_with_scroll(&mut out, &mut perf, &history(&[]), &again));
    assert_eq!(out, "");
}

#[test]
fn unchanged_rows_are_not_looked_at() {
    let mut perf = Perf::new();
    perf::set_enabled(&mut perf, true);
    let mut renderer = Renderer::new(3);
    let mut out = String::new();
    renderer.render_full(&mut out, &mut perf, &screen(&["a", "b", "c"], at(0, 0)));
    assert_eq!(perf::snapshot(&perf).rows_redrawn, 3);
    out.clear();
    let mut changed = screen(&["x", "y", "z"], at(0, 0));
    changed.dirty = vec![Some(false), None, Some(true)];
    assert_eq!(
        renderer.rows_to_read(&perf, &changed),
        vec![false, true, true]
    );
    renderer.render(&mut out, &mut perf, &changed);
    assert_eq!(
        out,
        "\x1b[2;1H\x1b[2Ky\x1b[0m\x1b[3;1H\x1b[2Kz\x1b[0m"
    );
    assert_eq!(perf::snapshot(&perf).rows_redrawn, 5);
    assert_eq!(perf::snapshot(&perf).rows_skipped, 1);
    assert_eq!(
        Renderer::collect_dirty(&perf, &changed, 4),
        vec![false, true, true, true]
    );
}

#[test]
fn cursor_is_shown_hidden_and_moved() {
    let mut renderer = Renderer::new(3);
    let mut out = String::new();
    let hidden = CursorState {
        col: 2,
        row: 1,
        visible: false,
    };
    renderer.update_cursor(&mut out, hidden);
    assert_eq!(out, "\x1b[?25l\x1b[2;3H");
    out.clear();
    renderer.update_cursor(&mut out, hidden);
    assert_eq!(out, "");
    renderer.write_cursor(&mut out, hidden);
    assert_eq!(out, "\x1b[2;3H");
    out.clear();
    renderer.update_cursor(&mut out, at(0, 0));
    assert_eq!(out, "\x1b[?25h\x1b[1;1H");
}

#[test]
fn native_clear_keeps_the_visibility_of_the_cursor() {
    let mut renderer = Renderer::new(3);
    let mut out = String::new();
    renderer.update_cursor(
        &mut out,
        CursorState {
            col: 0,
            row: 2,
            visible: false,
        },
    );
    out.clear();
    renderer.native_clear(&mut out);
    assert_eq!(out, "\x1b[2J\x1b[1;1H");
    assert!(!renderer.prev_cursor.visible);
    assert!(!renderer.force_full);
    let mut perf = Perf::new();
    out.clear();
    renderer.render(&mut out, &mut perf, &screen(&["", "a", ""], at(0, 0)));
    assert_eq!(out, "\x1b[2;1H\x1b[2Ka\x1b[0m\x1b[?25h\x1b[1;1H");
    assert!(!renderer.cleared);
}

#[test]
fn row_of_unknown_content_is_drawn_after_a_clear() {
    let mut renderer = Renderer::new(2);
    let mut perf = Perf::new();
    let mut out = String::new();
    renderer.native_clear(&mut out);
    out.clear();
    let mut shown = screen(&[" ", " "], at(0, 0));
    shown.lines[1][0].content_tag = None;
    renderer.render(&mut out, &mut perf, &shown);
    assert_eq!(out, "\x1b[2;1H\x1b[2K\x1b[0m");
}

#[test]
fn places_that_the_terminal_can_be_told() {
    assert!(at(65534, 65534).is_placeable(0));
    assert!(!at(65535, 0).is_placeable(0));
    assert!(!at(0, 65535).is_placeable(0));
    assert!(!at(0, 65000).is_placeable(535));
    assert!(at(0, 65000).is_placeable(536));
}

#[test]
fn rows_outside_the_terminal_are_clipped() {
    let mut perf = Perf::new();
    let mut renderer = Renderer::new(3);
    renderer.row_offset = 2;
    assert_eq!(renderer.visible_rows(), 1);
    let mut out = String::new();
    renderer.render_full(&mut out, &mut perf, &screen(&["a", "b", "c"], at(0, 0)));
    assert_eq!(out, "\x1b[3;1H\x1b[2Ka\x1b[0m");
    renderer.row_offset = 5;
    assert_eq!(renderer.visible_rows(), 0);
}

#[test]
fn synced_screen_is_not_drawn() {
    let mut perf = Perf::new();
    let mut renderer = Renderer::new(3);
    let mut out = String::new();
    let shown = screen(&["a", "b"], at(1, 1));
    renderer.sync(&shown);
    renderer.render(&mut out, &mut perf, &shown);
    assert_eq!(out, "");
    renderer.invalidate();
    renderer.render(&mut out, &mut perf, &shown);
    assert_eq!(
        out,
        "\x1b[1;1H\x1b[2Ka\x1b[0m\x1b[2;1H\x1b[2Kb\x1b[0m"
    );
}

#[test]
fn scrolling_a_region() {
    let mut out = String::new();
    Renderer::scroll_region(&mut out, 4, 0);
    Renderer::scroll_region(&mut out, 0, 2);
    assert_eq!(out, "");
    Renderer::scroll_region(&mut out, 4, 2);
    assert_eq!(out, "\x1b[1;4r\x1b[4;1H\n\n\x1b[r");
}

fn history(lines: &[(&str, Option<bool>, Option<bool>)]) -> Scrollback {
    Scrollback {
        rows: lines.len(),
        lines: lines
            .iter()
            .map(|(line, continuation, wrapped)| HistoryLine {
                cells: row(line),
                continuation: *continuation,
                wrapped: *wrapped,
            })
            .collect(),
    }
}

#[test]
fn soft_wrapped_lines_are_joined_in_the_scrollback() {
    let mut renderer = Renderer::new(2);
    let mut out = String::new();
    let lines = history(&[
        ("ab", Some(false), Some(true)),
        ("c", Some(true), Some(false)),
        ("d", Some(true), None),
    ]);
    assert!(renderer.flush_scrollback(&mut out, &lines));
    assert_eq!(
        out,
        "\x1b[1;2r\x1b[1;1H\x1b[2K\x1b[2;1H\x1b[2K\x1b[1;1Hab\x1b[0mc\x1b[0m\x1b[2;1H\n\n\
         \x1b[1;1H\x1b[2K\x1b[1;1Hd\x1b[0m\x1b[2;1H\n\x1b[r"
    );
    assert!(renderer.force_full);
    assert_eq!(renderer.scrollback_flushed, 0);
    out.clear();
    assert!(!renderer.flush_scrollback(&mut out, &history(&[])));
    assert_eq!(out, "");
}

#[test]
fn scrollback_that_the_terminal_has_is_not_pushed() {
    let mut renderer = Renderer::new(2);
    renderer.scrollback_flushed = 1;
    let mut out = String::new();
    let lines = history(&[("a", None, None), ("b", None, None)]);
    assert!(renderer.flush_scrollback(&mut out, &lines));
    assert!(out.contains("b") && !out.contains("a"));
    renderer.scrollback_flushed = 5;
    out.clear();
    assert!(!renderer.flush_scrollback(&mut out, &lines));
    renderer.discard_vt_scrollback();
    assert_eq!(renderer.scrollback_flushed, 0);
    let mut perf = Perf::new();
    let shown = screen(&["x", "y"], at(0, 0));
    assert!(renderer.render_with_scroll(&mut out, &mut perf, &lines, &shown));
    assert!(out.ends_with("\x1b[r\x1b[1;1H\x1b[2Kx\x1b[0m\x1b[2;1H\x1b[2Ky\x1b[0m"));
}

#[test]
fn batch_on_the_primary_screen_is_drawn() {
    let mut perf = Perf::new();
    let mut out = Vec::new();
    let mut batch = Batch::begin(&perf, &esc(false));
    assert_eq!(
        batch.add_chunk(&mut out, b"ab".to_vec(), b"<fwd>"),
        Some(b"ab".to_vec())
    );
    batch.add_scroll(2);
    batch.add_command_scroll(3);
    assert_eq!(batch.total_scroll, 5);
    assert_eq!(out, b"<fwd>");
    assert!(matches!(
        batch.settle(&mut out, &mut perf, &esc(true)),
        Settled::Draw
    ));
    assert_eq!(out, b"<fwd>");
}

#[test]
fn batch_on_the_alternate_screen_is_held_back() {
    let mut perf = Perf::new();
    perf::set_enabled(&mut perf, true);
    let mut out = Vec::new();
    let mut batch = Batch::begin(&perf, &esc(true));
    assert_eq!(batch.add_chunk(&mut out, b"ab".to_vec(), b"<1>"), None);
    assert_eq!(batch.add_chunk(&mut out, b"c".to_vec(), b"<2>"), None);
    batch.add_command_scroll(3);
    assert_eq!(batch.total_scroll, 0);
    assert!(out.is_empty());
    assert!(matches!(
        batch.settle(&mut out, &mut perf, &esc(true)),
        Settled::Copied
    ));
    assert_eq!(out, b"abc");
    assert_eq!(perf.counters.passthrough_batches, 1);
    assert_eq!(perf.counters.bytes_in, 3);
    assert_eq!(perf.counters.chunks, 2);
    out.clear();
    assert!(matches!(
        batch.settle_exit(&mut out, &esc(true)),
        ExitPlan::Restore
    ));
    match batch.settle(&mut out, &mut perf, &esc(false)) {
        Settled::Fold(chunks) => assert_eq!(chunks, vec![b"ab".to_vec(), b"c".to_vec()]),
        _ => panic!("not folded"),
    }
    assert_eq!(out, b"<1><2>");
    out.clear();
    assert!(batch.raw.is_empty());
    match batch.settle_exit(&mut out, &esc(false)) {
        ExitPlan::Draw(chunks) => assert!(chunks.is_empty()),
        ExitPlan::Restore => panic!("not drawn"),
    }
    assert_eq!(out, b"<1><2>");
}

#[test]
fn shell_gets_one_row_less_than_the_terminal() {
    let session = ShellSession::with_defaults(size(80, 24));
    assert_eq!(session.pty_size(), size(80, 23));
    let session = session.with_status_line(false);
    assert_eq!(session.pty_size(), size(80, 24));
    assert!(!session.status_enabled);
    let session = ShellSession::with_defaults(size(80, 1));
    assert_eq!(session.pty_size(), size(80, 1));
    let session = ShellSession::with_defaults(size(80, 0));
    assert_eq!(session.pty_size(), size(80, 1));
}

#[test]
fn configured_size_is_kept() {
    let config = SessionConfig {
        show_status_line: true,
        size: Some(size(10, 5)),
    };
    let mut session = ShellSession::new(config, size(80, 24));
    assert_eq!(session.size, size(10, 5));
    session.adopt_size(Some((100, 50)));
    assert_eq!(session.size, size(10, 5));
    let mut session = ShellSession::new(SessionConfig::default(), size(80, 24));
    assert_eq!(session.size, size(80, 24));
    session.adopt_size(None);
    assert_eq!(session.size, size(80, 24));
    session.adopt_size(Some((100, 50)));
    assert_eq!(session.size, size(100, 50));
}

#[test]
fn shutdown_token_is_carried() {
    let token = tokio_util::sync::CancellationToken::new();
    let session = ShellSession::with_defaults(size(80, 24)).with_shutdown_token(token.clone());
    token.cancel();
    assert!(session.shutdown_token.unwrap().is_cancelled());
}

#[test]
fn process_streams_are_the_default() {
    let io: SessionIo<u8, u8> = SessionIo::default();
    assert!(io.stdin.is_none());
    assert!(io.stdout.is_none());
}

#[test]
fn errors_in_words() {
    let message = |e: SessionError| e.message();
    assert_eq!(
        message(SessionError::Pty("gone".to_string())),
        "PTY error: gone"
    );
    assert_eq!(
        message(SessionError::Io("full".to_string())),
        "IO error: full"
    );
    assert_eq!(
        message(SessionError::Terminal("bad".to_string())),
        "terminal error: bad"
    );
    assert_eq!(message(SessionError::ChannelClosed), "channel closed");
    assert_eq!(
        message(SessionError::UnexpectedCommand("X".to_string())),
        "unexpected command: expected Spawn, got X"
    );
}

#[test]
fn session_starts_with_a_spawn() {
    let spawn = ShellCommand::Spawn {
        watch_files: vec!["a".to_string(), "b".to_string()],
    };
    assert!(matches!(session::start(Some(&spawn), ""), Ok(Some(2))));
    assert!(matches!(session::start(None, ""), Ok(None)));
    assert!(matches!(
        session::start(Some(&ShellCommand::Shutdown), ""),
        Ok(None)
    ));
    match session::start(Some(&ShellCommand::ReloadApplied), "ReloadApplied") {
        Err(SessionError::UnexpectedCommand(shown)) => assert_eq!(shown, "ReloadApplied"),
        _ => panic!("started"),
    }
}

#[test]
fn rows_above_the_cursor() {
    assert_eq!(session::rows_above(None), 0);
    assert_eq!(session::rows_above(Some(7)), 7);
}

#[test]
fn buffers_are_small_with_legacy_rendering() {
    let mut perf = Perf::new();
    assert_eq!(session::stdout_capacity(&perf), 256 * 1024);
    assert_eq!(session::pty_read_size(&perf), 64 * 1024);
    perf::set_legacy(&mut perf, true);
    assert_eq!(session::stdout_capacity(&perf), 8 * 1024);
    assert_eq!(session::pty_read_size(&perf), 4096);
}

#[test]
fn keys() {
    assert!(matches!(
        session::stdin_action(&[0x1b, 0x04], None, false),
        StdinAction::Tell(ShellEvent::TogglePause)
    ));
    assert!(matches!(
        session::stdin_action(&[0x1b, 0x17], None, false),
        StdinAction::Tell(ShellEvent::ListWatchedFiles)
    ));
    assert!(matches!(
        session::stdin_action(&[0x1b, 0x05], None, false),
        StdinAction::Nothing
    ));
    match session::stdin_action(&[0x1b, 0x05], Some("e"), false) {
        StdinAction::ShowError(text) => assert_eq!(
            text,
            "\r\n\x1b[1;31mBuild error:\x1b[0m\r\n  e\r\n\r\n"
        ),
        _ => panic!("not shown"),
    }
    match session::stdin_action(&[0x1b, 0x05], Some("e"), true) {
        StdinAction::HideError(bytes) => assert_eq!(bytes, vec![0x0c]),
        _ => panic!("not hidden"),
    }
    assert!(matches!(
        session::stdin_action(&[], None, false),
        StdinAction::Nothing
    ));
    assert!(matches!(
        session::stdin_action(&[0x1b, 0x04, 0x04], None, false),
        StdinAction::Forward
    ));
    assert!(matches!(
        session::stdin_action(&[0x04], None, false),
        StdinAction::Forward
    ));
}

#[test]
fn waiting_and_draining() {
    let mut pending = true;
    assert_eq!(session::next_wait(&mut pending, true, true), Wait::ResizeNow);
    assert!(!pending);
    assert_eq!(session::next_wait(&mut pending, false, true), Wait::ReloadNotice);
    assert!(matches!(
        session::drain(Event::Resize, &mut pending),
        Drained::Stop
    ));
    assert!(pending);
    assert!(matches!(
        session::drain(Event::PtyExit(Some(2)), &mut pending),
        Drained::Exit(Some(2))
    ));
    assert!(matches!(
        session::drain(Event::Stdin(Vec::new()), &mut pending),
        Drained::Nothing
    ));
    assert!(pending);
}

#[test]
fn scrolled_lines() {
    assert_eq!(session::scroll_count(Some(24), Some(30)), 6);
    assert_eq!(session::scroll_count(Some(30), Some(24)), 0);
    assert_eq!(session::scroll_count(None, Some(24)), 24);
    assert_eq!(session::scroll_count(Some(24), None), 0);
}

#[test]
fn commands() {
    let status = |command| session::handle_command(command).status;
    let files = || vec!["a".to_string(), "b".to_string()];
    assert!(matches!(
        status(ShellCommand::ReloadReady { changed_files: files() }),
        StatusUpdate::ReloadReady(f) if f == files()
    ));
    assert!(matches!(
        status(ShellCommand::Building { changed_files: files() }),
        StatusUpdate::Building(f) if f == files()
    ));
    assert!(matches!(
        status(ShellCommand::BuildFailed { changed_files: files(), error: "e".to_string() }),
        StatusUpdate::BuildFailed(f, e) if f == files() && e == "e"
    ));
    assert!(matches!(
        status(ShellCommand::ReloadApplied),
        StatusUpdate::Reloaded
    ));
    assert!(matches!(
        status(ShellCommand::WatchedFiles { files: files() }),
        StatusUpdate::WatchedFileCount(2)
    ));
    assert!(matches!(
        status(ShellCommand::WatchingPaused { paused: true }),
        StatusUpdate::Paused(true)
    ));
    assert!(matches!(status(ShellCommand::Shutdown), StatusUpdate::Keep));
    assert!(session::handle_command(ShellCommand::Shutdown).ends);
    assert!(!session::handle_command(ShellCommand::ReloadApplied).ends);
    assert!(matches!(
        status(ShellCommand::Spawn { watch_files: files() }),
        StatusUpdate::Keep
    ));
    let effect = session::handle_command(ShellCommand::PrintWatchedFiles { files: files() });
    assert_eq!(
        effect.print.unwrap(),
        "\r\n\x1b[1mWatched files (2):\x1b[0m\r\n  a\r\n  b\r\n"
    );
}

#[test]
fn error_lines_are_those_of_str_lines() {
    for error in [
        "", "a", "a\n", "a\nb", "a\r\nb\r\n", "\n", "\n\n", "a\rb", "a\r", "a\r\r\n", "\r\n", "é\nü",
    ] {
        let mut expected = String::from("\r\n\x1b[1;31mBuild error:\x1b[0m\r\n");
        for line in error.lines() {
            expected.push_str(&format!("  {}\r\n", line));
        }
        expected.push_str("\r\n");
        assert_eq!(messages::error_text(error), expected, "{error:?}");
    }
    assert_eq!(
        messages::watched_text(&Vec::new()),
        "\r\n\x1b[1mWatched files (0):\x1b[0m\r\n"
    );
}

#[test]
fn resize_ends_the_use_of_rows_above() {
    let mut session = ShellSession::with_defaults(size(80, 24));
    let mut renderer = Renderer::new(23);
    renderer.row_offset = 4;
    renderer.scrollback_flushed = 3;
    let perf = Perf::new();
    assert!(session
        .resize(&mut renderer, &perf, &esc(false), Some((80, 24)))
        .is_none());
    assert!(session
        .resize(&mut renderer, &perf, &esc(false), None)
        .is_none());
    assert_eq!(renderer.row_offset, 4);
    let plan = session
        .resize(&mut renderer, &perf, &esc(false), Some((100, 30)))
        .unwrap();
    assert_eq!(plan.pty, size(100, 29));
    assert!(!plan.notify);
    assert!(plan.repaint);
    assert_eq!(renderer.row_offset, 0);
    assert_eq!(renderer.content_rows, 29);
    assert_eq!(renderer.scrollback_flushed, 0);
    let plan = session
        .resize(&mut renderer, &perf, &esc(true), Some((90, 30)))
        .unwrap();
    assert!(!plan.repaint);
    assert!(renderer.force_full);
}

#[test]
fn environment_values() {
    for (value, on) in [
        (None, false),
        (Some(""), false),
        (Some("0"), false),
        (Some("false"), false),
        (Some("1"), true),
        (Some("FALSE"), true),
        (Some("00"), true),
    ] {
        assert_eq!(perf::env_truthy(value), on, "{value:?}");
    }
    let mut perf = Perf::new();
    perf::init_from_env(&mut perf, Some("1"), None);
    assert!(perf::enabled(&perf));
    assert!(!perf::legacy(&perf));
    perf::init_from_env(&mut perf, None, Some("yes"));
    assert!(!perf::enabled(&perf));
    assert!(perf::legacy(&perf));
    assert!(!perf::passthrough(&perf));
}

#[test]
fn counters_count_only_when_enabled() {
    let mut perf = Perf::new();
    perf::record_batch(&mut perf, 10, 2);
    perf::record_cell_reads(&mut perf, 5);
    perf::record_row(&mut perf, true);
    perf::record_status(&mut perf, true);
    perf::record_passthrough(&mut perf);
    let writer = CountingWriter::new(0u8);
    writer.record_write(&mut perf, Some(3));
    writer.record_flush(&mut perf);
    assert_eq!(perf::snapshot(&perf).frames, 0);
    assert_eq!(perf.counters.bytes_out, 0);
    perf::set_enabled(&mut perf, true);
    perf::record_batch(&mut perf, 10, 2);
    perf::record_batch(&mut perf, 5, 1);
    perf::record_cell_reads(&mut perf, 5);
    perf::record_row(&mut perf, true);
    perf::record_row(&mut perf, false);
    perf::record_row(&mut perf, false);
    perf::record_status(&mut perf, true);
    perf::record_status(&mut perf, false);
    writer.record_write(&mut perf, Some(3));
    writer.record_write(&mut perf, None);
    writer.record_flush(&mut perf);
    let snapshot = perf::snapshot(&perf);
    assert_eq!(snapshot.frames, 2);
    assert_eq!(snapshot.cell_reads, 5);
    assert_eq!(snapshot.rows_redrawn, 1);
    assert_eq!(snapshot.rows_skipped, 2);
    assert_eq!(perf.counters.chunks, 3);
    assert_eq!(perf.counters.bytes_in, 15);
    assert_eq!(perf.counters.status_draws, 1);
    assert_eq!(perf.counters.status_skipped, 1);
    assert_eq!(perf.counters.bytes_out, 3);
    assert_eq!(perf.counters.writes, 1);
    assert_eq!(perf.counters.flushes, 1);
    perf::reset(&mut perf);
    assert_eq!(perf::snapshot(&perf), Snapshot::default());
    assert_eq!(perf.counters.bytes_out, 0);
    assert!(perf::enabled(&perf));
}

#[test]
fn counters_wrap() {
    let mut perf = Perf::new();
    perf::set_enabled(&mut perf, true);
    perf::add_scan(&mut perf, u64::MAX as u128);
    perf::add_scan(&mut perf, 3);
    assert_eq!(perf.counters.scan_ns, 2);
    perf::add_vt(&mut perf, (1u128 << 64) + 7);
    assert_eq!(perf.counters.vt_ns, 7);
    perf::add_render(&mut perf, 1);
    perf::add_status(&mut perf, 2);
    perf::add_session(&mut perf, 3);
    assert_eq!(perf.counters.render_ns, 1);
    assert_eq!(perf.counters.status_ns, 2);
    assert_eq!(perf.counters.session_ns, 3);
}

#[test]
fn time_is_not_counted_when_disabled() {
    let mut perf = Perf::new();
    perf::add_scan(&mut perf, 5);
    perf::add_vt(&mut perf, 5);
    perf::add_render(&mut perf, 5);
    perf::add_status(&mut perf, 5);
    perf::add_session(&mut perf, 5);
    assert_eq!(perf, Perf::new());
}

fn human_bytes_in_doubles(n: u64) -> String {
    let units = ["B", "KiB", "MiB", "GiB", "TiB"];
    let mut v = n as f64;
    let mut u = 0;
    while v >= 1024.0 && u < units.len() - 1 {
        v /= 1024.0;
        u += 1;
    }
    if u == 0 {
        format!("{n} B")
    } else {
        format!("{v:.1} {}", units[u])
    }
}

#[test]
fn bytes_for_people() {
    assert_eq!(report::human_bytes(0), "0 B");
    assert_eq!(report::human_bytes(1023), "1023 B");
    assert_eq!(report::human_bytes(1024), "1.0 KiB");
    assert_eq!(report::human_bytes(1280), "1.2 KiB");
    assert_eq!(report::human_bytes(1792), "1.8 KiB");
    assert_eq!(report::human_bytes((1 << 20) - 1), "1024.0 KiB");
    assert_eq!(report::human_bytes(5 << 40), "5.0 TiB");
    let mut n: u64 = 1;
    for i in 0..200_000u64 {
        n = n.wrapping_mul(6364136223846793005).wrapping_add(i);
        for shift in [0, 3, 10, 11, 20, 33, 44, 52, 60] {
            let m = n >> shift;
            if i % 50 == shift % 50 {
                assert_eq!(report::human_bytes(m), human_bytes_in_doubles(m), "{m}");
            }
        }
    }
    for m in [
        u64::MAX,
        u64::MAX - 1023,
        u64::MAX - 1024,
        1 << 53,
        (1 << 53) + 1,
        (1 << 53) + 3,
        (1 << 40) - 1,
        (1 << 30) - 1,
    ] {
        assert_eq!(report::human_bytes(m), human_bytes_in_doubles(m), "{m}");
    }
}

fn ratios() -> Ratios {
    Ratios {
        coalesce: "1.5".to_string(),
        amplification: "2.0".to_string(),
        writes_per_frame: "0.5".to_string(),
        reads_per_frame: "80".to_string(),
        skip_pct: "90".to_string(),
        scan_ms: "     1.0".to_string(),
        scan_pct: "10.0".to_string(),
        vt_ms: "     2.0".to_string(),
        vt_pct: "20.0".to_string(),
        render_ms: "     3.0".to_string(),
        render_pct: "30.0".to_string(),
        status_ms: "     4.0".to_string(),
        status_pct: "40.0".to_string(),
        session_ms: "1000".to_string(),
        throughput: "0.1".to_string(),
    }
}

#[test]
fn report_of_a_profiled_session() {
    let mut perf = Perf::new();
    assert!(report::dump(&perf, &ratios()).is_none());
    perf::set_enabled(&mut perf, true);
    assert!(report::dump(&perf, &ratios()).is_none());
    perf::record_batch(&mut perf, 2048, 2);
    perf::record_batch(&mut perf, 0, 1);
    perf::record_cell_reads(&mut perf, 160);
    perf::record_row(&mut perf, true);
    perf::record_status(&mut perf, false);
    let writer = CountingWriter::new(0u8);
    writer.record_write(&mut perf, Some(10));
    assert_eq!(
        report::dump(&perf, &ratios()).unwrap(),
        "\n\
         ┌─ devenv shell render perf ─────────────────────────────────\n\
         │ frames(batches): 2   chunks: 3   coalesce: 1.5 chunks/frame\n\
         │ bytes in:     2.0 KiB   out:       10 B   amplification: 2.0x\n\
         │ terminal writes: 1   explicit flushes: 0  (0.5 writes/frame)\n\
         │ FFI cell reads: 160   (80/frame)\n\
         │ rows redrawn: 1   skipped: 0  (90% skipped but still read)\n\
         │ status draws: 0   skipped: 1\n\
         │ ── stage time (active processing) ─────────────────────────\n\
         │   escape scan :      1.0 ms  10.0%\n\
         │   vt_write    :      2.0 ms  20.0%\n\
         │   render      :      3.0 ms  30.0%\n\
         │   status line :      4.0 ms  40.0%\n\
         │ session wall: 1000 ms   input throughput: 0.1 MiB/s\n\
         └────────────────────────────────────────────────────────────\n"
    );
}

#[test]
fn inputs_are_flakes_unless_said_otherwise() {
    let follows = vec!["nixpkgs".to_string()];
    let request = inputs::add("a", "github:a/a", &follows, false);
    assert_eq!(request.name, "a");
    assert_eq!(request.url, "github:a/a");
    assert_eq!(request.follows, follows);
    assert!(request.flake);
    assert!(!inputs::add("a", "b", &[], true).flake);
}
