//! Render-performance counters of a shell session.
//!
//! A session that is not being profiled counts nothing: every hook checks the
//! switch first and leaves the counters alone when it is off. A session that is
//! counts the work of each stage (escape scan, emulator write, render, status
//! line) and reports it when the shell exits.

use vstd::prelude::*;

verus! {

/// Counts of a session. All of them wrap around at the width of a `u64`.
#[derive(Clone, Copy, Debug, PartialEq, Eq, Structural)]
pub struct Counters {
    /// Output batches processed.
    pub frames: u64,
    /// Raw chunks fed into the pipeline, including those coalesced into a
    /// batch.
    pub chunks: u64,
    /// Bytes that the nested program emitted.
    pub bytes_in: u64,
    /// Bytes written to the terminal.
    pub bytes_out: u64,
    /// Writes that reached the terminal.
    pub writes: u64,
    /// Explicit flushes.
    pub flushes: u64,
    /// Cells read back from the emulator.
    pub cell_reads: u64,
    /// Rows serialized to the terminal because they changed.
    pub rows_redrawn: u64,
    /// Rows that were skipped.
    pub rows_skipped: u64,
    /// Status-line draws emitted.
    pub status_draws: u64,
    /// Status-line draws skipped because nothing changed.
    pub status_skipped: u64,
    /// Batches copied through untouched.
    pub passthrough_batches: u64,
    pub scan_ns: u64,
    pub vt_ns: u64,
    pub render_ns: u64,
    pub status_ns: u64,
    /// Wall time of the session.
    pub session_ns: u64,
}

/// Switches and counters of the profiler.
#[derive(Clone, Copy, Debug, PartialEq, Eq, Structural)]
pub struct Perf {
    /// Whether the session is profiled.
    pub profiling: bool,
    /// Whether every row is read back and drawn in each frame, and the status
    /// line with it.
    pub legacy_render: bool,
    /// Whether output of a full-screen program may be copied through.
    pub passthrough_allowed: bool,
    pub counters: Counters,
}

/// The counters that describe the amount of work independent of its timing.
#[derive(Clone, Copy, Debug, PartialEq, Eq, Structural)]
pub struct Snapshot {
    pub frames: u64,
    pub cell_reads: u64,
    pub rows_redrawn: u64,
    pub rows_skipped: u64,
}

impl Default for Snapshot {
    fn default() -> (snap: Snapshot)
        ensures
            snap == (Snapshot { frames: 0, cell_reads: 0, rows_redrawn: 0, rows_skipped: 0 }),
    {
        Snapshot { frames: 0, cell_reads: 0, rows_redrawn: 0, rows_skipped: 0 }
    }
}

/// A counter after `n` more events.
pub open spec fn bumped(c: u64, n: nat) -> u64 {
    ((c as nat + n) % 0x1_0000_0000_0000_0000) as u64
}

/// All counters at zero.
pub open spec fn zeroed() -> Counters {
    Counters {
        frames: 0,
        chunks: 0,
        bytes_in: 0,
        bytes_out: 0,
        writes: 0,
        flushes: 0,
        cell_reads: 0,
        rows_redrawn: 0,
        rows_skipped: 0,
        status_draws: 0,
        status_skipped: 0,
        passthrough_batches: 0,
        scan_ns: 0,
        vt_ns: 0,
        render_ns: 0,
        status_ns: 0,
        session_ns: 0,
    }
}

impl Perf {
    /// These counters in place of the present ones if the session is profiled,
    /// the present ones otherwise.
    pub open spec fn counting(self, counters: Counters) -> Perf {
        if self.profiling {
            Perf { counters, ..self }
        } else {
            self
        }
    }

    /// After `redrawn` rows were drawn and `skipped` rows were not.
    pub open spec fn with_rows(self, redrawn: nat, skipped: nat) -> Perf {
        self.counting(
            Counters {
                rows_redrawn: bumped(self.counters.rows_redrawn, redrawn),
                rows_skipped: bumped(self.counters.rows_skipped, skipped),
                ..self.counters
            },
        )
    }

    /// After a batch of `chunks` chunks with `bytes_in` bytes in all.
    pub open spec fn with_batch(self, bytes_in: nat, chunks: nat) -> Perf {
        self.counting(
            Counters {
                frames: bumped(self.counters.frames, 1),
                chunks: bumped(self.counters.chunks, chunks),
                bytes_in: bumped(self.counters.bytes_in, bytes_in),
                ..self.counters
            },
        )
    }

    /// After a batch was copied through.
    pub open spec fn with_passthrough(self) -> Perf {
        self.counting(
            Counters {
                passthrough_batches: bumped(self.counters.passthrough_batches, 1),
                ..self.counters
            },
        )
    }

    /// After a status line was drawn, or skipped.
    pub open spec fn with_status(self, drawn: bool) -> Perf {
        self.counting(
            if drawn {
                Counters { status_draws: bumped(self.counters.status_draws, 1), ..self.counters }
            } else {
                Counters {
                    status_skipped: bumped(self.counters.status_skipped, 1),
                    ..self.counters
                }
            },
        )
    }

    /// After `n` cells were read back from the emulator.
    pub open spec fn with_cell_reads(self, n: nat) -> Perf {
        self.counting(
            Counters { cell_reads: bumped(self.counters.cell_reads, n), ..self.counters },
        )
    }

    /// After `ns` nanoseconds of scanning.
    pub open spec fn with_scan(self, ns: nat) -> Perf {
        self.counting(
            Counters { scan_ns: bumped(self.counters.scan_ns, ns), ..self.counters },
        )
    }

    /// After `ns` nanoseconds in the emulator.
    pub open spec fn with_vt(self, ns: nat) -> Perf {
        self.counting(
            Counters { vt_ns: bumped(self.counters.vt_ns, ns), ..self.counters },
        )
    }

    /// After `ns` nanoseconds of rendering.
    pub open spec fn with_render(self, ns: nat) -> Perf {
        self.counting(
            Counters { render_ns: bumped(self.counters.render_ns, ns), ..self.counters },
        )
    }

    /// After `ns` nanoseconds on the status line.
    pub open spec fn with_status_time(self, ns: nat) -> Perf {
        self.counting(
            Counters { status_ns: bumped(self.counters.status_ns, ns), ..self.counters },
        )
    }

    /// After `ns` nanoseconds of the session.
    pub open spec fn with_session(self, ns: nat) -> Perf {
        self.counting(
            Counters { session_ns: bumped(self.counters.session_ns, ns), ..self.counters },
        )
    }

    /// After a write of which `n` bytes were taken.
    pub open spec fn with_write(self, n: nat) -> Perf {
        self.counting(
            Counters {
                bytes_out: bumped(self.counters.bytes_out, n),
                writes: bumped(self.counters.writes, 1),
                ..self.counters
            },
        )
    }

    /// After a flush.
    pub open spec fn with_flush(self) -> Perf {
        self.counting(
            Counters { flushes: bumped(self.counters.flushes, 1), ..self.counters },
        )
    }

    /// Whether output of a full-screen program is copied through. Legacy
    /// rendering rules it out.
    pub open spec fn passes_through(self) -> bool {
        self.passthrough_allowed && !self.legacy_render
    }

    /// A profiler that is off, with passthrough allowed.
    pub fn new() -> (perf: Perf)
        ensures
            perf == (Perf {
                profiling: false,
                legacy_render: false,
                passthrough_allowed: true,
                counters: zeroed(),
            }),
    {
        Perf {
            profiling: false,
            legacy_render: false,
            passthrough_allowed: true,
            counters: no_counts(),
        }
    }
}

fn no_counts() -> (counters: Counters)
    ensures
        counters == zeroed(),
{
    Counters {
        frames: 0,
        chunks: 0,
        bytes_in: 0,
        bytes_out: 0,
        writes: 0,
        flushes: 0,
        cell_reads: 0,
        rows_redrawn: 0,
        rows_skipped: 0,
        status_draws: 0,
        status_skipped: 0,
        passthrough_batches: 0,
        scan_ns: 0,
        vt_ns: 0,
        render_ns: 0,
        status_ns: 0,
        session_ns: 0,
    }
}

/// Counting `m` and then `n` events is counting `m + n` of them.
pub proof fn bumps_add_up(c: u64, m: nat, n: nat)
    ensures
        bumped(bumped(c, m), n) == bumped(c, m + n),
{
    let w: int = 0x1_0000_0000_0000_0000;
    vstd::arithmetic::div_mod::lemma_add_mod_noop(c + m, n as int, w);
    vstd::arithmetic::div_mod::lemma_add_mod_noop((c + m) % w, n as int, w);
    vstd::arithmetic::div_mod::lemma_mod_twice(c + m, w);
}

/// Rows counted in two steps are counted as in one.
pub proof fn rows_add_up(perf: Perf, a: nat, b: nat, c: nat, d: nat)
    ensures
        perf.with_rows(a, b).with_rows(c, d) == perf.with_rows(a + c, b + d),
{
    bumps_add_up(perf.counters.rows_redrawn, a, c);
    bumps_add_up(perf.counters.rows_skipped, b, d);
}

/// A counter after `n` more events.
fn bump(c: u64, n: u64) -> (r: u64)
    ensures
        r == bumped(c, n as nat),
{
    c.wrapping_add(n)
}

/// A counter after a span of `ns` nanoseconds.
fn bump_ns(c: u64, ns: u128) -> (r: u64)
    ensures
        r == bumped(c, ns as nat),
{
    let low: u64 = (ns % 0x1_0000_0000_0000_0000) as u64;
    proof {
        let w: int = 0x1_0000_0000_0000_0000;
        vstd::arithmetic::div_mod::lemma_add_mod_noop(c as int, ns as int, w);
        vstd::arithmetic::div_mod::lemma_add_mod_noop(c as int, low as int, w);
        vstd::arithmetic::div_mod::lemma_mod_twice(ns as int, w);
    }
    bump(c, low)
}

/// What an environment variable that switches something on looks like.
pub open spec fn truthy(value: Option<Seq<char>>) -> bool {
    value is Some && value->0 != ""@ && value->0 != "0"@ && value->0 != "false"@
}

/// The text of an optional string.
pub open spec fn opt_view(value: Option<&str>) -> Option<Seq<char>> {
    match value {
        Some(v) => Some(v@),
        None => None,
    }
}

/// Whether the value of an environment variable, `None` if it is not set,
/// switches something on.
pub fn env_truthy(value: Option<&str>) -> (on: bool)
    ensures
        on == truthy(opt_view(value)),
{
    match value {
        Some(v) => {
            let v = v.to_owned();
            v != "".to_owned() && v != "0".to_owned() && v != "false".to_owned()
        },
        None => false,
    }
}

/// Takes over the values of the variables that switch on profiling and legacy
/// rendering.
pub fn init_from_env(perf: &mut Perf, profile: Option<&str>, legacy: Option<&str>)
    ensures
        *final(perf) == (Perf {
            profiling: truthy(opt_view(profile)),
            legacy_render: truthy(opt_view(legacy)),
            ..*old(perf)
        }),
{
    perf.profiling = env_truthy(profile);
    perf.legacy_render = env_truthy(legacy);
}

/// Switches profiling on or off.
pub fn set_enabled(perf: &mut Perf, on: bool)
    ensures
        *final(perf) == (Perf { profiling: on, ..*old(perf) }),
{
    perf.profiling = on;
}

pub fn enabled(perf: &Perf) -> (on: bool)
    ensures
        on == perf.profiling,
{
    perf.profiling
}

/// Switches legacy rendering on or off.
pub fn set_legacy(perf: &mut Perf, on: bool)
    ensures
        *final(perf) == (Perf { legacy_render: on, ..*old(perf) }),
{
    perf.legacy_render = on;
}

pub fn legacy(perf: &Perf) -> (on: bool)
    ensures
        on == perf.legacy_render,
{
    perf.legacy_render
}

/// Allows or forbids copying output of a full-screen program through.
pub fn set_passthrough(perf: &mut Perf, on: bool)
    ensures
        *final(perf) == (Perf { passthrough_allowed: on, ..*old(perf) }),
{
    perf.passthrough_allowed = on;
}

/// Whether output of a full-screen program is copied through.
pub fn passthrough(perf: &Perf) -> (on: bool)
    ensures
        on == perf.passes_through(),
{
    perf.passthrough_allowed && !perf.legacy_render
}

/// Sets all counters to zero.
pub fn reset(perf: &mut Perf)
    ensures
        *final(perf) == (Perf { counters: zeroed(), ..*old(perf) }),
{
    perf.counters = no_counts();
}

/// Reads the counters that describe the amount of work.
pub fn snapshot(perf: &Perf) -> (snap: Snapshot)
    ensures
        snap == (Snapshot {
            frames: perf.counters.frames,
            cell_reads: perf.counters.cell_reads,
            rows_redrawn: perf.counters.rows_redrawn,
            rows_skipped: perf.counters.rows_skipped,
        }),
{
    Snapshot {
        frames: perf.counters.frames,
        cell_reads: perf.counters.cell_reads,
        rows_redrawn: perf.counters.rows_redrawn,
        rows_skipped: perf.counters.rows_skipped,
    }
}

/// Counts a processed batch.
pub fn record_batch(perf: &mut Perf, bytes_in: usize, chunks: usize)
    ensures
        *final(perf) == old(perf).with_batch(bytes_in as nat, chunks as nat),
{
    if !enabled(perf) {
        return ;
    }
    perf.counters.frames = bump(perf.counters.frames, 1);
    perf.counters.chunks = bump(perf.counters.chunks, chunks as u64);
    perf.counters.bytes_in = bump(perf.counters.bytes_in, bytes_in as u64);
}

/// Counts cells read back from the emulator.
pub fn record_cell_reads(perf: &mut Perf, n: usize)
    ensures
        *final(perf) == old(perf).counting(
            Counters {
                cell_reads: bumped(old(perf).counters.cell_reads, n as nat),
                ..old(perf).counters
            },
        ),
        *final(perf) == old(perf).with_cell_reads(n as nat),
{
    if !enabled(perf) {
        return ;
    }
    perf.counters.cell_reads = bump(perf.counters.cell_reads, n as u64);
}

/// Counts a row that was drawn, or skipped.
pub fn record_row(perf: &mut Perf, redrawn: bool)
    ensures
        *final(perf) == (if redrawn {
            old(perf).with_rows(1, 0)
        } else {
            old(perf).with_rows(0, 1)
        }),
{
    if !enabled(perf) {
        return ;
    }
    if redrawn {
        perf.counters.rows_redrawn = bump(perf.counters.rows_redrawn, 1);
    } else {
        perf.counters.rows_skipped = bump(perf.counters.rows_skipped, 1);
    }
}

/// Counts a status line that was drawn, or skipped.
pub fn record_status(perf: &mut Perf, drawn: bool)
    ensures
        *final(perf) == old(perf).with_status(drawn),
{
    if !enabled(perf) {
        return ;
    }
    if drawn {
        perf.counters.status_draws = bump(perf.counters.status_draws, 1);
    } else {
        perf.counters.status_skipped = bump(perf.counters.status_skipped, 1);
    }
}

/// Counts a batch that was copied through.
pub fn record_passthrough(perf: &mut Perf)
    ensures
        *final(perf) == old(perf).with_passthrough(),
{
    if !enabled(perf) {
        return ;
    }
    perf.counters.passthrough_batches = bump(perf.counters.passthrough_batches, 1);
}

/// Adds to the time spent scanning for escape sequences, in nanoseconds.
pub fn add_scan(perf: &mut Perf, ns: u128)
    ensures
        *final(perf) == old(perf).counting(
            Counters {
                scan_ns: bumped(old(perf).counters.scan_ns, ns as nat),
                ..old(perf).counters
            },
        ),
        *final(perf) == old(perf).with_scan(ns as nat),
{
    if !enabled(perf) {
        return ;
    }
    perf.counters.scan_ns = bump_ns(perf.counters.scan_ns, ns);
}

/// Adds to the time spent in the emulator, in nanoseconds.
pub fn add_vt(perf: &mut Perf, ns: u128)
    ensures
        *final(perf) == old(perf).counting(
            Counters {
                vt_ns: bumped(old(perf).counters.vt_ns, ns as nat),
                ..old(perf).counters
            },
        ),
        *final(perf) == old(perf).with_vt(ns as nat),
{
    if !enabled(perf) {
        return ;
    }
    perf.counters.vt_ns = bump_ns(perf.counters.vt_ns, ns);
}

/// Adds to the time spent rendering, in nanoseconds.
pub fn add_render(perf: &mut Perf, ns: u128)
    ensures
        *final(perf) == old(perf).counting(
            Counters {
                render_ns: bumped(old(perf).counters.render_ns, ns as nat),
                ..old(perf).counters
            },
        ),
        *final(perf) == old(perf).with_render(ns as nat),
{
    if !enabled(perf) {
        return ;
    }
    perf.counters.render_ns = bump_ns(perf.counters.render_ns, ns);
}

/// Adds to the time spent on the status line, in nanoseconds.
pub fn add_status(perf: &mut Perf, ns: u128)
    ensures
        *final(perf) == old(perf).counting(
            Counters {
                status_ns: bumped(old(perf).counters.status_ns, ns as nat),
                ..old(perf).counters
            },
        ),
        *final(perf) == old(perf).with_status_time(ns as nat),
{
    if !enabled(perf) {
        return ;
    }
    perf.counters.status_ns = bump_ns(perf.counters.status_ns, ns);
}

/// Adds to the wall time of the session, in nanoseconds.
pub fn add_session(perf: &mut Perf, ns: u128)
    ensures
        *final(perf) == old(perf).counting(
            Counters {
                session_ns: bumped(old(perf).counters.session_ns, ns as nat),
                ..old(perf).counters
            },
        ),
        *final(perf) == old(perf).with_session(ns as nat),
{
    if !enabled(perf) {
        return ;
    }
    perf.counters.session_ns = bump_ns(perf.counters.session_ns, ns);
}

/// A writer whose writes and flushes are counted.
pub struct CountingWriter<W> {
    pub inner: W,
}

impl<W> CountingWriter<W> {
    pub fn new(inner: W) -> (writer: Self)
        ensures
            writer.inner == inner,
    {
        CountingWriter { inner }
    }

    /// Counts a write of the inner writer: `Some` with the number of bytes that
    /// it took, `None` if it failed.
    pub fn record_write(&self, perf: &mut Perf, taken: Option<usize>)
        ensures
            *final(perf) == (match taken {
                Some(n) => old(perf).counting(
                    Counters {
                        bytes_out: bumped(old(perf).counters.bytes_out, n as nat),
                        writes: bumped(old(perf).counters.writes, 1),
                        ..old(perf).counters
                    },
                ),
                None => *old(perf),
            }),
            taken matches Some(n) ==> *final(perf) == old(perf).with_write(n as nat),
    {
        if let Some(n) = taken {
            if enabled(perf) {
                perf.counters.bytes_out = bump(perf.counters.bytes_out, n as u64);
                perf.counters.writes = bump(perf.counters.writes, 1);
            }
        }
    }

    /// Counts a flush that is about to be handed to the inner writer.
    pub fn record_flush(&self, perf: &mut Perf)
        ensures
            *final(perf) == old(perf).counting(
                Counters {
                    flushes: bumped(old(perf).counters.flushes, 1),
                    ..old(perf).counters
                },
            ),
            *final(perf) == old(perf).with_flush(),
    {
        if enabled(perf) {
            perf.counters.flushes = bump(perf.counters.flushes, 1);
        }
    }
}

} // verus!
