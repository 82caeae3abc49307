//! The report of the profiler.

use vstd::prelude::*;

use crate::perf;
use crate::perf::{Counters, Perf};
use crate::text;

verus! {

/// `a / b` rounded to the nearest integer, to the even one of two that are
/// equally near.
pub open spec fn round_half_even(a: nat, b: nat) -> nat
    recommends
        b > 0,
{
    let q = a / b;
    let r = a % b;
    if 2 * r < b {
        q
    } else if 2 * r > b {
        q + 1
    } else {
        q + q % 2
    }
}

/// Distance of the double-precision numbers around `n`: a power of two such
/// that `n` has at most 53 bits above it.
pub open spec fn spacing(n: nat) -> nat
    decreases n,
{
    if n < 0x20_0000_0000_0000 {
        1
    } else {
        2 * spacing(n / 2)
    }
}

/// The double-precision number nearest to `n`.
pub open spec fn as_double(n: nat) -> nat {
    round_half_even(n, spacing(n)) * spacing(n)
}

/// Index of the largest unit that `n` bytes fill, among bytes and the units up
/// to the tebibyte.
pub open spec fn unit_of(n: nat) -> nat {
    if n < 0x400 {
        0
    } else if n < 0x10_0000 {
        1
    } else if n < 0x4000_0000 {
        2
    } else if n < 0x100_0000_0000 {
        3
    } else {
        4
    }
}

/// Number of bytes in a unit.
pub open spec fn unit_size(unit: nat) -> nat {
    if unit == 0 {
        1
    } else if unit == 1 {
        0x400
    } else if unit == 2 {
        0x10_0000
    } else if unit == 3 {
        0x4000_0000
    } else {
        0x100_0000_0000
    }
}

/// Name of a unit, after a space.
pub open spec fn unit_name(unit: nat) -> Seq<char> {
    if unit == 0 {
        " B"@
    } else if unit == 1 {
        " KiB"@
    } else if unit == 2 {
        " MiB"@
    } else if unit == 3 {
        " GiB"@
    } else {
        " TiB"@
    }
}

/// A number of bytes for people: exact below a kibibyte, with one decimal in
/// the largest unit that it fills otherwise. The number is taken in double
/// precision.
pub open spec fn human_bytes_seq(n: u64) -> Seq<char> {
    let m = as_double(n as nat);
    let unit = unit_of(m);
    if unit == 0 {
        text::dec(n as nat) + " B"@
    } else {
        let tenths = round_half_even(10 * m, unit_size(unit));
        text::dec(tenths / 10) + "."@ + text::dec(tenths % 10) + unit_name(unit)
    }
}

fn half_even(a: u128, b: u128) -> (q: u128)
    requires
        0 < b < 0x8000_0000_0000_0000_0000_0000_0000_0000,
        a < 0x8000_0000_0000_0000_0000_0000_0000_0000,
    ensures
        q == round_half_even(a as nat, b as nat),
        q <= a / b + 1,
{
    let q: u128 = a / b;
    let r: u128 = a % b;
    proof {
        vstd::arithmetic::div_mod::lemma_div_is_ordered_by_denominator(a as int, 1, b as int);
        vstd::arithmetic::div_mod::lemma_mod_bound(a as int, b as int);
    }
    if 2 * r < b {
        q
    } else if 2 * r > b {
        q + 1
    } else {
        q + q % 2
    }
}

fn spacing_of(n: u64) -> (s: u64)
    ensures
        s == spacing(n as nat),
        1 <= s,
        n >= 1 ==> s <= n,
    decreases n,
{
    if n < 0x20_0000_0000_0000 {
        1
    } else {
        let half: u64 = spacing_of(n / 2);
        2 * half
    }
}

/// A number of bytes for people.
pub fn human_bytes(n: u64) -> (shown: String)
    ensures
        shown@ == human_bytes_seq(n),
{
    let s: u128 = spacing_of(n) as u128;
    let q: u128 = half_even(n as u128, s);
    assert(q * s <= n + s) by (nonlinear_arith)
        requires
            q <= (n as u128) / s + 1,
            s > 0,
    {
        assert(((n as u128) / s) * s <= n as u128) by (nonlinear_arith)
            requires
                s > 0,
        ;
    }
    let m: u128 = q * s;
    let mut shown: String = String::new();
    let unit: u8 = if m < 0x400 {
        0
    } else if m < 0x10_0000 {
        1
    } else if m < 0x4000_0000 {
        2
    } else if m < 0x100_0000_0000 {
        3
    } else {
        4
    };
    if unit == 0 {
        text::push_dec(&mut shown, n);
        shown.append(" B");
    } else {
        let size: u128 = match unit {
            1 => 0x400,
            2 => 0x10_0000,
            3 => 0x4000_0000,
            _ => 0x100_0000_0000,
        };
        let tenths: u128 = half_even(10 * m, size);
        text::push_dec(&mut shown, (tenths / 10) as u64);
        shown.append(".");
        text::push_dec(&mut shown, (tenths % 10) as u64);
        match unit {
            1 => shown.append(" KiB"),
            2 => shown.append(" MiB"),
            3 => shown.append(" GiB"),
            _ => shown.append(" TiB"),
        }
    }
    assert(shown@ =~= human_bytes_seq(n));
    shown
}

/// The ratios of a report, as they are printed.
#[derive(Debug)]
pub struct Ratios {
    /// Chunks per frame, with one decimal.
    pub coalesce: String,
    /// Bytes out per byte in, with one decimal.
    pub amplification: String,
    /// With one decimal.
    pub writes_per_frame: String,
    /// Without decimals.
    pub reads_per_frame: String,
    /// Share of the rows that were skipped, without decimals.
    pub skip_pct: String,
    /// Time of the stage, with one decimal, at least eight wide.
    pub scan_ms: String,
    /// Share of the stage, with one decimal, at least four wide.
    pub scan_pct: String,
    pub vt_ms: String,
    pub vt_pct: String,
    pub render_ms: String,
    pub render_pct: String,
    pub status_ms: String,
    pub status_pct: String,
    /// Without decimals.
    pub session_ms: String,
    /// Mebibytes in per second, with one decimal.
    pub throughput: String,
}

pub open spec fn heading_line(c: Counters, r: Ratios) -> Seq<char> {
    "\n┌─ devenv shell render perf ─────────────────────────────────\n"@
}

pub open spec fn frames_line(c: Counters, r: Ratios) -> Seq<char> {
    "│ frames(batches): "@ + text::dec(c.frames as nat) + "   chunks: "@
        + text::dec(c.chunks as nat) + "   coalesce: "@ + r.coalesce@ + " chunks/frame\n"@
}

pub open spec fn bytes_line(c: Counters, r: Ratios) -> Seq<char> {
    "│ bytes in:  "@ + text::right_aligned(human_bytes_seq(c.bytes_in), 10) + "   out: "@
        + text::right_aligned(human_bytes_seq(c.bytes_out), 10) + "   amplification: "@
        + r.amplification@ + "x\n"@
}

pub open spec fn writes_line(c: Counters, r: Ratios) -> Seq<char> {
    "│ terminal writes: "@ + text::dec(c.writes as nat) + "   explicit flushes: "@
        + text::dec(c.flushes as nat) + "  ("@ + r.writes_per_frame@ + " writes/frame)\n"@
}

pub open spec fn reads_line(c: Counters, r: Ratios) -> Seq<char> {
    "│ FFI cell reads: "@ + text::dec(c.cell_reads as nat) + "   ("@ + r.reads_per_frame@
        + "/frame)\n"@
}

pub open spec fn rows_line(c: Counters, r: Ratios) -> Seq<char> {
    "│ rows redrawn: "@ + text::dec(c.rows_redrawn as nat) + "   skipped: "@
        + text::dec(c.rows_skipped as nat) + "  ("@ + r.skip_pct@ + "% skipped but still read)\n"@
}

pub open spec fn status_line(c: Counters, r: Ratios) -> Seq<char> {
    "│ status draws: "@ + text::dec(c.status_draws as nat) + "   skipped: "@
        + text::dec(c.status_skipped as nat) + "\n"@
}

pub open spec fn stages_line(c: Counters, r: Ratios) -> Seq<char> {
    "│ ── stage time (active processing) ─────────────────────────\n"@
}

pub open spec fn scan_line(c: Counters, r: Ratios) -> Seq<char> {
    "│   escape scan : "@ + r.scan_ms@ + " ms  "@ + r.scan_pct@ + "%\n"@
}

pub open spec fn vt_line(c: Counters, r: Ratios) -> Seq<char> {
    "│   vt_write    : "@ + r.vt_ms@ + " ms  "@ + r.vt_pct@ + "%\n"@
}

pub open spec fn render_line(c: Counters, r: Ratios) -> Seq<char> {
    "│   render      : "@ + r.render_ms@ + " ms  "@ + r.render_pct@ + "%\n"@
}

pub open spec fn status_time_line(c: Counters, r: Ratios) -> Seq<char> {
    "│   status line : "@ + r.status_ms@ + " ms  "@ + r.status_pct@ + "%\n"@
}

pub open spec fn session_line(c: Counters, r: Ratios) -> Seq<char> {
    "│ session wall: "@ + r.session_ms@ + " ms   input throughput: "@ + r.throughput@ + " MiB/s\n"@
}

pub open spec fn footing_line(c: Counters, r: Ratios) -> Seq<char> {
    "└────────────────────────────────────────────────────────────\n"@
}

/// The report, line by line.
pub open spec fn report_lines(c: Counters, r: Ratios) -> Seq<Seq<char>> {
    seq![
        heading_line(c, r),
        frames_line(c, r),
        bytes_line(c, r),
        writes_line(c, r),
        reads_line(c, r),
        rows_line(c, r),
        status_line(c, r),
        stages_line(c, r),
        scan_line(c, r),
        vt_line(c, r),
        render_line(c, r),
        status_time_line(c, r),
        session_line(c, r),
        footing_line(c, r),
    ]
}

/// Lines, one after the other.
pub open spec fn cat(lines: Seq<Seq<char>>) -> Seq<char>
    decreases lines.len(),
{
    if lines.len() == 0 {
        Seq::empty()
    } else {
        cat(lines.drop_last()) + lines.last()
    }
}

proof fn lemma_cat_push(lines: Seq<Seq<char>>, line: Seq<char>)
    ensures
        cat(lines.push(line)) == cat(lines) + line,
{
    assert(lines.push(line).drop_last() =~= lines);
}

fn push_heading(out: &mut String, c: &Counters, r: &Ratios)
    ensures
        final(out)@ == old(out)@ + heading_line(*c, *r),
{
    out.append("\n┌─ devenv shell render perf ─────────────────────────────────\n");
    assert(out@ =~= old(out)@ + heading_line(*c, *r));
}

fn push_frames(out: &mut String, c: &Counters, r: &Ratios)
    ensures
        final(out)@ == old(out)@ + frames_line(*c, *r),
{
    out.append("│ frames(batches): ");
    text::push_dec(out, c.frames);
    out.append("   chunks: ");
    text::push_dec(out, c.chunks);
    out.append("   coalesce: ");
    out.append(r.coalesce.as_str());
    out.append(" chunks/frame\n");
    assert(out@ =~= old(out)@ + frames_line(*c, *r));
}

fn push_bytes(out: &mut String, c: &Counters, r: &Ratios)
    ensures
        final(out)@ == old(out)@ + bytes_line(*c, *r),
{
    out.append("│ bytes in:  ");
    text::push_right_aligned(out, human_bytes(c.bytes_in).as_str(), 10);
    out.append("   out: ");
    text::push_right_aligned(out, human_bytes(c.bytes_out).as_str(), 10);
    out.append("   amplification: ");
    out.append(r.amplification.as_str());
    out.append("x\n");
    assert(out@ =~= old(out)@ + bytes_line(*c, *r));
}

fn push_writes(out: &mut String, c: &Counters, r: &Ratios)
    ensures
        final(out)@ == old(out)@ + writes_line(*c, *r),
{
    out.append("│ terminal writes: ");
    text::push_dec(out, c.writes);
    out.append("   explicit flushes: ");
    text::push_dec(out, c.flushes);
    out.append("  (");
    out.append(r.writes_per_frame.as_str());
    out.append(" writes/frame)\n");
    assert(out@ =~= old(out)@ + writes_line(*c, *r));
}

fn push_reads(out: &mut String, c: &Counters, r: &Ratios)
    ensures
        final(out)@ == old(out)@ + reads_line(*c, *r),
{
    out.append("│ FFI cell reads: ");
    text::push_dec(out, c.cell_reads);
    out.append("   (");
    out.append(r.reads_per_frame.as_str());
    out.append("/frame)\n");
    assert(out@ =~= old(out)@ + reads_line(*c, *r));
}

fn push_rows(out: &mut String, c: &Counters, r: &Ratios)
    ensures
        final(out)@ == old(out)@ + rows_line(*c, *r),
{
    out.append("│ rows redrawn: ");
    text::push_dec(out, c.rows_redrawn);
    out.append("   skipped: ");
    text::push_dec(out, c.rows_skipped);
    out.append("  (");
    out.append(r.skip_pct.as_str());
    out.append("% skipped but still read)\n");
    assert(out@ =~= old(out)@ + rows_line(*c, *r));
}

fn push_status(out: &mut String, c: &Counters, r: &Ratios)
    ensures
        final(out)@ == old(out)@ + status_line(*c, *r),
{
    out.append("│ status draws: ");
    text::push_dec(out, c.status_draws);
    out.append("   skipped: ");
    text::push_dec(out, c.status_skipped);
    out.append("\n");
    assert(out@ =~= old(out)@ + status_line(*c, *r));
}

fn push_stages(out: &mut String, c: &Counters, r: &Ratios)
    ensures
        final(out)@ == old(out)@ + stages_line(*c, *r),
{
    out.append("│ ── stage time (active processing) ─────────────────────────\n");
    assert(out@ =~= old(out)@ + stages_line(*c, *r));
}

fn push_scan(out: &mut String, c: &Counters, r: &Ratios)
    ensures
        final(out)@ == old(out)@ + scan_line(*c, *r),
{
    out.append("│   escape scan : ");
    out.append(r.scan_ms.as_str());
    out.append(" ms  ");
    out.append(r.scan_pct.as_str());
    out.append("%\n");
    assert(out@ =~= old(out)@ + scan_line(*c, *r));
}

fn push_vt(out: &mut String, c: &Counters, r: &Ratios)
    ensures
        final(out)@ == old(out)@ + vt_line(*c, *r),
{
    out.append("│   vt_write    : ");
    out.append(r.vt_ms.as_str());
    out.append(" ms  ");
    out.append(r.vt_pct.as_str());
    out.append("%\n");
    assert(out@ =~= old(out)@ + vt_line(*c, *r));
}

fn push_render(out: &mut String, c: &Counters, r: &Ratios)
    ensures
        final(out)@ == old(out)@ + render_line(*c, *r),
{
    out.append("│   render      : ");
    out.append(r.render_ms.as_str());
    out.append(" ms  ");
    out.append(r.render_pct.as_str());
    out.append("%\n");
    assert(out@ =~= old(out)@ + render_line(*c, *r));
}

fn push_status_time(out: &mut String, c: &Counters, r: &Ratios)
    ensures
        final(out)@ == old(out)@ + status_time_line(*c, *r),
{
    out.append("│   status line : ");
    out.append(r.status_ms.as_str());
    out.append(" ms  ");
    out.append(r.status_pct.as_str());
    out.append("%\n");
    assert(out@ =~= old(out)@ + status_time_line(*c, *r));
}

fn push_session(out: &mut String, c: &Counters, r: &Ratios)
    ensures
        final(out)@ == old(out)@ + session_line(*c, *r),
{
    out.append("│ session wall: ");
    out.append(r.session_ms.as_str());
    out.append(" ms   input throughput: ");
    out.append(r.throughput.as_str());
    out.append(" MiB/s\n");
    assert(out@ =~= old(out)@ + session_line(*c, *r));
}

fn push_footing(out: &mut String, c: &Counters, r: &Ratios)
    ensures
        final(out)@ == old(out)@ + footing_line(*c, *r),
{
    out.append("└────────────────────────────────────────────────────────────\n");
    assert(out@ =~= old(out)@ + footing_line(*c, *r));
}

/// The report of a profiled session. There is none if the session was not
/// profiled or processed no batch.
pub fn dump(perf: &Perf, r: &Ratios) -> (report: Option<String>)
    ensures
        report is Some <==> perf.profiling && perf.counters.frames != 0,
        report is Some ==> report->0@ == cat(report_lines(perf.counters, *r)),
{
    if !perf::enabled(perf) || perf.counters.frames == 0 {
        return None;
    }
    let c = &perf.counters;
    let mut out: String = String::new();
    let ghost mut done: Seq<Seq<char>> = Seq::empty();
    push_heading(&mut out, c, r);
    proof {
        lemma_cat_push(done, heading_line(*c, *r));
        done = done.push(heading_line(*c, *r));
    }
    push_frames(&mut out, c, r);
    proof {
        lemma_cat_push(done, frames_line(*c, *r));
        done = done.push(frames_line(*c, *r));
    }
    push_bytes(&mut out, c, r);
    proof {
        lemma_cat_push(done, bytes_line(*c, *r));
        done = done.push(bytes_line(*c, *r));
    }
    push_writes(&mut out, c, r);
    proof {
        lemma_cat_push(done, writes_line(*c, *r));
        done = done.push(writes_line(*c, *r));
    }
    push_reads(&mut out, c, r);
    proof {
        lemma_cat_push(done, reads_line(*c, *r));
        done = done.push(reads_line(*c, *r));
    }
    push_rows(&mut out, c, r);
    proof {
        lemma_cat_push(done, rows_line(*c, *r));
        done = done.push(rows_line(*c, *r));
    }
    push_status(&mut out, c, r);
    proof {
        lemma_cat_push(done, status_line(*c, *r));
        done = done.push(status_line(*c, *r));
    }
    push_stages(&mut out, c, r);
    proof {
        lemma_cat_push(done, stages_line(*c, *r));
        done = done.push(stages_line(*c, *r));
    }
    push_scan(&mut out, c, r);
    proof {
        lemma_cat_push(done, scan_line(*c, *r));
        done = done.push(scan_line(*c, *r));
    }
    push_vt(&mut out, c, r);
    proof {
        lemma_cat_push(done, vt_line(*c, *r));
        done = done.push(vt_line(*c, *r));
    }
    push_render(&mut out, c, r);
    proof {
        lemma_cat_push(done, render_line(*c, *r));
        done = done.push(render_line(*c, *r));
    }
    push_status_time(&mut out, c, r);
    proof {
        lemma_cat_push(done, status_time_line(*c, *r));
        done = done.push(status_time_line(*c, *r));
    }
    push_session(&mut out, c, r);
    proof {
        lemma_cat_push(done, session_line(*c, *r));
        done = done.push(session_line(*c, *r));
    }
    push_footing(&mut out, c, r);
    proof {
        lemma_cat_push(done, footing_line(*c, *r));
        done = done.push(footing_line(*c, *r));
    }
    assert(done =~= report_lines(*c, *r));
    Some(out)
}

} // verus!
