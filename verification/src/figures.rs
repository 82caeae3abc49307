//! What the numbers of a session mean: its counters, and its sizes as people
//! read them.

use vstd::arithmetic::power2;
use vstd::prelude::*;

use crate::cell;
use crate::event_loop::{LoopState, Purpose};
use crate::mirror;
use crate::perf;
use crate::perf::{Counters, Perf};
use crate::renderer;
use crate::renderer::{RendererState, RowFate, Screen, Scrollback};
use crate::report;
use crate::report::Ratios;
use crate::text;

verus! {

/// Distance of two numbers.
pub open spec fn distance(a: nat, b: nat) -> int {
    if a <= b {
        b - a
    } else {
        a - b
    }
}

/// A ratio is rounded to the nearest integer, and to an even one where two are
/// equally near.
pub proof fn rounding_is_to_nearest(a: nat, b: nat)
    requires
        b > 0,
    ensures
        ({
            let q = report::round_half_even(a, b);
            &&& 2 * distance(q * b, a) <= b
            &&& 2 * distance(q * b, a) == b ==> q % 2 == 0
        }),
{
    let q = a / b;
    let r = a % b;
    vstd::arithmetic::div_mod::lemma_fundamental_div_mod(a as int, b as int);
    vstd::arithmetic::div_mod::lemma_mod_bound(a as int, b as int);
    assert(a == b * q + r);
    assert((q + 1) * b == b * q + b) by (nonlinear_arith);
    assert(q * b == b * q) by (nonlinear_arith);
}

/// `1024` to the power of `k`.
pub open spec fn kibi(k: nat) -> nat
    decreases k,
{
    if k == 0 {
        1
    } else {
        1024 * kibi((k - 1) as nat)
    }
}

proof fn lemma_spacing(n: nat) -> (e: nat)
    ensures
        report::spacing(n) == power2::pow2(e),
        power2::pow2(e) >= 1,
        e == 0 <==> n < 0x20_0000_0000_0000,
        n < power2::pow2(e) * 0x20_0000_0000_0000,
        e > 0 ==> n >= power2::pow2(e) * 0x10_0000_0000_0000,
    decreases n,
{
    if n >= 0x20_0000_0000_0000 {
        let half = lemma_spacing(n / 2);
        power2::lemma_pow2_unfold(half + 1);
        if half == 0 {
            power2::lemma2_to64();
        }
        half + 1
    } else {
        power2::lemma2_to64();
        0
    }
}

/// A number is taken in double precision: exactly if it has at most 53 bits,
/// and otherwise without as many of its last bits as it has more, rounded to
/// the nearest such number, and to one whose last bit is zero where two are
/// equally near.
pub proof fn double_precision_is_nearest(n: nat) -> (parts: (nat, nat))
    ensures
        ({
            let m = report::as_double(n);
            let (q, e) = parts;
            &&& m == q * power2::pow2(e)
            &&& e == 0 <==> n < 0x20_0000_0000_0000
            &&& e == 0 ==> m == n
            &&& e > 0 ==> power2::pow2(e) * 0x10_0000_0000_0000 <= n
            &&& n < power2::pow2(e) * 0x20_0000_0000_0000
            &&& 2 * distance(m, n) <= power2::pow2(e)
            &&& e > 0 && 2 * distance(m, n) == power2::pow2(e) ==> q % 2 == 0
        }),
{
    let e = lemma_spacing(n);
    let q = report::round_half_even(n, power2::pow2(e));
    rounding_is_to_nearest(n, power2::pow2(e));
    if e == 0 {
        power2::lemma2_to64();
        assert(q * 1 == q);
        assert(distance(q, n) == 0);
    }
    (q, e)
}

/// The name of the unit that has `kibi(k)` bytes.
pub open spec fn name_of(k: nat) -> Seq<char> {
    if k == 1 {
        seq![' ', 'K', 'i', 'B']
    } else if k == 2 {
        seq![' ', 'M', 'i', 'B']
    } else if k == 3 {
        seq![' ', 'G', 'i', 'B']
    } else {
        seq![' ', 'T', 'i', 'B']
    }
}

/// A number of bytes is shown in the largest unit that it fills, of which the
/// tebibyte is the last, with one decimal that is off by no more than half of
/// its place. Less than a kibibyte is shown as it is.
pub proof fn sizes_are_near(n: u64) -> (shown: (nat, nat))
    ensures
        ({
            let m = report::as_double(n as nat);
            let (k, tenths) = shown;
            let size = kibi(k);
            &&& n < 1024 ==> report::human_bytes_seq(n) == text::dec(n as nat) + seq![' ', 'B']
            &&& n >= 1024 ==> {
                &&& 1 <= k <= 4
                &&& report::human_bytes_seq(n) == text::dec(tenths / 10) + seq!['.'] + text::dec(
                    tenths % 10,
                ) + name_of(k)
                &&& size <= m
                &&& k < 4 ==> m < kibi(k + 1)
                &&& 2 * distance(tenths * size, 10 * m) <= size
                &&& 2 * distance(tenths * size, 10 * m) == size ==> tenths % 2 == 0
            }
        }),
{
    let m = report::as_double(n as nat);
    let parts = double_precision_is_nearest(n as nat);
    let k = report::unit_of(m);
    let tenths = report::round_half_even(10 * m, report::unit_size(k));
    rounding_is_to_nearest(10 * m, report::unit_size(k));
    reveal_with_fuel(kibi, 6);
    reveal_strlit(" B");
    reveal_strlit(" KiB");
    reveal_strlit(" MiB");
    reveal_strlit(" GiB");
    reveal_strlit(" TiB");
    reveal_strlit(".");
    assert(" B"@ =~= seq![' ', 'B']);
    assert("."@ =~= seq!['.']);
    assert(k > 0 ==> report::unit_name(k) =~= name_of(k));
    assert(report::unit_size(k) == kibi(k));
    if n >= 1024 {
        assert(m >= 1024) by {
            if n < 0x20_0000_0000_0000 {
                assert(m == n);
            } else {
                let p = power2::pow2(parts.1);
                assert(2 * distance(m, n as nat) <= p);
                assert(p * 0x10_0000_0000_0000 <= n);
            }
        }
    } else {
        assert(m == n);
    }
    (k, tenths)
}

/// A text that is aligned to the right ends with it, has only spaces before it,
/// and is as wide as asked for, or as the text if that is wider.
pub proof fn alignment_adds_spaces(s: Seq<char>, width: nat)
    ensures
        ({
            let shown = text::right_aligned(s, width);
            let pad = shown.len() - s.len();
            &&& shown.len() == (if s.len() <= width {
                width
            } else {
                s.len()
            })
            &&& shown.skip(pad) == s
            &&& forall|i: int| 0 <= i < pad ==> #[trigger] shown[i] == ' '
        }),
{
    let shown = text::right_aligned(s, width);
    let pad = (if s.len() <= width {
        width - s.len()
    } else {
        0
    }) as nat;
    lemma_run(' ', pad);
    assert(shown.skip(pad as int) =~= s);
}

proof fn lemma_run(c: char, n: nat)
    ensures
        text::run(c, n).len() == n,
        forall|i: int| 0 <= i < n ==> #[trigger] text::run(c, n)[i] == c,
    decreases n,
{
}

/// Whether two sets of counters agree on all that no hook of rows, batches or
/// the status line counts.
pub open spec fn same_elsewhere(a: Counters, b: Counters) -> bool {
    &&& a.bytes_out == b.bytes_out
    &&& a.writes == b.writes
    &&& a.flushes == b.flushes
    &&& a.cell_reads == b.cell_reads
    &&& a.scan_ns == b.scan_ns
    &&& a.vt_ns == b.vt_ns
    &&& a.render_ns == b.render_ns
    &&& a.status_ns == b.status_ns
    &&& a.session_ns == b.session_ns
}

/// Whether a counter went up by `n`, in the arithmetic of its width.
pub open spec fn up(before: u64, after: u64, n: int) -> bool {
    (before + n - after) % 0x1_0000_0000_0000_0000 == 0
}

proof fn lemma_up(c: u64, n: nat)
    ensures
        up(c, perf::bumped(c, n), n as int),
{
    let w: int = 0x1_0000_0000_0000_0000;
    let x = c + n;
    vstd::arithmetic::div_mod::lemma_fundamental_div_mod(x, w);
    vstd::arithmetic::div_mod::lemma_mod_multiples_basic(x / w, w);
    assert(x - x % w == (x / w) * w) by (nonlinear_arith)
        requires
            x == w * (x / w) + x % w,
    ;
}

/// Whether row `i` of a frame is drawn: the frame looks at it, its cells are not
/// those remembered, and the terminal was not just cleared for a blank row.
pub open spec fn row_changes(r: RendererState, legacy: bool, screen: Screen, i: int) -> bool {
    &&& mirror::suspect(r, legacy, screen, i)
    &&& !(i < r.lines.len() && mirror::identifies(r.lines[i], screen.line(i)))
    &&& !(r.cleared && mirror::nothing_in(screen.line(i)))
}

/// The rows among the first `n` that change.
pub open spec fn changing_rows(r: RendererState, legacy: bool, screen: Screen, n: int) -> Set<int> {
    Set::new(|i: int| 0 <= i < n && row_changes(r, legacy, screen, i))
}

proof fn lemma_changing(r: RendererState, legacy: bool, screen: Screen, n: int)
    requires
        0 <= n,
    ensures
        changing_rows(r, legacy, screen, n).finite(),
        changing_rows(r, legacy, screen, n).len() == r.redrawn(legacy, screen, n),
    decreases n,
{
    if n > 0 {
        lemma_changing(r, legacy, screen, n - 1);
        drawn_rows_are_those_that_changed(r, legacy, screen, n - 1);
        let before = changing_rows(r, legacy, screen, n - 1);
        if row_changes(r, legacy, screen, n - 1) {
            assert(changing_rows(r, legacy, screen, n) =~= before.insert(n - 1));
        } else {
            assert(changing_rows(r, legacy, screen, n) =~= before);
        }
    } else {
        assert(changing_rows(r, legacy, screen, n) =~= Set::empty());
    }
}

/// A row of a frame is drawn exactly if the frame looks at it and its cells are
/// not those remembered, blank rows no less than others; only on a terminal that
/// was just cleared a blank row needs no drawing.
pub proof fn drawn_rows_are_those_that_changed(
    r: RendererState,
    legacy: bool,
    screen: Screen,
    i: int,
)
    requires
        0 <= i,
    ensures
        r.fate(legacy, screen, i) == RowFate::Redrawn <==> row_changes(r, legacy, screen, i),
        r.looks_at(legacy, screen, i) == mirror::suspect(r, legacy, screen, i),
{
    let cells = screen.line(i);
    let ids = cell::row_ids(cells);
    assert(mirror::nothing_in(cells) <==> cell::blank_row(cells)) by {
        if mirror::nothing_in(cells) {
            assert forall|j: int| 0 <= j < cells.len() implies (#[trigger] cells[j]).is_blank() by {}
        }
        if cell::blank_row(cells) {
            assert forall|j: int| 0 <= j < cells.len() implies (#[trigger] cells[j]).is_blank() by {}
        }
    }
    if i < r.lines.len() {
        if mirror::identifies(r.lines[i], cells) {
            assert(ids =~= r.lines[i]);
        }
        if ids == r.lines[i] {
            assert forall|j: int| 0 <= j < ids.len() implies #[trigger] ids[j] == cells[j].id by {}
        }
    }
}

/// The rows of a frame are counted as drawn as often as rows change, and the
/// others that have a place in the terminal as skipped. Nothing else is counted.
pub proof fn rows_are_counted(r: RendererState, perf: Perf, screen: Screen)
    requires
        r.row_offset <= r.content_rows,
    ensures
        ({
            let after = r.perf_after(perf, screen);
            let room = r.content_rows - r.row_offset;
            let n = if screen.rows <= room {
                screen.rows as int
            } else {
                room
            };
            let drawn = changing_rows(r, perf.legacy_render, screen, n).len();
            &&& !perf.profiling ==> after == perf
            &&& perf.profiling ==> {
                &&& up(perf.counters.rows_redrawn, after.counters.rows_redrawn, drawn as int)
                &&& up(perf.counters.rows_skipped, after.counters.rows_skipped, n - drawn)
                &&& after == (Perf {
                    counters: Counters {
                        rows_redrawn: after.counters.rows_redrawn,
                        rows_skipped: after.counters.rows_skipped,
                        ..perf.counters
                    },
                    ..perf
                })
            }
        }),
{
    let n = r.limit(screen) as int;
    lemma_changing(r, perf.legacy_render, screen, n);
    renderer::lemma_counts(r, perf.legacy_render, screen, n);
    let drawn = r.redrawn(perf.legacy_render, screen, n);
    lemma_up(perf.counters.rows_redrawn, drawn);
    lemma_up(perf.counters.rows_skipped, (n - drawn) as nat);
}

/// A batch is counted as one frame, with its chunks and bytes. If it is copied
/// through, that is counted too; if it is drawn, its rows are, each once, and so
/// is the status line where it is shown, as drawn or as skipped.
pub proof fn batches_are_counted(
    state: LoopState,
    perf: Perf,
    purpose: Purpose,
    scrollback: Scrollback,
    screen: Screen,
    drew: bool,
)
    requires
        perf.profiling,
        purpose is Batch,
    ensures
        ({
            let b = purpose->Batch_0@;
            let before = perf.counters;
            let after = state.perf_after(perf, purpose, scrollback, screen, drew).counters;
            let copied = perf.with_passthrough().with_batch(b.bytes_in, b.chunks).counters;
            let barred = state.session.config.show_status_line && (perf.legacy_render
                || !state.esc.in_alternate_screen);
            &&& up(before.frames, after.frames, 1)
            &&& up(before.chunks, after.chunks, b.chunks as int)
            &&& up(before.bytes_in, after.bytes_in, b.bytes_in as int)
            &&& after.passthrough_batches == before.passthrough_batches
            &&& up(
                before.status_draws,
                after.status_draws,
                if barred && drew {
                    1
                } else {
                    0
                },
            )
            &&& up(
                before.status_skipped,
                after.status_skipped,
                if barred && !drew {
                    1
                } else {
                    0
                },
            )
            &&& same_elsewhere(before, after)
            &&& up(before.frames, copied.frames, 1)
            &&& up(before.chunks, copied.chunks, b.chunks as int)
            &&& up(before.bytes_in, copied.bytes_in, b.bytes_in as int)
            &&& up(before.passthrough_batches, copied.passthrough_batches, 1)
            &&& copied == (Counters {
                frames: copied.frames,
                chunks: copied.chunks,
                bytes_in: copied.bytes_in,
                passthrough_batches: copied.passthrough_batches,
                ..before
            })
        }),
{
    let b = purpose->Batch_0@;
    let c = perf.counters;
    lemma_up(c.frames, 1);
    lemma_up(c.chunks, b.chunks);
    lemma_up(c.bytes_in, b.bytes_in);
    lemma_up(c.passthrough_batches, 1);
    lemma_up(c.status_draws, 1);
    lemma_up(c.status_skipped, 1);
}

/// Frames other than that of a batch are not counted as one: only their rows
/// are.
pub proof fn other_frames_count_rows_only(
    state: LoopState,
    perf: Perf,
    purpose: Purpose,
    scrollback: Scrollback,
    screen: Screen,
    drew: bool,
)
    requires
        !(purpose is Batch),
    ensures
        ({
            let before = perf.counters;
            let after = state.perf_after(perf, purpose, scrollback, screen, drew).counters;
            &&& after == (Counters {
                rows_redrawn: after.rows_redrawn,
                rows_skipped: after.rows_skipped,
                ..before
            })
            &&& purpose is Tick || purpose is Status ==> after == before
            &&& purpose is Opening && purpose->Opening_0 > 0 ==> after == before
        }),
{
}

/// A variable switches something on unless it is not set, empty, `0` or
/// `false`.
pub proof fn switches_are_on_unless_denied(value: Option<Seq<char>>)
    ensures
        perf::truthy(value) <==> (value matches Some(v) && v.len() > 0 && v != seq!['0'] && v
            != seq!['f', 'a', 'l', 's', 'e']),
{
    reveal_strlit("");
    reveal_strlit("0");
    reveal_strlit("false");
    assert("0"@ =~= seq!['0']);
    assert("false"@ =~= seq!['f', 'a', 'l', 's', 'e']);
    if value is Some && (value->0).len() == 0 {
        assert(value->0 =~= ""@);
    }
}

/// Whether a text holds a value right after a label.
pub open spec fn tells(s: Seq<char>, label: Seq<char>, value: Seq<char>) -> bool {
    exists|before: Seq<char>, after: Seq<char>| s == #[trigger] told(before, label, value, after)
}

/// A label and a value between two texts.
pub open spec fn told(
    before: Seq<char>,
    label: Seq<char>,
    value: Seq<char>,
    after: Seq<char>,
) -> Seq<char> {
    before + label + value + after
}

proof fn lemma_first(pre: Seq<char>, label: Seq<char>, value: Seq<char>)
    ensures
        tells((pre + label) + value, label, value),
{
    assert((pre + label) + value =~= told(pre, label, value, Seq::empty()));
}

proof fn lemma_last(before: Seq<char>, pre: Seq<char>, label: Seq<char>, value: Seq<char>)
    ensures
        tells(before + (pre + label) + value, label, value),
{
    assert(before + (pre + label) + value =~= told(before + pre, label, value, Seq::empty()));
}

proof fn lemma_longer(s: Seq<char>, more: Seq<char>, label: Seq<char>, value: Seq<char>)
    requires
        tells(s, label, value),
    ensures
        tells(s + more, label, value),
{
    let (before, after) = choose|before: Seq<char>, after: Seq<char>|
        s == #[trigger] told(before, label, value, after);
    assert(s + more =~= told(before, label, value, after + more));
}

/// One label and value, and the rest of the line.
proof fn lemma_one(
    pre: Seq<char>,
    label: Seq<char>,
    value: Seq<char>,
    a: Seq<char>,
    b: Seq<char>,
    c: Seq<char>,
)
    ensures
        tells((pre + label) + value + a + b + c, label, value),
        tells((pre + label) + value + a, label, value),
{
    let x = (pre + label) + value;
    lemma_first(pre, label, value);
    lemma_longer(x, a, label, value);
    lemma_longer(x + a, b, label, value);
    lemma_longer(x + a + b, c, label, value);
}

/// Two labels and values, and the rest of the line.
proof fn lemma_two(
    pre: Seq<char>,
    label: Seq<char>,
    value: Seq<char>,
    gap: Seq<char>,
    second: Seq<char>,
    other: Seq<char>,
    a: Seq<char>,
    b: Seq<char>,
    c: Seq<char>,
)
    ensures
        tells((pre + label) + value + (gap + second) + other + a + b + c, label, value),
        tells((pre + label) + value + (gap + second) + other + a + b + c, second, other),
        tells((pre + label) + value + (gap + second) + other + a, label, value),
        tells((pre + label) + value + (gap + second) + other + a, second, other),
{
    let x = (pre + label) + value;
    let y = x + (gap + second) + other;
    lemma_one(pre, label, value, gap + second, other, a);
    lemma_last(x, gap, second, other);
    lemma_longer(y, a, second, other);
    lemma_longer(y + a, b, label, value);
    lemma_longer(y + a, b, second, other);
    lemma_longer(y + a + b, c, label, value);
    lemma_longer(y + a + b, c, second, other);
}

/// Three labels and values, and the rest of the line.
proof fn lemma_three(
    pre: Seq<char>,
    label: Seq<char>,
    value: Seq<char>,
    gap: Seq<char>,
    second: Seq<char>,
    other: Seq<char>,
    third: Seq<char>,
    last: Seq<char>,
    a: Seq<char>,
)
    ensures
        ({
            let s = (pre + label) + value + (gap + second) + other + (gap + third) + last + a;
            tells(s, label, value) && tells(s, second, other) && tells(s, third, last)
        }),
{
    let x = (pre + label) + value + (gap + second) + other;
    lemma_two(pre, label, value, gap, second, other, gap + third, last, a);
    lemma_last(x, gap, third, last);
    lemma_longer(x + (gap + third) + last, a, third, last);
}

/// The report tells each counter of the work by its name, on the line that
/// belongs to it, and the sizes for people in fields of ten characters.
pub proof fn report_tells_the_counters(c: Counters, r: Ratios)
    ensures
        ({
            let l = report::report_lines(c, r);
            &&& l.len() == 14
            &&& tells(l[1], "frames(batches): "@, text::dec(c.frames as nat))
            &&& tells(l[1], "chunks: "@, text::dec(c.chunks as nat))
            &&& tells(l[1], "coalesce: "@, r.coalesce@)
            &&& tells(
                l[2],
                "bytes in:  "@,
                text::right_aligned(report::human_bytes_seq(c.bytes_in), 10),
            )
            &&& tells(
                l[2],
                "out: "@,
                text::right_aligned(report::human_bytes_seq(c.bytes_out), 10),
            )
            &&& tells(l[2], "amplification: "@, r.amplification@)
            &&& tells(l[3], "terminal writes: "@, text::dec(c.writes as nat))
            &&& tells(l[3], "explicit flushes: "@, text::dec(c.flushes as nat))
            &&& tells(l[4], "FFI cell reads: "@, text::dec(c.cell_reads as nat))
            &&& tells(l[5], "rows redrawn: "@, text::dec(c.rows_redrawn as nat))
            &&& tells(l[5], "skipped: "@, text::dec(c.rows_skipped as nat))
            &&& tells(l[6], "status draws: "@, text::dec(c.status_draws as nat))
            &&& tells(l[6], "skipped: "@, text::dec(c.status_skipped as nat))
            &&& tells(l[8], "escape scan : "@, r.scan_ms@)
            &&& tells(l[9], "vt_write    : "@, r.vt_ms@)
            &&& tells(l[10], "render      : "@, r.render_ms@)
            &&& tells(l[11], "status line : "@, r.status_ms@)
            &&& tells(l[12], "session wall: "@, r.session_ms@)
            &&& tells(l[12], "input throughput: "@, r.throughput@)
        }),
{
    let bar = seq!['│', ' '];
    let gap = seq![' ', ' ', ' '];
    let deep = bar + seq![' ', ' '];
    let none = Seq::<char>::empty();
    lemma_labels();
    lemma_three(
        bar,
        "frames(batches): "@,
        text::dec(c.frames as nat),
        gap,
        "chunks: "@,
        text::dec(c.chunks as nat),
        "coalesce: "@,
        r.coalesce@,
        " chunks/frame\n"@,
    );
    lemma_three(
        bar,
        "bytes in:  "@,
        text::right_aligned(report::human_bytes_seq(c.bytes_in), 10),
        gap,
        "out: "@,
        text::right_aligned(report::human_bytes_seq(c.bytes_out), 10),
        "amplification: "@,
        r.amplification@,
        "x\n"@,
    );
    lemma_two(
        bar,
        "terminal writes: "@,
        text::dec(c.writes as nat),
        gap,
        "explicit flushes: "@,
        text::dec(c.flushes as nat),
        "  ("@,
        r.writes_per_frame@,
        " writes/frame)\n"@,
    );
    lemma_one(
        bar,
        "FFI cell reads: "@,
        text::dec(c.cell_reads as nat),
        "   ("@,
        r.reads_per_frame@,
        "/frame)\n"@,
    );
    lemma_two(
        bar,
        "rows redrawn: "@,
        text::dec(c.rows_redrawn as nat),
        gap,
        "skipped: "@,
        text::dec(c.rows_skipped as nat),
        "  ("@,
        r.skip_pct@,
        "% skipped but still read)\n"@,
    );
    lemma_two(
        bar,
        "status draws: "@,
        text::dec(c.status_draws as nat),
        gap,
        "skipped: "@,
        text::dec(c.status_skipped as nat),
        "\n"@,
        none,
        none,
    );
    lemma_one(deep, "escape scan : "@, r.scan_ms@, " ms  "@, r.scan_pct@, "%\n"@);
    lemma_one(deep, "vt_write    : "@, r.vt_ms@, " ms  "@, r.vt_pct@, "%\n"@);
    lemma_one(deep, "render      : "@, r.render_ms@, " ms  "@, r.render_pct@, "%\n"@);
    lemma_one(deep, "status line : "@, r.status_ms@, " ms  "@, r.status_pct@, "%\n"@);
    lemma_two(
        bar,
        "session wall: "@,
        r.session_ms@,
        seq![' ', 'm', 's', ' ', ' ', ' '],
        "input throughput: "@,
        r.throughput@,
        " MiB/s\n"@,
        none,
        none,
    );
}

proof fn lemma_labels()
    ensures
        ({
            let bar = seq!['│', ' '];
            let gap = seq![' ', ' ', ' '];
            let deep = bar + seq![' ', ' '];
            &&& "│ frames(batches): "@ == bar + "frames(batches): "@
            &&& "   chunks: "@ == gap + "chunks: "@
            &&& "   coalesce: "@ == gap + "coalesce: "@
            &&& "│ bytes in:  "@ == bar + "bytes in:  "@
            &&& "   out: "@ == gap + "out: "@
            &&& "   amplification: "@ == gap + "amplification: "@
            &&& "│ terminal writes: "@ == bar + "terminal writes: "@
            &&& "   explicit flushes: "@ == gap + "explicit flushes: "@
            &&& "│ FFI cell reads: "@ == bar + "FFI cell reads: "@
            &&& "│ rows redrawn: "@ == bar + "rows redrawn: "@
            &&& "   skipped: "@ == gap + "skipped: "@
            &&& "│ status draws: "@ == bar + "status draws: "@
            &&& "│   escape scan : "@ == deep + "escape scan : "@
            &&& "│   vt_write    : "@ == deep + "vt_write    : "@
            &&& "│   render      : "@ == deep + "render      : "@
            &&& "│   status line : "@ == deep + "status line : "@
            &&& "│ session wall: "@ == bar + "session wall: "@
            &&& " ms   input throughput: "@ == seq![' ', 'm', 's', ' ', ' ', ' ']
                + "input throughput: "@
        }),
{
    reveal_strlit("│ frames(batches): ");
    reveal_strlit("frames(batches): ");
    reveal_strlit("   chunks: ");
    reveal_strlit("chunks: ");
    reveal_strlit("   coalesce: ");
    reveal_strlit("coalesce: ");
    reveal_strlit("│ bytes in:  ");
    reveal_strlit("bytes in:  ");
    reveal_strlit("   out: ");
    reveal_strlit("out: ");
    reveal_strlit("   amplification: ");
    reveal_strlit("amplification: ");
    reveal_strlit("│ terminal writes: ");
    reveal_strlit("terminal writes: ");
    reveal_strlit("   explicit flushes: ");
    reveal_strlit("explicit flushes: ");
    reveal_strlit("│ FFI cell reads: ");
    reveal_strlit("FFI cell reads: ");
    reveal_strlit("│ rows redrawn: ");
    reveal_strlit("rows redrawn: ");
    reveal_strlit("   skipped: ");
    reveal_strlit("skipped: ");
    reveal_strlit("│ status draws: ");
    reveal_strlit("status draws: ");
    reveal_strlit("│   escape scan : ");
    reveal_strlit("escape scan : ");
    reveal_strlit("│   vt_write    : ");
    reveal_strlit("vt_write    : ");
    reveal_strlit("│   render      : ");
    reveal_strlit("render      : ");
    reveal_strlit("│   status line : ");
    reveal_strlit("status line : ");
    reveal_strlit("│ session wall: ");
    reveal_strlit("session wall: ");
    reveal_strlit(" ms   input throughput: ");
    reveal_strlit("input throughput: ");
    let bar = seq!['│', ' '];
    let gap = seq![' ', ' ', ' '];
    let deep = bar + seq![' ', ' '];
    assert("│ frames(batches): "@ =~= bar + "frames(batches): "@);
    assert("   chunks: "@ =~= gap + "chunks: "@);
    assert("   coalesce: "@ =~= gap + "coalesce: "@);
    assert("│ bytes in:  "@ =~= bar + "bytes in:  "@);
    assert("   out: "@ =~= gap + "out: "@);
    assert("   amplification: "@ =~= gap + "amplification: "@);
    assert("│ terminal writes: "@ =~= bar + "terminal writes: "@);
    assert("   explicit flushes: "@ =~= gap + "explicit flushes: "@);
    assert("│ FFI cell reads: "@ =~= bar + "FFI cell reads: "@);
    assert("│ rows redrawn: "@ =~= bar + "rows redrawn: "@);
    assert("   skipped: "@ =~= gap + "skipped: "@);
    assert("│ status draws: "@ =~= bar + "status draws: "@);
    assert("│   escape scan : "@ =~= deep + "escape scan : "@);
    assert("│   vt_write    : "@ =~= deep + "vt_write    : "@);
    assert("│   render      : "@ =~= deep + "render      : "@);
    assert("│   status line : "@ =~= deep + "status line : "@);
    assert("│ session wall: "@ =~= bar + "session wall: "@);
    assert(" ms   input throughput: "@ =~= seq![' ', 'm', 's', ' ', ' ', ' ']
        + "input throughput: "@);
}

/// Counting begins at zero, whatever is counted, and goes on from where it is.
pub proof fn counting_begins_at_zero(n: nat)
    requires
        n < 0x1_0000_0000_0000_0000,
    ensures
        ({
            let c = perf::zeroed();
            &&& c.frames == 0 && c.chunks == 0 && c.bytes_in == 0 && c.bytes_out == 0
            &&& c.writes == 0 && c.flushes == 0 && c.cell_reads == 0
            &&& c.rows_redrawn == 0 && c.rows_skipped == 0
            &&& c.status_draws == 0 && c.status_skipped == 0 && c.passthrough_batches == 0
            &&& c.scan_ns == 0 && c.vt_ns == 0 && c.render_ns == 0
            &&& c.status_ns == 0 && c.session_ns == 0
            &&& perf::bumped(0, n) == n
        }),
{
}

/// Each hook counts its own thing and nothing else: cells read, time spent in a
/// stage, bytes and writes, and flushes.
pub proof fn hooks_count_their_own(perf: Perf, n: nat)
    requires
        perf.profiling,
    ensures
        ({
            let c = perf.counters;
            let reads = perf.with_cell_reads(n).counters;
            let scan = perf.with_scan(n).counters;
            let vt = perf.with_vt(n).counters;
            let render = perf.with_render(n).counters;
            let status = perf.with_status_time(n).counters;
            let session = perf.with_session(n).counters;
            let write = perf.with_write(n).counters;
            let flush = perf.with_flush().counters;
            let k = n as int;
            &&& up(c.cell_reads, reads.cell_reads, k) && reads == (Counters {
                cell_reads: reads.cell_reads,
                ..c
            })
            &&& up(c.scan_ns, scan.scan_ns, k) && scan == (Counters { scan_ns: scan.scan_ns, ..c })
            &&& up(c.vt_ns, vt.vt_ns, k) && vt == (Counters { vt_ns: vt.vt_ns, ..c })
            &&& up(c.render_ns, render.render_ns, k) && render == (Counters {
                render_ns: render.render_ns,
                ..c
            })
            &&& up(c.status_ns, status.status_ns, k) && status == (Counters {
                status_ns: status.status_ns,
                ..c
            })
            &&& up(c.session_ns, session.session_ns, k) && session == (Counters {
                session_ns: session.session_ns,
                ..c
            })
            &&& up(c.bytes_out, write.bytes_out, k) && up(c.writes, write.writes, 1) && write == (
            Counters { bytes_out: write.bytes_out, writes: write.writes, ..c })
            &&& up(c.flushes, flush.flushes, 1) && flush == (Counters {
                flushes: flush.flushes,
                ..c
            })
        }),
{
    let c = perf.counters;
    lemma_up(c.cell_reads, n);
    lemma_up(c.scan_ns, n);
    lemma_up(c.vt_ns, n);
    lemma_up(c.render_ns, n);
    lemma_up(c.status_ns, n);
    lemma_up(c.session_ns, n);
    lemma_up(c.bytes_out, n);
    lemma_up(c.writes, 1);
    lemma_up(c.flushes, 1);
}

} // verus!
