//! Text that a session prints through the emulator.

use vstd::prelude::*;

use crate::text;

verus! {

/// Position of the first line feed of `s`, its length if there is none.
pub open spec fn line_end(s: Seq<char>) -> int
    decreases s.len(),
{
    if s.len() == 0 || s[0] == '\n' {
        0
    } else {
        1 + line_end(s.drop_first())
    }
}

/// A line without the carriage return of a carriage return and line feed.
pub open spec fn without_cr(line: Seq<char>) -> Seq<char> {
    if line.len() > 0 && line.last() == '\r' {
        line.drop_last()
    } else {
        line
    }
}

/// The lines of a text: what line feeds end, without them and the carriage
/// returns before them, and what follows the last one unless it is empty.
pub open spec fn lines(s: Seq<char>) -> Seq<Seq<char>>
    decreases s.len(),
{
    proof {
        lemma_line_end(s);
    }
    let end = line_end(s);
    if s.len() == 0 {
        Seq::empty()
    } else if end == s.len() {
        seq![s]
    } else {
        seq![without_cr(s.take(end))] + lines(s.skip(end + 1))
    }
}

/// Lines as they are printed in a list: indented, each ended by a carriage
/// return and a line feed.
pub open spec fn listing(items: Seq<Seq<char>>) -> Seq<char>
    decreases items.len(),
{
    if items.len() == 0 {
        Seq::empty()
    } else {
        "  "@ + items[0] + "\r\n"@ + listing(items.drop_first())
    }
}

/// The first line feed of a text is at its `line_end`.
pub proof fn lemma_line_end(s: Seq<char>)
    ensures
        0 <= line_end(s) <= s.len(),
        forall|i: int| 0 <= i < line_end(s) ==> s[i] != '\n',
        line_end(s) < s.len() ==> s[line_end(s)] == '\n',
    decreases s.len(),
{
    if s.len() > 0 && s[0] != '\n' {
        lemma_line_end(s.drop_first());
        assert forall|i: int| 0 <= i < line_end(s) implies s[i] != '\n' by {
            if i > 0 {
                assert(s[i] == s.drop_first()[i - 1]);
            }
        }
    }
}

/// A line without a line feed is where the text that begins with it splits.
proof fn lemma_line_end_is(line: Seq<char>, rest: Seq<char>)
    requires
        !line.contains('\n'),
        rest.len() > 0 ==> rest[0] == '\n',
    ensures
        line_end(line + rest) == line.len(),
{
    let s = line + rest;
    lemma_line_end(s);
    let end = line_end(s);
    if end < line.len() {
        assert(line[end] == '\n');
        assert(line.contains('\n'));
    } else if end > line.len() {
        assert(s[line.len() as int] == rest[0]);
    }
}

/// Heading of a build error.
pub open spec fn error_heading() -> Seq<char> {
    "\r\n\x1b[1;31mBuild error:\x1b[0m\r\n"@
}

/// A build error as it is printed.
pub open spec fn error_seq(error: Seq<char>) -> Seq<char> {
    error_heading() + listing(lines(error)) + "\r\n"@
}

/// The views of strings.
pub open spec fn views(items: Seq<String>) -> Seq<Seq<char>> {
    items.map_values(|item: String| item@)
}

/// A list of watched files as it is printed.
pub open spec fn watched_seq(files: Seq<Seq<char>>) -> Seq<char> {
    "\r\n\x1b[1mWatched files ("@ + text::dec(files.len()) + "):\x1b[0m\r\n"@ + listing(files)
}

/// Appends the first `n` of `chars`.
fn push_chars(out: &mut String, chars: &Vec<char>, n: usize)
    requires
        n <= chars@.len(),
    ensures
        final(out)@ == old(out)@ + chars@.take(n as int),
{
    let mut i: usize = 0;
    assert(out@ =~= old(out)@ + chars@.take(0));
    while i < n
        invariant
            i <= n <= chars@.len(),
            out@ == old(out)@ + chars@.take(i as int),
        decreases n - i,
    {
        out.push(chars[i]);
        i = i + 1;
        assert(out@ =~= old(out)@ + chars@.take(i as int));
    }
}

/// Appends a line of a list.
fn push_item(out: &mut String, chars: &Vec<char>, n: usize)
    requires
        n <= chars@.len(),
    ensures
        final(out)@ == old(out)@ + ("  "@ + chars@.take(n as int) + "\r\n"@),
{
    out.append("  ");
    push_chars(out, chars, n);
    out.append("\r\n");
    assert(out@ =~= old(out)@ + ("  "@ + chars@.take(n as int) + "\r\n"@));
}

/// The first line of a text, and the rest of it.
proof fn lemma_first_line(line: Seq<char>, rest: Seq<char>)
    requires
        !line.contains('\n'),
    ensures
        listing(lines(line + seq!['\n'] + rest)) == "  "@ + without_cr(line) + "\r\n"@ + listing(
            lines(rest),
        ),
        line.len() > 0 ==> listing(lines(line)) == "  "@ + line + "\r\n"@,
        line.len() == 0 ==> listing(lines(line)) == Seq::<char>::empty(),
{
    let s = line + seq!['\n'] + rest;
    lemma_line_end_is(line, seq!['\n'] + rest);
    assert(s =~= line + (seq!['\n'] + rest));
    assert(s.take(line.len() as int) =~= line);
    assert(s.skip(line.len() as int + 1) =~= rest);
    assert(lines(s) =~= seq![without_cr(line)] + lines(rest));
    assert(lines(s).drop_first() =~= lines(rest));
    lemma_line_end_is(line, Seq::empty());
    assert(line + Seq::<char>::empty() =~= line);
    if line.len() > 0 {
        assert(lines(line) =~= seq![line]);
        assert(lines(line).drop_first() =~= Seq::<Seq<char>>::empty());
        assert(listing(Seq::<Seq<char>>::empty()) =~= Seq::<char>::empty());
        assert(listing(lines(line)) =~= "  "@ + line + "\r\n"@);
    }
}

/// Appends the lines of a text as a list.
fn push_lines(out: &mut String, s: &str)
    ensures
        final(out)@ == old(out)@ + listing(lines(s@)),
{
    let ghost whole = out@ + listing(lines(s@));
    let mut line: Vec<char> = Vec::new();
    assert(line@ + s@.skip(0) =~= s@);
    for c in it: s.chars()
        invariant
            it.seq() == s@,
            !line@.contains('\n'),
            out@ + listing(lines(line@ + s@.skip(it.index()))) == whole,
    {
        let ghost rest = s@.skip(it.index() + 1);
        assert(s@.skip(it.index()) =~= seq![c] + rest);
        if c == '\n' {
            let keep: usize = if line.len() > 0 && line[line.len() - 1] == '\r' {
                line.len() - 1
            } else {
                line.len()
            };
            let ghost shown = out@;
            let ghost item = "  "@ + without_cr(line@) + "\r\n"@;
            push_item(out, &line, keep);
            proof {
                assert(line@.take(keep as int) =~= without_cr(line@));
                lemma_first_line(line@, rest);
                assert(line@ + (seq![c] + rest) =~= line@ + seq!['\n'] + rest);
                text::lemma_cat(shown, item, listing(lines(rest)));
            }
            line.clear();
            assert(line@ + rest =~= rest);
        } else {
            let ghost before = line@;
            line.push(c);
            assert(before + (seq![c] + rest) =~= line@ + rest);
            assert(!line@.contains('\n')) by {
                if line@.contains('\n') {
                    let k = choose|k: int| 0 <= k < line@.len() && line@[k] == '\n';
                    assert(before[k] == '\n');
                }
            }
        }
    }
    assert(line@ + s@.skip(s@.len() as int) =~= line@);
    proof {
        lemma_first_line(line@, Seq::empty());
    }
    if line.len() > 0 {
        let n: usize = line.len();
        push_item(out, &line, n);
        assert(line@.take(n as int) =~= line@);
    } else {
        assert(out@ + Seq::<char>::empty() =~= out@);
    }
}

/// A build error as it is printed.
pub fn error_text(error: &str) -> (printed: String)
    ensures
        printed@ == error_seq(error@),
{
    let mut printed: String = String::new();
    printed.append("\r\n\x1b[1;31mBuild error:\x1b[0m\r\n");
    assert(printed@ =~= error_heading());
    push_lines(&mut printed, error);
    printed.append("\r\n");
    printed
}

/// A list of watched files as it is printed.
pub fn watched_text(files: &Vec<String>) -> (printed: String)
    ensures
        printed@ == watched_seq(views(files@)),
{
    let mut printed: String = String::new();
    printed.append("\r\n\x1b[1mWatched files (");
    text::push_dec(&mut printed, files.len() as u64);
    printed.append("):\x1b[0m\r\n");
    let ghost heading = printed@;
    assert(heading =~= "\r\n\x1b[1mWatched files ("@ + text::dec(files@.len())
        + "):\x1b[0m\r\n"@);
    let ghost items = views(files@);
    let mut i: usize = 0;
    assert(items.skip(0) =~= items);
    while i < files.len()
        invariant
            i <= files@.len(),
            items == views(files@),
            printed@ + listing(items.skip(i as int)) == heading + listing(items),
        decreases files.len() - i,
    {
        let ghost shown = printed@;
        let ghost rest = items.skip(i + 1);
        printed.append("  ");
        printed.append(files[i].as_str());
        printed.append("\r\n");
        proof {
            assert(items.skip(i as int).drop_first() =~= rest);
            assert(printed@ =~= shown + ("  "@ + items[i as int] + "\r\n"@));
            text::lemma_cat(shown, "  "@ + items[i as int] + "\r\n"@, listing(rest));
        }
        i = i + 1;
    }
    assert(printed@ + Seq::<char>::empty() =~= printed@);
    printed
}

/// A text in which no carriage return stands before a line feed, and which ends
/// with a line feed unless it is empty: one carriage return before each line
/// feed is left out, and a line feed is added where the last line has none.
pub open spec fn plain_lines(s: Seq<char>) -> Seq<char>
    decreases s.len(),
{
    if s.len() == 0 {
        Seq::empty()
    } else if s.len() == 1 && s[0] != '\n' {
        seq![s[0], '\n']
    } else if s.len() > 1 && s[0] == '\r' && s[1] == '\n' {
        plain_lines(s.drop_first())
    } else {
        seq![s[0]] + plain_lines(s.drop_first())
    }
}

/// Lines, each ended by a line feed.
pub open spec fn ended(lines: Seq<Seq<char>>) -> Seq<char>
    decreases lines.len(),
{
    if lines.len() == 0 {
        Seq::empty()
    } else {
        lines[0] + seq!['\n'] + ended(lines.drop_first())
    }
}

proof fn lemma_plain_line(line: Seq<char>, rest: Seq<char>)
    requires
        !line.contains('\n'),
    ensures
        plain_lines(line + seq!['\n'] + rest) == without_cr(line) + seq!['\n'] + plain_lines(rest),
    decreases line.len(),
{
    let s = line + seq!['\n'] + rest;
    if line.len() == 0 {
        assert(s.drop_first() =~= rest);
        assert(s[0] == '\n');
        assert(without_cr(line) + seq!['\n'] + plain_lines(rest) =~= seq!['\n'] + plain_lines(
            rest,
        ));
    } else {
        let tail = line.drop_first();
        assert(!tail.contains('\n')) by {
            if tail.contains('\n') {
                let k = choose|k: int| 0 <= k < tail.len() && tail[k] == '\n';
                assert(line[k + 1] == '\n');
            }
        }
        assert(line[0] != '\n');
        assert(s.drop_first() =~= tail + seq!['\n'] + rest);
        lemma_plain_line(tail, rest);
        if line.len() == 1 {
            assert(tail =~= Seq::empty());
            if line[0] == '\r' {
                assert(without_cr(line) =~= without_cr(tail));
            } else {
                assert(without_cr(line) =~= line);
                assert(seq![s[0]] + (without_cr(tail) + seq!['\n'] + plain_lines(rest)) =~= line
                    + seq!['\n'] + plain_lines(rest));
            }
        } else {
            assert(s[1] == line[1]);
            assert(tail.last() == line.last());
            assert(without_cr(line) =~= seq![line[0]] + without_cr(tail));
            assert(seq![s[0]] + (without_cr(tail) + seq!['\n'] + plain_lines(rest)) =~= without_cr(
                line,
            ) + seq!['\n'] + plain_lines(rest));
        }
    }
}

proof fn lemma_plain_last(line: Seq<char>)
    requires
        !line.contains('\n'),
        line.len() > 0,
    ensures
        plain_lines(line) == line + seq!['\n'],
    decreases line.len(),
{
    assert(line[0] != '\n');
    if line.len() == 1 {
        assert(plain_lines(line) =~= line + seq!['\n']);
    } else {
        let tail = line.drop_first();
        assert(!tail.contains('\n')) by {
            if tail.contains('\n') {
                let k = choose|k: int| 0 <= k < tail.len() && tail[k] == '\n';
                assert(line[k + 1] == '\n');
            }
        }
        assert(line[1] != '\n');
        lemma_plain_last(tail);
        assert(seq![line[0]] + (tail + seq!['\n']) =~= line + seq!['\n']);
    }
}

/// Nothing of a text is lost when it is taken apart into lines, and nothing is
/// added: put together again with line feeds they are the text, but for carriage
/// returns before line feeds. No line holds a line feed.
pub proof fn lines_are_the_text(s: Seq<char>)
    ensures
        ended(lines(s)) == plain_lines(s),
        forall|i: int| 0 <= i < lines(s).len() ==> !(#[trigger] lines(s)[i]).contains('\n'),
    decreases s.len(),
{
    lemma_line_end(s);
    let end = line_end(s);
    if s.len() == 0 {
    } else {
        let line = s.take(end);
        assert(!line.contains('\n')) by {
            if line.contains('\n') {
                let k = choose|k: int| 0 <= k < line.len() && line[k] == '\n';
                assert(s[k] == '\n');
            }
        }
        if end == s.len() {
            assert(line =~= s);
            lemma_plain_last(s);
            assert(seq![s].drop_first() =~= Seq::<Seq<char>>::empty());
            assert(ended(Seq::<Seq<char>>::empty()) =~= Seq::<char>::empty());
            assert(ended(lines(s)) =~= s + seq!['\n']);
        } else {
            let rest = s.skip(end + 1);
            lines_are_the_text(rest);
            assert(s =~= line + seq!['\n'] + rest);
            lemma_plain_line(line, rest);
            let first = without_cr(line);
            assert(lines(s).drop_first() =~= lines(rest));
            assert(!first.contains('\n')) by {
                if first.contains('\n') {
                    let k = choose|k: int| 0 <= k < first.len() && first[k] == '\n';
                    assert(line[k] == '\n');
                }
            }
            assert forall|i: int| 0 <= i < lines(s).len() implies !(#[trigger] lines(
                s,
            )[i]).contains('\n') by {
                if i > 0 {
                    assert(lines(s)[i] == lines(rest)[i - 1]);
                }
            }
        }
    }
}

/// Each item of a list is printed once and in its turn, on a line of its own
/// that is indented by two spaces.
pub proof fn listing_holds_every_item(items: Seq<Seq<char>>, i: int)
    requires
        0 <= i <= items.len(),
    ensures
        items.len() == 0 ==> listing(items).len() == 0,
        listing(items) == listing(items.take(i)) + listing(items.skip(i)),
        i < items.len() ==> listing(items.skip(i)) == seq![' ', ' '] + items[i] + seq!['\r', '\n']
            + listing(items.skip(i + 1)),
    decreases items.len(),
{
    reveal_strlit("  ");
    reveal_strlit("\r\n");
    assert("  "@ =~= seq![' ', ' ']);
    assert("\r\n"@ =~= seq!['\r', '\n']);
    if i < items.len() {
        assert(items.skip(i).drop_first() =~= items.skip(i + 1));
    }
    if i == 0 {
        assert(items.take(0) =~= Seq::empty());
        assert(items.skip(0) =~= items);
        assert(listing(items.take(0)) + listing(items) =~= listing(items));
    } else {
        listing_holds_every_item(items.drop_first(), i - 1);
        assert(items.take(i).drop_first() =~= items.drop_first().take(i - 1));
        assert(items.drop_first().skip(i - 1) =~= items.skip(i));
        assert(items.take(i)[0] == items[0]);
        let first = "  "@ + items[0] + "\r\n"@;
        text::lemma_cat(first, listing(items.take(i).drop_first()), listing(items.skip(i)));
    }
}

/// A build error is printed between empty lines, below a heading in bold red,
/// and a list of files below one in bold that says how many there are.
pub proof fn headings_are_printed(error: Seq<char>, files: Seq<Seq<char>>)
    ensures
        ({
            let red = seq!['\x1b', '[', '1', ';', '3', '1', 'm'];
            let bold = seq!['\x1b', '[', '1', 'm'];
            let plain = seq!['\x1b', '[', '0', 'm'];
            let feed = seq!['\r', '\n'];
            &&& error_seq(error) == feed + red + seq![
                'B', 'u', 'i', 'l', 'd', ' ', 'e', 'r', 'r', 'o', 'r', ':',
            ] + plain + feed + listing(lines(error)) + feed
            &&& watched_seq(files) == feed + bold + seq![
                'W', 'a', 't', 'c', 'h', 'e', 'd', ' ', 'f', 'i', 'l', 'e', 's', ' ', '(',
            ] + text::dec(files.len()) + seq![')', ':'] + plain + feed + listing(files)
        }),
{
    reveal_strlit("\r\n\x1b[1;31mBuild error:\x1b[0m\r\n");
    reveal_strlit("\r\n");
    reveal_strlit("\r\n\x1b[1mWatched files (");
    reveal_strlit("):\x1b[0m\r\n");
    let red = seq!['\x1b', '[', '1', ';', '3', '1', 'm'];
    let bold = seq!['\x1b', '[', '1', 'm'];
    let plain = seq!['\x1b', '[', '0', 'm'];
    let feed = seq!['\r', '\n'];
    assert("\r\n"@ =~= feed);
    assert(error_heading() =~= feed + red + seq![
        'B', 'u', 'i', 'l', 'd', ' ', 'e', 'r', 'r', 'o', 'r', ':',
    ] + plain + feed);
    assert("\r\n\x1b[1mWatched files ("@ =~= feed + bold + seq![
        'W', 'a', 't', 'c', 'h', 'e', 'd', ' ', 'f', 'i', 'l', 'e', 's', ' ', '(',
    ]);
    assert("):\x1b[0m\r\n"@ =~= seq![')', ':'] + plain + feed);
    let head = "\r\n\x1b[1mWatched files ("@ + text::dec(files.len());
    assert(head + "):\x1b[0m\r\n"@ =~= head + seq![')', ':'] + plain + feed);
}

} // verus!
