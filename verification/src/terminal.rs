//! A terminal, as far as the library writes to one: what it shows after a text.
//! It is what the laws on drawing speak of.

use vstd::prelude::*;

verus! {

/// A color.
pub enum Ink {
    /// The terminal's own.
    Normal,
    /// One of the palette.
    Indexed(nat),
    /// Red, green and blue.
    Direct(nat, nat, nat),
}

/// Colors and attributes in which characters are written.
pub struct Pen {
    pub fg: Ink,
    pub bg: Ink,
    pub bold: bool,
    pub faint: bool,
    pub italic: bool,
    /// Zero for none, then single, double, curly, dotted and dashed.
    pub underline: nat,
    pub blink: bool,
    pub inverse: bool,
    pub strikethrough: bool,
}

/// A character on the screen.
pub struct Glyph {
    /// Its code point.
    pub code: int,
    pub pen: Pen,
}

/// A parameter of a control sequence, with what follows its colon.
pub struct Param {
    pub value: nat,
    pub sub: Option<nat>,
}

/// How far a control sequence has been read.
#[verifier::ext_equal]
pub enum Reading {
    /// There is none.
    Text,
    /// The escape character.
    Escape,
    /// A sequence that takes parameters: those read, and the one being read.
    Csi { private: bool, done: Seq<Param>, last: Param },
}

/// A terminal. Its lines hold what was written into them since they were last
/// blank.
#[verifier::ext_equal]
pub struct Terminal {
    pub cols: int,
    pub lines: Seq<Seq<Glyph>>,
    /// The scrollback, oldest line first.
    pub above: Seq<Seq<Glyph>>,
    pub row: int,
    pub col: int,
    pub saved: (int, int),
    pub visible: bool,
    pub pen: Pen,
    /// First row that scrolls.
    pub top: int,
    /// First row after it that does not.
    pub bottom: int,
    /// Whether rows are counted from the first one that scrolls.
    pub origin: bool,
    /// Whether what is written is held back until the frame is complete.
    pub held: bool,
    pub reading: Reading,
}

impl Pen {
    /// The pen of plain text.
    pub open spec fn plain() -> Pen {
        Pen {
            fg: Ink::Normal,
            bg: Ink::Normal,
            bold: false,
            faint: false,
            italic: false,
            underline: 0,
            blink: false,
            inverse: false,
            strikethrough: false,
        }
    }
}

/// What the next parameter of a color is.
pub enum Expect {
    /// A new attribute.
    Attribute,
    /// The kind of the color, of the foreground or not.
    Kind(bool),
    /// An index.
    Index(bool),
    /// Red, green, blue.
    Red(bool),
    Green(bool, nat),
    Blue(bool, nat, nat),
}

pub open spec fn with_ink(pen: Pen, fg: bool, ink: Ink) -> Pen {
    if fg {
        Pen { fg: ink, ..pen }
    } else {
        Pen { bg: ink, ..pen }
    }
}

/// One parameter of a sequence that selects colors and attributes (SGR).
pub open spec fn attribute(pen: Pen, p: Param) -> (Pen, Expect) {
    let n = p.value;
    if n == 0 {
        (Pen::plain(), Expect::Attribute)
    } else if n == 1 {
        (Pen { bold: true, ..pen }, Expect::Attribute)
    } else if n == 2 {
        (Pen { faint: true, ..pen }, Expect::Attribute)
    } else if n == 3 {
        (Pen { italic: true, ..pen }, Expect::Attribute)
    } else if n == 4 {
        (
            Pen {
                underline: match p.sub {
                    Some(kind) => kind,
                    None => 1,
                },
                ..pen
            },
            Expect::Attribute,
        )
    } else if n == 5 {
        (Pen { blink: true, ..pen }, Expect::Attribute)
    } else if n == 7 {
        (Pen { inverse: true, ..pen }, Expect::Attribute)
    } else if n == 9 {
        (Pen { strikethrough: true, ..pen }, Expect::Attribute)
    } else if 30 <= n <= 37 {
        (Pen { fg: Ink::Indexed((n - 30) as nat), ..pen }, Expect::Attribute)
    } else if 40 <= n <= 47 {
        (Pen { bg: Ink::Indexed((n - 40) as nat), ..pen }, Expect::Attribute)
    } else if 90 <= n <= 97 {
        (Pen { fg: Ink::Indexed((n - 82) as nat), ..pen }, Expect::Attribute)
    } else if 100 <= n <= 107 {
        (Pen { bg: Ink::Indexed((n - 92) as nat), ..pen }, Expect::Attribute)
    } else if n == 38 {
        (pen, Expect::Kind(true))
    } else if n == 48 {
        (pen, Expect::Kind(false))
    } else {
        (pen, Expect::Attribute)
    }
}

/// One more parameter.
pub open spec fn select(state: (Pen, Expect), p: Param) -> (Pen, Expect) {
    let pen = state.0;
    match state.1 {
        Expect::Attribute => attribute(pen, p),
        Expect::Kind(fg) => if p.value == 5 {
            (pen, Expect::Index(fg))
        } else if p.value == 2 {
            (pen, Expect::Red(fg))
        } else {
            (pen, Expect::Attribute)
        },
        Expect::Index(fg) => (with_ink(pen, fg, Ink::Indexed(p.value)), Expect::Attribute),
        Expect::Red(fg) => (pen, Expect::Green(fg, p.value)),
        Expect::Green(fg, r) => (pen, Expect::Blue(fg, r, p.value)),
        Expect::Blue(fg, r, g) => (
            with_ink(pen, fg, Ink::Direct(r, g, p.value)),
            Expect::Attribute,
        ),
    }
}

/// The pen after some parameters.
pub open spec fn selected(pen: Pen, params: Seq<Param>) -> (Pen, Expect)
    decreases params.len(),
{
    if params.len() == 0 {
        (pen, Expect::Attribute)
    } else {
        select(selected(pen, params.drop_last()), params.last())
    }
}

/// A line with a glyph written at a column.
pub open spec fn put(line: Seq<Glyph>, col: int, glyph: Glyph) -> Seq<Glyph> {
    if col < line.len() {
        line.update(col, glyph)
    } else {
        (line + Seq::new(
            (col - line.len()) as nat,
            |i: int| Glyph { code: ' ' as int, pen: Pen::plain() },
        )).push(glyph)
    }
}

impl Terminal {
    /// Rows `top` to `bottom` one up: the first of them is lost, to the
    /// scrollback if it is the first of the terminal.
    pub open spec fn scrolled(self) -> Terminal {
        Terminal {
            above: if self.top == 0 {
                self.above.push(self.lines[0])
            } else {
                self.above
            },
            lines: Seq::new(
                self.lines.len(),
                |i: int|
                    if self.top <= i < self.bottom - 1 {
                        self.lines[i + 1]
                    } else if i == self.bottom - 1 {
                        Seq::empty()
                    } else {
                        self.lines[i]
                    },
            ),
            ..self
        }
    }

    /// One row down, or one line scrolled.
    pub open spec fn line_feed(self) -> Terminal {
        if self.row + 1 == self.bottom {
            self.scrolled()
        } else {
            Terminal { row: self.row + 1, ..self }
        }
    }

    /// A character written, in the next row if this one is full.
    pub open spec fn print(self, c: char) -> Terminal {
        let t = if self.col >= self.cols {
            Terminal { col: 0, ..self.line_feed() }
        } else {
            self
        };
        Terminal {
            lines: t.lines.update(
                t.row,
                put(t.lines[t.row], t.col, Glyph { code: c as int, pen: t.pen }),
            ),
            col: t.col + 1,
            ..t
        }
    }

    /// A control sequence, complete.
    pub open spec fn act(self, private: bool, params: Seq<Param>, last: char) -> Terminal {
        let n = params[0].value;
        if last == 'H' && !private && params.len() == 2 {
            Terminal { row: n - 1, col: params[1].value - 1, ..self }
        } else if last == 'J' && !private && n == 2 {
            Terminal { lines: Seq::new(self.lines.len(), |i: int| Seq::empty()), ..self }
        } else if last == 'J' && !private && n == 3 {
            Terminal { above: Seq::empty(), ..self }
        } else if last == 'K' && !private && n == 2 {
            Terminal { lines: self.lines.update(self.row, Seq::empty()), ..self }
        } else if last == 'm' && !private {
            Terminal { pen: selected(self.pen, params).0, ..self }
        } else if last == 'r' && !private {
            Terminal {
                top: if params.len() == 2 {
                    n - 1
                } else {
                    0
                },
                bottom: if params.len() == 2 {
                    params[1].value as int
                } else {
                    self.lines.len() as int
                },
                row: 0,
                col: 0,
                ..self
            }
        } else if (last == 'h' || last == 'l') && private && n == 25 {
            Terminal { visible: last == 'h', ..self }
        } else if (last == 'h' || last == 'l') && private && n == 6 {
            Terminal { origin: last == 'h', ..self }
        } else if (last == 'h' || last == 'l') && private && n == 2026 {
            Terminal { held: last == 'h', ..self }
        } else {
            self
        }
    }

    /// One more character.
    pub open spec fn step(self, c: char) -> Terminal {
        match self.reading {
            Reading::Text => if c == '\x1b' {
                Terminal { reading: Reading::Escape, ..self }
            } else if c == '\n' {
                self.line_feed()
            } else {
                self.print(c)
            },
            Reading::Escape => if c == '[' {
                Terminal {
                    reading: Reading::Csi {
                        private: false,
                        done: Seq::empty(),
                        last: Param { value: 0, sub: None },
                    },
                    ..self
                }
            } else if c == '7' {
                Terminal { saved: (self.row, self.col), reading: Reading::Text, ..self }
            } else if c == '8' {
                Terminal {
                    row: self.saved.0,
                    col: self.saved.1,
                    reading: Reading::Text,
                    ..self
                }
            } else {
                Terminal { reading: Reading::Text, ..self }
            },
            Reading::Csi { private, done, last } => if '0' <= c <= '9' {
                let d = (c as int - '0' as int) as nat;
                let more = match last.sub {
                    Some(n) => Param { sub: Some(n * 10 + d), ..last },
                    None => Param { value: last.value * 10 + d, ..last },
                };
                Terminal { reading: Reading::Csi { private, done, last: more }, ..self }
            } else if c == ';' {
                Terminal {
                    reading: Reading::Csi {
                        private,
                        done: done.push(last),
                        last: Param { value: 0, sub: None },
                    },
                    ..self
                }
            } else if c == ':' {
                let more = Param { sub: Some(0), ..last };
                Terminal { reading: Reading::Csi { private, done, last: more }, ..self }
            } else if c == '?' {
                Terminal { reading: Reading::Csi { private: true, done, last }, ..self }
            } else {
                (Terminal { reading: Reading::Text, ..self }).act(private, done.push(last), c)
            },
        }
    }

    /// After the first `n` characters of a text.
    pub open spec fn after_chars(self, s: Seq<char>, n: int) -> Terminal
        decreases n,
    {
        if n <= 0 {
            self
        } else {
            self.after_chars(s, n - 1).step(s[n - 1])
        }
    }

    /// After a text.
    #[verifier::opaque]
    pub open spec fn after(self, s: Seq<char>) -> Terminal {
        self.after_chars(s, s.len() as int)
    }
}

proof fn lemma_after_prefix(t: Terminal, a: Seq<char>, b: Seq<char>, n: int)
    requires
        0 <= n <= a.len(),
    ensures
        t.after_chars(a + b, n) == t.after_chars(a, n),
    decreases n,
{
    if n > 0 {
        lemma_after_prefix(t, a, b, n - 1);
    }
}

proof fn lemma_after_suffix(t: Terminal, a: Seq<char>, b: Seq<char>, n: int)
    requires
        0 <= n <= b.len(),
    ensures
        t.after_chars(a + b, a.len() + n) == t.after(a).after_chars(b, n),
    decreases n,
{
    reveal(Terminal::after);
    if n > 0 {
        lemma_after_suffix(t, a, b, n - 1);
        assert((a + b)[a.len() + n - 1] == b[n - 1]);
    } else {
        lemma_after_prefix(t, a, b, a.len() as int);
    }
}

/// Two texts are one.
pub proof fn lemma_after_cat(t: Terminal, a: Seq<char>, b: Seq<char>)
    ensures
        t.after(a + b) == t.after(a).after(b),
{
    reveal(Terminal::after);
    lemma_after_suffix(t, a, b, b.len() as int);
}

} // verus!
