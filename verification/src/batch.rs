//! A batch of output of the nested program: its chunks, and whether they are
//! copied through or drawn.

use vstd::prelude::*;

use crate::perf;
use crate::perf::Perf;
use crate::session::EscapeState;
use crate::text;

verus! {

/// A batch under collection.
#[derive(Debug)]
pub struct Batch {
    /// Whether the alternate screen was active when the batch began.
    pub was_in_alt: bool,
    /// Whether the batch is held back to be copied through.
    pub passthrough: bool,
    /// Number of bytes in it.
    pub bytes_in: usize,
    /// Number of chunks in it.
    pub chunks: usize,
    /// Number of lines that scrolled off the screen with it.
    pub total_scroll: usize,
    /// Escape sequences owed to the terminal if the batch is not copied
    /// through after all.
    pub forwarded: Vec<u8>,
    /// The chunks that are held back.
    pub raw: Vec<Vec<u8>>,
}

/// What becomes of a batch when it is complete.
#[derive(Debug)]
pub enum Settled {
    /// It was copied through. There is nothing to draw.
    Copied,
    /// The alternate screen was left: these chunks are to be fed to the
    /// emulator, then its screen is drawn.
    Fold(Vec<Vec<u8>>),
    /// The emulator's screen is drawn.
    Draw,
}

/// What becomes of a batch in which the shell exited.
#[derive(Debug)]
pub enum ExitPlan {
    /// The terminal is restored. What was held back is dropped.
    Restore,
    /// These chunks are to be fed to the emulator, the terminal is restored,
    /// and the emulator's screen is drawn a last time.
    Draw(Vec<Vec<u8>>),
}

/// State of a batch.
#[verifier::ext_equal]
pub struct BatchState {
    pub was_in_alt: bool,
    pub passthrough: bool,
    pub bytes_in: nat,
    pub chunks: nat,
    pub scroll: nat,
    pub forwarded: Seq<u8>,
    pub raw: Seq<Seq<u8>>,
}

/// The contents of chunks.
pub open spec fn contents(chunks: Seq<Vec<u8>>) -> Seq<Seq<u8>> {
    chunks.map_values(|chunk: Vec<u8>| chunk@)
}

/// Chunks, one after the other.
pub open spec fn joined(chunks: Seq<Seq<u8>>) -> Seq<u8>
    decreases chunks.len(),
{
    if chunks.len() == 0 {
        Seq::empty()
    } else {
        joined(chunks.drop_last()) + chunks.last()
    }
}

impl View for Batch {
    type V = BatchState;

    open spec fn view(&self) -> BatchState {
        BatchState {
            was_in_alt: self.was_in_alt,
            passthrough: self.passthrough,
            bytes_in: self.bytes_in as nat,
            chunks: self.chunks as nat,
            scroll: self.total_scroll as nat,
            forwarded: self.forwarded@,
            raw: contents(self.raw@),
        }
    }
}

impl BatchState {
    /// A batch is copied through only if it began on the alternate screen, and
    /// nothing is held back otherwise. What is held back is all of it.
    pub open spec fn wf(self) -> bool {
        &&& self.passthrough ==> self.was_in_alt && self.raw.len() == self.chunks && joined(
            self.raw,
        ).len() == self.bytes_in
        &&& !self.passthrough ==> self.raw.len() == 0 && self.forwarded.len() == 0
    }

    /// An empty batch.
    pub open spec fn begun(perf: Perf, esc: EscapeState) -> BatchState {
        BatchState {
            was_in_alt: esc.in_alternate_screen,
            passthrough: esc.in_alternate_screen && perf.passes_through(),
            bytes_in: 0,
            chunks: 0,
            scroll: 0,
            forwarded: Seq::empty(),
            raw: Seq::empty(),
        }
    }

    /// One more chunk, for which the scanner forwards some sequences.
    pub open spec fn with_chunk(self, data: Seq<u8>, forwarded: Seq<u8>) -> BatchState {
        if self.passthrough {
            BatchState {
                bytes_in: self.bytes_in + data.len(),
                chunks: self.chunks + 1,
                forwarded: self.forwarded + forwarded,
                raw: self.raw.push(data),
                ..self
            }
        } else {
            BatchState {
                bytes_in: self.bytes_in + data.len(),
                chunks: self.chunks + 1,
                ..self
            }
        }
    }

    /// Whether the complete batch is copied through: it began on the alternate
    /// screen and ends there.
    pub open spec fn copied(self, esc: EscapeState) -> bool {
        self.passthrough && esc.in_alternate_screen
    }

    /// Whether the batch entered or left the alternate screen.
    pub open spec fn switched(self, esc: EscapeState) -> bool {
        self.was_in_alt != esc.in_alternate_screen
    }
}

proof fn lemma_joined_push(chunks: Seq<Seq<u8>>, chunk: Seq<u8>)
    ensures
        joined(chunks.push(chunk)) == joined(chunks) + chunk,
{
    assert(chunks.push(chunk).drop_last() =~= chunks);
}

impl Batch {
    /// A new batch. It is held back if the alternate screen is active and
    /// output may be copied through.
    pub fn begin(perf: &Perf, esc: &EscapeState) -> (batch: Batch)
        ensures
            batch@ == BatchState::begun(*perf, *esc),
            batch@.wf(),
    {
        let was_in_alt = esc.in_alternate_screen;
        let batch = Batch {
            was_in_alt,
            passthrough: was_in_alt && perf::passthrough(perf),
            bytes_in: 0,
            chunks: 0,
            total_scroll: 0,
            forwarded: Vec::new(),
            raw: Vec::new(),
        };
        assert(batch@.raw =~= Seq::empty());
        batch
    }

    /// Adds a chunk. What the scanner forwards goes to the terminal, or is
    /// held back with the chunk. Returns the chunk if it is to be fed to the
    /// emulator.
    pub fn add_chunk(&mut self, out: &mut Vec<u8>, data: Vec<u8>, forwarded: &[u8]) -> (feed: Option<
        Vec<u8>,
    >)
        requires
            old(self)@.wf(),
            old(self).bytes_in + data@.len() <= usize::MAX,
            old(self).chunks < usize::MAX,
        ensures
            final(self)@ == old(self)@.with_chunk(data@, forwarded@),
            final(self)@.wf(),
            feed == (if old(self).passthrough {
                None
            } else {
                Some(data)
            }),
            final(out)@ == (if old(self).passthrough {
                old(out)@
            } else {
                old(out)@ + forwarded@
            }),
    {
        self.bytes_in = self.bytes_in + data.len();
        self.chunks = self.chunks + 1;
        if self.passthrough {
            text::append_bytes(&mut self.forwarded, forwarded);
            let ghost before = contents(self.raw@);
            let ghost chunk = data@;
            self.raw.push(data);
            proof {
                assert(contents(self.raw@) =~= before.push(chunk));
                lemma_joined_push(before, chunk);
            }
            None
        } else {
            text::append_bytes(out, forwarded);
            Some(data)
        }
    }

    /// Adds lines that a chunk scrolled off the screen.
    pub fn add_scroll(&mut self, lines: usize)
        requires
            old(self).total_scroll + lines <= usize::MAX,
        ensures
            final(self)@ == (BatchState { scroll: old(self)@.scroll + lines as nat, ..old(self)@ }),
    {
        self.total_scroll = self.total_scroll + lines;
    }

    /// Adds lines that a command scrolled off the screen. They do not count
    /// while the batch is held back: the emulator is not drawn then.
    pub fn add_command_scroll(&mut self, lines: usize)
        requires
            !old(self).passthrough ==> old(self).total_scroll + lines <= usize::MAX,
        ensures
            final(self)@ == (BatchState {
                scroll: if old(self).passthrough {
                    old(self)@.scroll
                } else {
                    old(self)@.scroll + lines as nat
                },
                ..old(self)@
            }),
    {
        if !self.passthrough {
            self.total_scroll = self.total_scroll + lines;
        }
    }

    /// Takes out what is held back.
    fn take_raw(&mut self) -> (raw: Vec<Vec<u8>>)
        ensures
            contents(raw@) == old(self)@.raw,
            final(self)@ == (BatchState { raw: Seq::empty(), ..old(self)@ }),
    {
        let mut raw: Vec<Vec<u8>> = Vec::new();
        std::mem::swap(&mut raw, &mut self.raw);
        assert(contents(self.raw@) =~= Seq::empty());
        raw
    }

    /// Settles a complete batch. A batch that stayed on the alternate screen is
    /// copied to the terminal byte for byte and counted; for one that left it,
    /// the sequences held back are forwarded.
    pub fn settle(&mut self, out: &mut Vec<u8>, perf: &mut Perf, esc: &EscapeState) -> (settled:
        Settled)
        ensures
            old(self)@.copied(*esc) ==> {
                &&& settled is Copied
                &&& final(out)@ == old(out)@ + joined(old(self)@.raw)
                &&& *final(perf) == old(perf).with_passthrough().with_batch(
                    old(self)@.bytes_in,
                    old(self)@.chunks,
                )
                &&& final(self)@ == old(self)@
            },
            old(self).passthrough && !esc.in_alternate_screen ==> {
                &&& settled is Fold
                &&& contents(settled->Fold_0@) == old(self)@.raw
                &&& final(out)@ == old(out)@ + old(self)@.forwarded
                &&& *final(perf) == *old(perf)
                &&& final(self)@ == (BatchState { raw: Seq::empty(), ..old(self)@ })
            },
            !old(self).passthrough ==> {
                &&& settled is Draw
                &&& final(out)@ == old(out)@
                &&& *final(perf) == *old(perf)
                &&& final(self)@ == old(self)@
            },
    {
        if !self.passthrough {
            return Settled::Draw;
        }
        if esc.in_alternate_screen {
            let mut i: usize = 0;
            assert(contents(self.raw@).take(0) =~= Seq::empty());
            assert(out@ =~= old(out)@ + joined(contents(self.raw@).take(0)));
            while i < self.raw.len()
                invariant
                    i <= self.raw@.len(),
                    *self == *old(self),
                    out@ == old(out)@ + joined(contents(self.raw@).take(i as int)),
                decreases self.raw.len() - i,
            {
                let ghost shown = contents(self.raw@).take(i as int);
                text::append_bytes(out, self.raw[i].as_slice());
                proof {
                    lemma_joined_push(shown, self.raw@[i as int]@);
                    assert(contents(self.raw@).take(i + 1) =~= shown.push(self.raw@[i as int]@));
                    text::lemma_cat(old(out)@, joined(shown), self.raw@[i as int]@);
                }
                i = i + 1;
            }
            assert(contents(self.raw@).take(i as int) =~= contents(self.raw@));
            perf::record_passthrough(perf);
            perf::record_batch(perf, self.bytes_in, self.chunks);
            return Settled::Copied;
        }
        text::append_bytes(out, self.forwarded.as_slice());
        Settled::Fold(self.take_raw())
    }

    /// Settles a batch in which the shell exited. On the alternate screen the
    /// emulator is stale, so nothing is drawn.
    pub fn settle_exit(&mut self, out: &mut Vec<u8>, esc: &EscapeState) -> (plan: ExitPlan)
        requires
            old(self)@.wf(),
        ensures
            old(self)@.copied(*esc) ==> {
                &&& plan is Restore
                &&& final(out)@ == old(out)@
                &&& final(self)@ == old(self)@
            },
            !old(self)@.copied(*esc) ==> {
                &&& plan is Draw
                &&& contents(plan->Draw_0@) == old(self)@.raw
                &&& final(out)@ == old(out)@ + old(self)@.forwarded
                &&& final(self)@ == (BatchState { raw: Seq::empty(), ..old(self)@ })
            },
    {
        if self.passthrough && esc.in_alternate_screen {
            return ExitPlan::Restore;
        }
        text::append_bytes(out, self.forwarded.as_slice());
        ExitPlan::Draw(self.take_raw())
    }
}

} // verus!
