//! Incremental line assembly for tailing an append-only file.
//!
//! The surrounding shell opens the file, seeks to its end and hands every
//! newly appended chunk of bytes to a [`TailCursor`]. The cursor cuts the
//! stream at line feeds, strips an optional carriage return before each line
//! feed, and keeps a trailing unterminated line in its buffer until the rest
//! of it arrives. A line is emitted exactly once, and only once it is
//! complete.
use vstd::prelude::*;

verus! {

pub const LINE_FEED: u8 = 10;

pub const CARRIAGE_RETURN: u8 = 13;

/// The trailing bytes of `s` after its last line feed.
pub open spec fn rest_of(s: Seq<u8>) -> Seq<u8>
    decreases s.len(),
{
    if s.len() == 0 {
        Seq::empty()
    } else if s.last() == LINE_FEED {
        Seq::empty()
    } else {
        rest_of(s.drop_last()).push(s.last())
    }
}

/// A completed line, with one carriage return dropped before the terminator.
pub open spec fn strip_cr(l: Seq<u8>) -> Seq<u8> {
    if l.len() > 0 && l.last() == CARRIAGE_RETURN {
        l.drop_last()
    } else {
        l
    }
}

/// Every complete (line-feed-terminated) line of `s`, in order, without its
/// terminator.
pub open spec fn lines_of(s: Seq<u8>) -> Seq<Seq<u8>>
    decreases s.len(),
{
    if s.len() == 0 {
        Seq::empty()
    } else if s.last() == LINE_FEED {
        lines_of(s.drop_last()).push(strip_cr(rest_of(s.drop_last())))
    } else {
        lines_of(s.drop_last())
    }
}

/// Completed lines are never taken back: whatever is appended, the lines
/// already cut from a stream stay, in their order, at the front of the
/// stream's lines.
pub proof fn lemma_lines_monotone(s: Seq<u8>, more: Seq<u8>)
    ensures
        lines_of(s + more).len() >= lines_of(s).len(),
        lines_of(s + more).take(lines_of(s).len() as int) == lines_of(s),
    decreases more.len(),
{
    if more.len() == 0 {
        assert(s + more =~= s);
    } else {
        lemma_lines_monotone(s, more.drop_last());
        assert((s + more).drop_last() =~= s + more.drop_last());
        let t = s + more.drop_last();
        if (s + more).last() == LINE_FEED {
            assert(lines_of(s + more) == lines_of(t).push(strip_cr(rest_of(t))));
            assert(lines_of(s + more).take(lines_of(s).len() as int) =~= lines_of(t).take(
                lines_of(s).len() as int,
            ));
        } else {
            assert(lines_of(s + more) == lines_of(t));
        }
    }
}

/// Per-open-file tailing state: the unterminated tail of everything read so
/// far. The bytes already consumed are carried as a ghost history, so that
/// the contract of [`TailCursor::feed`] can speak about the whole stream.
pub struct TailCursor {
    buf: Vec<u8>,
    fed: Ghost<Seq<u8>>,
}

impl TailCursor {
    /// The buffer holds exactly the unterminated tail of the consumed stream.
    pub closed spec fn wf(&self) -> bool {
        self.buf@ == rest_of(self.fed@)
    }

    /// Every byte handed to this cursor so far.
    pub closed spec fn consumed(&self) -> Seq<u8> {
        self.fed@
    }

    pub fn new() -> (c: Self)
        ensures
            c.wf(),
            c.consumed() == Seq::<u8>::empty(),
    {
        TailCursor { buf: Vec::new(), fed: Ghost(Seq::empty()) }
    }

    /// Consumes one appended chunk and returns the lines it completed:
    /// exactly the lines of the whole stream that come after the lines that
    /// were already complete, so nothing is emitted twice and nothing
    /// unterminated is emitted at all.
    pub fn feed(&mut self, chunk: &[u8]) -> (lines: Vec<Vec<u8>>)
        requires
            old(self).wf(),
        ensures
            final(self).wf(),
            final(self).consumed() == old(self).consumed() + chunk@,
            lines_of(final(self).consumed()) == lines_of(old(self).consumed())
                + lines@.map_values(|l: Vec<u8>| l@),
    {
        let mut lines: Vec<Vec<u8>> = Vec::new();
        let mut i: usize = 0;
        while i < chunk.len()
            invariant
                i <= chunk@.len(),
                self.wf(),
                self.consumed() == old(self).consumed() + chunk@.take(i as int),
                lines_of(self.consumed()) == lines_of(old(self).consumed()) + lines@.map_values(
                    |l: Vec<u8>| l@,
                ),
            decreases chunk@.len() - i,
        {
            let c = chunk[i];
            let ghost t = self.fed@;
            proof {
                assert((t + seq![c]).drop_last() =~= t);
            }
            if c == LINE_FEED {
                let mut line: Vec<u8> = Vec::new();
                core::mem::swap(&mut self.buf, &mut line);
                if line.len() > 0 && line[line.len() - 1] == CARRIAGE_RETURN {
                    let _ = line.pop();
                }
                assert(line@ == strip_cr(rest_of(t)));
                lines.push(line);
                proof {
                    assert(lines@.map_values(|l: Vec<u8>| l@) =~= lines@.drop_last().map_values(
                        |l: Vec<u8>| l@,
                    ).push(strip_cr(rest_of(t))));
                }
            } else {
                self.buf.push(c);
            }
            proof {
                self.fed@ = t + seq![c];
                assert(old(self).consumed() + chunk@.take(i + 1) =~= (old(self).consumed()
                    + chunk@.take(i as int)) + seq![c]);
            }
            i += 1;
        }
        proof {
            assert(chunk@.take(chunk@.len() as int) =~= chunk@);
        }
        lines
    }
}

} // verus!
