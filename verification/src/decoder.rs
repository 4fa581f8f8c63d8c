//! The byte-to-line decoder.
//!
//! Bytes arrive from the remote peer in chunks of arbitrary size.  The
//! decoder accumulates them in a buffer until a line feed arrives; it then
//! strips one trailing carriage return if present, decodes the remaining
//! bytes with the replacement strategy of [`crate::text::lossy_of`], and
//! yields the decoded line.  No input ever makes it fail: malformed bytes
//! degrade to a best-effort decoded line.

use vstd::prelude::*;

use crate::text::lossy_of;
use crate::text::lossy_decode;

verus! {

/// The line-feed byte that terminates a line.
pub const LINE_FEED: u8 = 10;

/// The carriage-return byte that may precede the line feed.
pub const CARRIAGE_RETURN: u8 = 13;

/// A completed raw line: the buffered bytes with one trailing carriage
/// return removed, if there was one.
pub open spec fn strip_cr(s: Seq<u8>) -> Seq<u8> {
    if s.len() > 0 && s.last() == CARRIAGE_RETURN {
        s.drop_last()
    } else {
        s
    }
}

/// The buffer contents after feeding `input` to a decoder whose buffer held
/// `buf`.
pub open spec fn feed_buf(buf: Seq<u8>, input: Seq<u8>) -> Seq<u8>
    decreases input.len(),
{
    if input.len() == 0 {
        buf
    } else if input[0] == LINE_FEED {
        feed_buf(Seq::empty(), input.skip(1))
    } else {
        feed_buf(buf.push(input[0]), input.skip(1))
    }
}

/// The raw lines completed while feeding `input` to a decoder whose buffer
/// held `buf`, in order.
pub open spec fn feed_lines(buf: Seq<u8>, input: Seq<u8>) -> Seq<Seq<u8>>
    decreases input.len(),
{
    if input.len() == 0 {
        Seq::empty()
    } else if input[0] == LINE_FEED {
        seq![strip_cr(buf)] + feed_lines(Seq::empty(), input.skip(1))
    } else {
        feed_lines(buf.push(input[0]), input.skip(1))
    }
}

/// Chunking independence: feeding `a` and then `b` leaves the decoder exactly
/// where feeding `a + b` in one piece does, and completes the same lines in
/// the same order.  In particular, any division of a byte stream into chunks
/// — one byte at a time included — yields one and the same line sequence.
pub proof fn lemma_feed_chunking(buf: Seq<u8>, a: Seq<u8>, b: Seq<u8>)
    ensures
        feed_buf(buf, a + b) == feed_buf(feed_buf(buf, a), b),
        feed_lines(buf, a + b) == feed_lines(buf, a) + feed_lines(feed_buf(buf, a), b),
    decreases a.len(),
{
    if a.len() == 0 {
        assert(a + b =~= b);
        assert(feed_lines(buf, a) + feed_lines(feed_buf(buf, a), b) =~= feed_lines(buf, b));
    } else {
        assert((a + b)[0] == a[0]);
        assert((a + b).skip(1) =~= a.skip(1) + b);
        if a[0] == LINE_FEED {
            lemma_feed_chunking(Seq::empty(), a.skip(1), b);
            assert(feed_lines(buf, a + b) =~= feed_lines(buf, a) + feed_lines(
                feed_buf(buf, a),
                b,
            ));
        } else {
            lemma_feed_chunking(buf.push(a[0]), a.skip(1), b);
        }
    }
}

/// Accumulates the bytes of one partial line.
///
/// The buffer never contains a line feed, and is cleared exactly once per
/// completed line.
pub struct LineDecoder {
    /// The bytes of the current partial line.
    pub buf: Vec<u8>,
}

impl LineDecoder {
    /// The buffer invariant: no line feed is ever buffered.
    pub open spec fn wf(&self) -> bool {
        !self.buf@.contains(LINE_FEED)
    }

    /// A decoder with nothing buffered.
    pub fn new() -> (r: Self)
        ensures
            r.buf@ == Seq::<u8>::empty(),
            r.wf(),
    {
        LineDecoder { buf: Vec::new() }
    }

    /// Process one byte sent by the remote peer.
    ///
    /// A line feed completes the buffered line: one trailing carriage return
    /// is stripped, the rest is decoded, and the buffer is cleared.  Any
    /// other byte is buffered.  No byte is ever rejected.
    pub fn advance(&mut self, c: u8) -> (r: Option<String>)
        requires
            old(self).wf(),
        ensures
            final(self).wf(),
            c == LINE_FEED ==> {
                &&& r matches Some(line) && line@ == lossy_of(strip_cr(old(self).buf@))
                &&& final(self).buf@ == Seq::<u8>::empty()
            },
            c != LINE_FEED ==> r is None && final(self).buf@ == old(self).buf@.push(c),
    {
        if c == LINE_FEED {
            if self.buf.len() > 0 && *self.buf.last().unwrap() == CARRIAGE_RETURN {
                self.buf.pop();
            }
            assert(self.buf@ == strip_cr(old(self).buf@));
            let line = lossy_decode(self.buf.as_slice());
            self.buf.clear();
            Some(line)
        } else {
            self.buf.push(c);
            None
        }
    }

    /// Process one chunk of bytes, returning the lines it completes.
    ///
    /// Feeding a stream through this in chunks of any size decodes the same
    /// lines as feeding it one byte at a time ([`lemma_feed_chunking`]).
    pub fn advance_bytes(&mut self, chunk: &[u8]) -> (lines: Vec<String>)
        requires
            old(self).wf(),
        ensures
            final(self).wf(),
            final(self).buf@ == feed_buf(old(self).buf@, chunk@),
            lines.deep_view() == feed_lines(old(self).buf@, chunk@).map_values(
                |l: Seq<u8>| lossy_of(l),
            ),
    {
        let ghost buf0 = self.buf@;
        let mut lines: Vec<String> = Vec::new();
        let mut i: usize = 0;
        while i < chunk.len()
            invariant
                old(self).wf(),
                self.wf(),
                buf0 == old(self).buf@,
                i <= chunk@.len(),
                self.buf@ == feed_buf(buf0, chunk@.subrange(0, i as int)),
                lines.deep_view() == feed_lines(buf0, chunk@.subrange(0, i as int)).map_values(
                    |l: Seq<u8>| lossy_of(l),
                ),
            decreases chunk@.len() - i,
        {
            let ghost done = chunk@.subrange(0, i as int);
            let ghost step = seq![chunk@[i as int]];
            let ghost buf2 = feed_buf(buf0, done);
            let ghost lines0 = lines.deep_view();
            proof {
                assert(chunk@.subrange(0, i + 1) =~= done + step);
                lemma_feed_chunking(buf0, done, step);
                assert(step.skip(1) =~= Seq::<u8>::empty());
            }
            let c = chunk[i];
            let r = self.advance(c);
            match r {
                Some(line) => {
                    proof {
                        assert(c == LINE_FEED);
                        assert(feed_buf(buf2, step) == feed_buf(
                            Seq::<u8>::empty(),
                            Seq::<u8>::empty(),
                        ));
                        assert(feed_lines(buf2, step) == seq![strip_cr(buf2)] + feed_lines(
                            Seq::<u8>::empty(),
                            Seq::<u8>::empty(),
                        ));
                        assert(feed_lines(buf2, step) =~= seq![strip_cr(buf2)]);
                        assert(feed_lines(buf0, chunk@.subrange(0, i + 1)) == feed_lines(
                            buf0,
                            done,
                        ) + seq![strip_cr(buf2)]);
                    }
                    lines.push(line);
                    proof {
                        assert(lines.deep_view() =~= lines0.push(line@));
                        assert(lines.deep_view() =~= feed_lines(buf0, chunk@.subrange(0, i + 1))
                            .map_values(|l: Seq<u8>| lossy_of(l)));
                    }
                },
                None => {
                    proof {
                        assert(c != LINE_FEED);
                        assert(feed_buf(buf2, step) == feed_buf(
                            buf2.push(c),
                            Seq::<u8>::empty(),
                        ));
                        assert(feed_lines(buf2, step) == feed_lines(
                            buf2.push(c),
                            Seq::<u8>::empty(),
                        ));
                        assert(feed_lines(buf0, chunk@.subrange(0, i + 1)) =~= feed_lines(
                            buf0,
                            done,
                        ));
                        assert(lines.deep_view() =~= feed_lines(buf0, chunk@.subrange(0, i + 1))
                            .map_values(|l: Seq<u8>| lossy_of(l)));
                    }
                },
            }
            i = i + 1;
        }
        proof {
            assert(chunk@.subrange(0, chunk@.len() as int) =~= chunk@);
        }
        lines
    }
}

} // verus!
