//! Double-newline framing of the backend byte stream.
//!
//! The backend peer terminates each message with two consecutive newline
//! bytes. The scan below reconstructs one message from a sequence of raw
//! reads: each read's bytes are emitted with the sentinel bytes stripped,
//! and once both sentinel bytes have been seen the scan is terminal and
//! emits nothing further. The sentinel may straddle two reads, one byte in
//! each.

use vstd::prelude::*;

verus! {

/// How many consecutive sentinel newlines have been seen at a read boundary.
#[derive(Clone, Copy, Debug, PartialEq, Eq, Structural)]
pub enum RpcResponseState {
    NoNewLines,
    OneNewLine,
    TwoNewLines,
}

/// True when the chunk's two trailing bytes are both newlines.
pub open spec fn ends_with_sentinel(c: Seq<u8>) -> bool {
    c.len() >= 2 && c[c.len() - 2] == 10u8 && c[c.len() - 1] == 10u8
}

/// One step of the framing scan: from the current state and the bytes of one
/// read, the next state and the bytes emitted for that read.
pub open spec fn frame_step(s: RpcResponseState, c: Seq<u8>) -> (RpcResponseState, Seq<u8>) {
    if ends_with_sentinel(c) {
        (RpcResponseState::TwoNewLines, c.take(c.len() - 2))
    } else if s == RpcResponseState::OneNewLine && c.len() > 0 && c[0] == 10u8 {
        (RpcResponseState::OneNewLine, c.skip(1))
    } else if c.len() > 0 && c[c.len() - 1] == 10u8 {
        (RpcResponseState::OneNewLine, c.take(c.len() - 1))
    } else {
        (RpcResponseState::NoNewLines, c)
    }
}

/// The framing scan over one backend response, driven by one read at a time.
pub struct RpcResponseFramer {
    pub state: RpcResponseState,
}

/// Copies `chunk[from..to]` into a fresh vector.
fn copy_range(chunk: &[u8], from: usize, to: usize) -> (r: Vec<u8>)
    requires
        from <= to <= chunk@.len(),
    ensures
        r@ == chunk@.subrange(from as int, to as int),
{
    let mut out: Vec<u8> = Vec::new();
    let mut i: usize = from;
    while i < to
        invariant
            from <= i <= to <= chunk@.len(),
            out@ == chunk@.subrange(from as int, i as int),
        decreases to - i,
    {
        out.push(chunk[i]);
        proof {
            assert(chunk@.subrange(from as int, i + 1) =~= chunk@.subrange(
                from as int,
                i as int,
            ).push(chunk@[i as int]));
        }
        i = i + 1;
    }
    out
}

impl RpcResponseFramer {
    /// A fresh scan: no sentinel bytes seen yet.
    pub fn new() -> (r: Self)
        ensures
            r.state == RpcResponseState::NoNewLines,
    {
        RpcResponseFramer { state: RpcResponseState::NoNewLines }
    }

    /// True once the full sentinel has been observed.
    pub fn is_done(&self) -> (r: bool)
        ensures
            r == (self.state == RpcResponseState::TwoNewLines),
    {
        self.state == RpcResponseState::TwoNewLines
    }

    /// Feeds the bytes of one underlying read into the scan.
    ///
    /// Returns the bytes to emit for that read, or `None` when the scan had
    /// already reached its terminal state — a terminal scan never emits
    /// again, and its state never changes.
    pub fn push_read(&mut self, chunk: &[u8]) -> (r: Option<Vec<u8>>)
        ensures
            old(self).state == RpcResponseState::TwoNewLines ==> r is None && final(self).state
                == old(self).state,
            old(self).state != RpcResponseState::TwoNewLines ==> r is Some && final(self).state
                == frame_step(old(self).state, chunk@).0 && r.unwrap()@ == frame_step(
                old(self).state,
                chunk@,
            ).1,
    {
        if self.state == RpcResponseState::TwoNewLines {
            return None;
        }
        let n = chunk.len();
        if n >= 2 && chunk[n - 2] == 10u8 && chunk[n - 1] == 10u8 {
            self.state = RpcResponseState::TwoNewLines;
            Some(copy_range(chunk, 0, n - 2))
        } else if self.state == RpcResponseState::OneNewLine && n > 0 && chunk[0] == 10u8 {
            Some(copy_range(chunk, 1, n))
        } else if n > 0 && chunk[n - 1] == 10u8 {
            self.state = RpcResponseState::OneNewLine;
            Some(copy_range(chunk, 0, n - 1))
        } else {
            self.state = RpcResponseState::NoNewLines;
            Some(copy_range(chunk, 0, n))
        }
    }
}

/// The concatenation of a sequence of byte chunks.
pub open spec fn concat_chunks(chunks: Seq<Seq<u8>>) -> Seq<u8>
    decreases chunks.len(),
{
    if chunks.len() == 0 {
        Seq::empty()
    } else {
        chunks[0] + concat_chunks(chunks.skip(1))
    }
}

/// The scan run over a whole sequence of reads: the final state and the
/// concatenation of everything emitted. Once terminal, nothing is emitted.
pub open spec fn frame_run(s: RpcResponseState, chunks: Seq<Seq<u8>>) -> (
    RpcResponseState,
    Seq<u8>,
)
    decreases chunks.len(),
{
    if chunks.len() == 0 {
        (s, Seq::empty())
    } else if s == RpcResponseState::TwoNewLines {
        (s, Seq::empty())
    } else {
        let stepped = frame_step(s, chunks[0]);
        let rest = frame_run(stepped.0, chunks.skip(1));
        (rest.0, stepped.1 + rest.1)
    }
}

/// LAW: once the scan is terminal it stays terminal and never emits another
/// byte, however many further reads arrive.
pub proof fn lemma_terminal_emits_nothing(chunks: Seq<Seq<u8>>)
    ensures
        frame_run(RpcResponseState::TwoNewLines, chunks).0 == RpcResponseState::TwoNewLines,
        frame_run(RpcResponseState::TwoNewLines, chunks).1 == Seq::<u8>::empty(),
{
}

/// A pair of adjacent newline bytes starting at position `i`.
pub open spec fn nl_pair_at(full: Seq<u8>, i: int) -> bool {
    full[i] == 10u8 && full[i + 1] == 10u8
}

/// `full` ends with the two-newline sentinel and contains no other pair of
/// adjacent newlines.
pub open spec fn sentinel_only_at_end(full: Seq<u8>) -> bool {
    &&& full.len() >= 2
    &&& full[full.len() - 2] == 10u8
    &&& full[full.len() - 1] == 10u8
    &&& forall|i: int| 0 <= i < full.len() - 2 ==> !#[trigger] nl_pair_at(full, i)
}

/// Every read is nonempty, and a read whose last byte is a newline is always
/// followed by a read whose first byte is a newline — that is, a newline at
/// the very end of a read is always the first half of the sentinel.
pub open spec fn chunks_aligned(chunks: Seq<Seq<u8>>) -> bool {
    &&& forall|i: int| 0 <= i < chunks.len() ==> (#[trigger] chunks[i]).len() > 0
    &&& forall|i: int|
        0 <= i < chunks.len() - 1 && (#[trigger] chunks[i])[chunks[i].len() - 1] == 10u8
            ==> chunks[i + 1][0] == 10u8
}

proof fn lemma_frame_run_aux(s: RpcResponseState, chunks: Seq<Seq<u8>>, full: Seq<u8>, done: int)
    requires
        sentinel_only_at_end(full),
        0 <= done <= full.len(),
        concat_chunks(chunks) == full.subrange(done, full.len() as int),
        chunks_aligned(chunks),
        (done > 0 && full[done - 1] == 10u8 && chunks.len() > 0) ==> chunks[0][0] == 10u8,
        s == RpcResponseState::NoNewLines ==> (done == 0 || full[done - 1] != 10u8),
        s == RpcResponseState::OneNewLine ==> (done > 0 && full[done - 1] == 10u8),
        s != RpcResponseState::TwoNewLines,
    ensures
        frame_run(s, chunks).1 == if done <= full.len() - 2 {
            full.subrange(done, full.len() - 2)
        } else {
            Seq::<u8>::empty()
        },
    decreases chunks.len(),
{
    let len = full.len() as int;
    if chunks.len() == 0 {
        assert(full.subrange(done, len).len() == 0);
        assert(done == len);
    } else {
        let c = chunks[0];
        let rest = chunks.skip(1);
        let n = c.len() as int;
        assert(n > 0);
        assert(concat_chunks(chunks) == c + concat_chunks(rest));
        assert(n + concat_chunks(rest).len() == len - done);
        assert(done + n <= len);
        assert(c =~= full.subrange(done, done + n)) by {
            assert forall|j: int| 0 <= j < n implies c[j] == full.subrange(done, len)[j] by {
                assert((c + concat_chunks(rest))[j] == c[j]);
            }
        }
        assert(concat_chunks(rest) =~= full.subrange(done + n, len)) by {
            assert forall|j: int| 0 <= j < len - done - n implies concat_chunks(rest)[j]
                == full.subrange(done, len)[n + j] by {
                assert((c + concat_chunks(rest))[n + j] == concat_chunks(rest)[j]);
            }
        }
        assert(chunks_aligned(rest)) by {
            assert(forall|i: int| 0 <= i < rest.len() ==> rest[i] == chunks[i + 1]);
        }
        // Nonempty chunks force: remaining bytes nonempty while chunks remain.
        if rest.len() > 0 {
            assert(concat_chunks(rest) == rest[0] + concat_chunks(rest.skip(1)));
            assert(concat_chunks(rest).len() >= rest[0].len());
            assert(rest[0].len() > 0);
        }
        if s == RpcResponseState::OneNewLine {
            // The stripped newline at done - 1 must be the sentinel's first byte.
            if done - 1 < len - 2 {
                assert(c[0] == 10u8);
                assert(full[done] == c[0]);
                assert(nl_pair_at(full, done - 1));
                assert(false);
            }
            // done == len - 1: the single remaining byte is the sentinel's second newline.
            assert(done == len - 1);
            assert(n == 1);
            assert(c[0] == full[len - 1]);
            assert(c[0] == 10u8);
            assert(!ends_with_sentinel(c));
            assert(frame_step(s, c) == (RpcResponseState::OneNewLine, c.skip(1)));
            assert(concat_chunks(rest).len() == 0);
            assert(rest.len() == 0);
            assert(frame_run(RpcResponseState::OneNewLine, rest).1 == Seq::<u8>::empty());
            assert(frame_run(s, chunks).1 == frame_step(s, c).1 + frame_run(
                frame_step(s, c).0,
                rest,
            ).1);
            assert(frame_run(s, chunks).1 =~= Seq::<u8>::empty());
        } else {
            // s == NoNewLines
            if ends_with_sentinel(c) {
                assert(full[done + n - 2] == c[n - 2]);
                assert(full[done + n - 1] == c[n - 1]);
                if done + n - 2 < len - 2 {
                    assert(nl_pair_at(full, done + n - 2));
                    assert(false);
                }
                if done + n - 2 == len - 1 {
                    assert(done + n - 1 == len);
                    assert(false);
                }
                assert(done + n == len);
                assert(concat_chunks(rest).len() == 0);
                assert(rest.len() == 0);
                assert(frame_step(s, c) == (RpcResponseState::TwoNewLines, c.take(n - 2)));
                assert(frame_run(RpcResponseState::TwoNewLines, rest).1 == Seq::<u8>::empty());
                assert(frame_run(s, chunks).1 == frame_step(s, c).1 + frame_run(
                    frame_step(s, c).0,
                    rest,
                ).1);
                assert(frame_run(s, chunks).1 =~= c.take(n - 2));
                assert(c.take(n - 2) =~= full.subrange(done, len - 2));
            } else if c[n - 1] == 10u8 {
                assert(full[done + n - 1] == c[n - 1]);
                if done + n - 1 < len - 2 {
                    // A payload newline at the end of a read: excluded by alignment.
                    assert(done + n < len);
                    assert(concat_chunks(rest).len() > 0);
                    assert(rest.len() > 0);
                    assert(chunks[1][0] == 10u8);
                    assert(rest[0] == chunks[1]);
                    assert(rest[0][0] == concat_chunks(rest)[0]);
                    assert(full[done + n] == concat_chunks(rest)[0]);
                    assert(nl_pair_at(full, done + n - 1));
                    assert(false);
                } else if done + n - 1 == len - 2 {
                    assert(frame_step(s, c) == (RpcResponseState::OneNewLine, c.take(n - 1)));
                    if rest.len() > 0 {
                        assert(chunks[1][0] == 10u8);
                        assert(rest[0] == chunks[1]);
                    }
                    lemma_frame_run_aux(RpcResponseState::OneNewLine, rest, full, done + n);
                    assert(frame_run(RpcResponseState::OneNewLine, rest).1 =~= Seq::<u8>::empty());
                    assert(frame_run(s, chunks).1 == frame_step(s, c).1 + frame_run(
                        frame_step(s, c).0,
                        rest,
                    ).1);
                    assert(frame_run(s, chunks).1 =~= c.take(n - 1));
                    assert(c.take(n - 1) =~= full.subrange(done, len - 2));
                } else {
                    // The trailing newline would be the sentinel's second byte.
                    assert(done + n - 1 == len - 1);
                    if n >= 2 {
                        assert(c[n - 2] == full[len - 2]);
                        assert(ends_with_sentinel(c));
                        assert(false);
                    } else {
                        assert(done == len - 1);
                        assert(done > 0);
                        assert(full[done - 1] == full[len - 2]);
                        assert(full[done - 1] == 10u8);
                        assert(false);
                    }
                }
            } else {
                assert(full[done + n - 1] == c[n - 1]);
                assert(full[done + n - 1] != 10u8);
                assert(done + n != len);
                assert(done + n != len - 1);
                assert(done + n <= len - 2);
                assert(frame_step(s, c) == (RpcResponseState::NoNewLines, c));
                lemma_frame_run_aux(RpcResponseState::NoNewLines, rest, full, done + n);
                assert(frame_run(RpcResponseState::NoNewLines, rest).1 == full.subrange(
                    done + n,
                    len - 2,
                ));
                assert(frame_run(s, chunks).1 == frame_step(s, c).1 + frame_run(
                    frame_step(s, c).0,
                    rest,
                ).1);
                assert(frame_run(s, chunks).1 =~= c + full.subrange(done + n, len - 2));
                assert(c + full.subrange(done + n, len - 2) =~= full.subrange(done, len - 2));
            }
        }
    }
}

/// LAW (lossless framing): feed the scan a byte sequence `payload + "\n\n"`
/// split into reads of any sizes. Provided the sentinel pair occurs only at
/// the very end, and a newline at the very end of a read is always the first
/// half of the sentinel (a payload newline never falls at the end of a
/// read — the scan's leading-newline rule would drop it otherwise), the
/// concatenation of all emitted buffers is exactly `payload`.
pub proof fn lemma_framing_lossless(chunks: Seq<Seq<u8>>, payload: Seq<u8>)
    requires
        concat_chunks(chunks) == payload + seq![10u8, 10u8],
        sentinel_only_at_end(payload + seq![10u8, 10u8]),
        chunks_aligned(chunks),
    ensures
        frame_run(RpcResponseState::NoNewLines, chunks).1 == payload,
{
    let full = payload + seq![10u8, 10u8];
    assert(concat_chunks(chunks) == full.subrange(0, full.len() as int)) by {
        assert(full.subrange(0, full.len() as int) =~= full);
    }
    lemma_frame_run_aux(RpcResponseState::NoNewLines, chunks, full, 0);
    assert(payload =~= full.subrange(0, full.len() - 2));
}

} // verus!
