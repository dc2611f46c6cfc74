//! Framing of the TCP feed: each message is JSON text followed by `\r\n\r\n`.
//! The socket is read line by line (up to and including each `\n`); a frame
//! is complete once the bytes gathered so far end with the terminator.
use vstd::prelude::*;

verus! {

/// The four bytes `\r\n\r\n` that close a frame.
pub open spec fn terminator() -> Seq<u8> {
    seq![13u8, 10u8, 13u8, 10u8]
}

/// Whether `buf` ends with the frame terminator.
pub open spec fn ends_with_terminator(buf: Seq<u8>) -> bool {
    &&& buf.len() >= 4
    &&& buf.subrange(buf.len() - 4, buf.len() as int) == terminator()
}

/// What one read of the socket delivered.
pub enum ReadOutcome {
    /// The read succeeded with these bytes; no bytes means the peer closed the stream.
    Read(Vec<u8>),
    /// The read failed after delivering these bytes.
    Failed(Vec<u8>),
}

/// What the reader knows after a read.
pub enum FrameStep {
    /// The frame is not complete yet: read again.
    Pending,
    /// The frame is complete: these are its bytes, terminator removed. The
    /// stream is still open (the frame may be empty).
    Complete(Vec<u8>),
    /// The stream ended (an empty read) or a read failed: these are the bytes
    /// gathered so far, as they are.
    Ended(Vec<u8>),
}

/// Whether a read ends the stream: it failed, or it delivered nothing.
pub open spec fn ends_stream(failed: bool, bytes: Seq<u8>) -> bool {
    failed || bytes.len() == 0
}

/// The buffer after a read and the frame it completes, if any: a failed read or
/// an empty read hands back everything gathered; otherwise a buffer that now
/// ends with the terminator is handed back without it.
pub open spec fn next_state(buf: Seq<u8>, failed: bool, bytes: Seq<u8>) -> (Seq<u8>, Option<Seq<u8>>) {
    let joined = buf + bytes;
    if failed || bytes.len() == 0 {
        (Seq::empty(), Some(joined))
    } else if ends_with_terminator(joined) {
        (Seq::empty(), Some(joined.subrange(0, joined.len() - 4)))
    } else {
        (joined, None)
    }
}

/// Number of bytes one line-read takes from `stream`: everything up to and
/// including the first `\n`, or the whole stream when it holds none.
pub open spec fn line_len(stream: Seq<u8>) -> nat
    decreases stream.len(),
{
    if stream.len() == 0 {
        0
    } else if stream[0] == 10u8 {
        1
    } else {
        1 + line_len(stream.drop_first())
    }
}

/// The bytes one line-read delivers from `stream`.
pub open spec fn first_line(stream: Seq<u8>) -> Seq<u8> {
    stream.take(line_len(stream) as int)
}

/// A message as it is written on the feed: its bytes, then the terminator.
pub open spec fn encode_frame(message: Seq<u8>) -> Seq<u8> {
    message + terminator()
}

/// Whether the terminator ends exactly at position `p` of `s`.
pub open spec fn has_terminator_at(s: Seq<u8>, p: int) -> bool {
    &&& 4 <= p <= s.len()
    &&& s.subrange(p - 4, p) == terminator()
}

/// Whether `s` ends with `\r\n`.
pub open spec fn ends_with_crlf(s: Seq<u8>) -> bool {
    s.len() >= 2 && s[s.len() - 2] == 13u8 && s[s.len() - 1] == 10u8
}

/// A line-read takes at least one byte of a non-empty stream, no more than the
/// stream holds, and stops right after the first `\n` (or at the end).
pub proof fn lemma_line(s: Seq<u8>)
    ensures
        line_len(s) <= s.len(),
        s.len() > 0 ==> line_len(s) >= 1,
        forall|i: int| 0 <= i < line_len(s) - 1 ==> s[i] != 10u8,
        line_len(s) == s.len() || s[line_len(s) - 1] == 10u8,
    decreases s.len(),
{
    if s.len() > 0 && s[0] != 10u8 {
        let t = s.drop_first();
        lemma_line(t);
        assert forall|i: int| 0 <= i < line_len(s) - 1 implies s[i] != 10u8 by {
            if i > 0 {
                assert(s[i] == t[i - 1]);
            }
        }
        if line_len(s) != s.len() {
            assert(s[line_len(s) - 1] == t[line_len(t) - 1]);
        }
    }
}

/// A frame read from a stream, line by line, with `buf` gathered already and
/// no read failing: the frame handed back and the rest of the stream.
pub open spec fn read_frame(buf: Seq<u8>, stream: Seq<u8>) -> (Seq<u8>, Seq<u8>)
    decreases stream.len(),
{
    let line = first_line(stream);
    if line.len() == 0 {
        (buf, stream)
    } else {
        proof {
            lemma_line(stream);
        }
        let (next, frame) = next_state(buf, false, line);
        match frame {
            Some(f) => (f, stream.skip(line.len() as int)),
            None => read_frame(next, stream.skip(line.len() as int)),
        }
    }
}

proof fn lemma_terminator_newline(s: Seq<u8>, q: int)
    requires
        has_terminator_at(s, q),
    ensures
        s[q - 1] == 10u8,
{
    assert(s.subrange(q - 4, q)[3] == s[q - 1]);
}

proof fn lemma_terminator_prefix(s: Seq<u8>, t: Seq<u8>, q: int)
    requires
        q <= s.len(),
    ensures
        has_terminator_at(s + t, q) == has_terminator_at(s, q),
{
    if 4 <= q {
        assert((s + t).subrange(q - 4, q) =~= s.subrange(q - 4, q));
    }
}

proof fn lemma_read_frame(buf: Seq<u8>, s: Seq<u8>)
    requires
        forall|q: int| 0 < q <= buf.len() ==> !has_terminator_at(buf, q),
    ensures
        forall|p: int|
            buf.len() < p && #[trigger] has_terminator_at(buf + s, p) && (forall|q: int|
                buf.len() < q < p ==> !has_terminator_at(buf + s, q)) ==> read_frame(buf, s) == (
            (buf + s).take(p - 4),
            (buf + s).skip(p),
        ),
        (forall|q: int| buf.len() < q <= (buf + s).len() ==> !has_terminator_at(buf + s, q))
            ==> read_frame(buf, s) == (buf + s, Seq::<u8>::empty()),
    decreases s.len(),
{
    let j = buf + s;
    lemma_line(s);
    let n = line_len(s) as int;
    if s.len() == 0 {
        assert(j =~= buf);
        assert(s =~= Seq::<u8>::empty());
    } else {
        let line = first_line(s);
        assert(line.len() == n);
        let nb = buf + line;
        let rest = s.skip(n);
        assert(nb + rest =~= j);
        assert forall|q: int| buf.len() < q < nb.len() implies !has_terminator_at(j, q) by {
            if has_terminator_at(j, q) {
                lemma_terminator_newline(j, q);
                assert(j[q - 1] == s[q - 1 - buf.len()]);
            }
        }
        assert forall|q: int| q <= nb.len() implies has_terminator_at(j, q) == has_terminator_at(
            nb,
            q,
        ) by {
            lemma_terminator_prefix(nb, rest, q);
        }
        assert forall|q: int| 0 < q <= buf.len() implies !has_terminator_at(j, q) by {
            lemma_terminator_prefix(buf, s, q);
        }
        assert(Seq::<u8>::empty() + line =~= line);
        if ends_with_terminator(nb) {
            assert(has_terminator_at(j, nb.len() as int));
            assert(read_frame(buf, s) == (nb.subrange(0, nb.len() - 4), rest));
            assert forall|p: int|
                buf.len() < p && #[trigger] has_terminator_at(j, p) && (forall|q: int|
                    buf.len() < q < p ==> !has_terminator_at(j, q)) implies read_frame(buf, s) == (
                j.take(p - 4),
                j.skip(p),
            ) by {
                assert(p == nb.len());
                assert(j.take(p - 4) =~= nb.subrange(0, nb.len() - 4));
                assert(j.skip(p) =~= rest);
            }
        } else {
            assert(!has_terminator_at(j, nb.len() as int));
            assert forall|q: int| 0 < q <= nb.len() implies !has_terminator_at(nb, q) by {}
            lemma_read_frame(nb, rest);
            assert(read_frame(buf, s) == read_frame(nb, rest));
        }
    }
}

/// The first terminator in a stream ends the frame: reading line by line from
/// an empty reader hands back everything before it, and the stream goes on
/// right after it.
pub proof fn lemma_first_terminator_ends_frame(stream: Seq<u8>, p: int)
    requires
        has_terminator_at(stream, p),
        forall|q: int| 0 < q < p ==> !has_terminator_at(stream, q),
    ensures
        read_frame(Seq::empty(), stream) == (stream.take(p - 4), stream.skip(p)),
{
    lemma_read_frame(Seq::empty(), stream);
    assert(Seq::<u8>::empty() + stream =~= stream);
}

/// A stream without a terminator is handed back whole when it ends.
pub proof fn lemma_unterminated_stream(stream: Seq<u8>)
    requires
        forall|q: int| 0 < q <= stream.len() ==> !has_terminator_at(stream, q),
    ensures
        read_frame(Seq::empty(), stream) == (stream, Seq::<u8>::empty()),
{
    lemma_read_frame(Seq::empty(), stream);
    assert(Seq::<u8>::empty() + stream =~= stream);
}

/// A message that holds no terminator and does not end with `\r\n`, written on
/// the feed and followed by anything else, is read back exactly, and the rest of
/// the stream is left for the next frame.
pub proof fn lemma_frame_round_trip(message: Seq<u8>, rest: Seq<u8>)
    requires
        forall|q: int| 0 < q <= message.len() ==> !has_terminator_at(message, q),
        !ends_with_crlf(message),
    ensures
        read_frame(Seq::empty(), encode_frame(message) + rest) == (message, rest),
{
    let stream = encode_frame(message) + rest;
    let m = message.len() as int;
    assert(stream =~= message + (terminator() + rest));
    assert(stream.subrange(m, m + 4) =~= terminator());
    assert forall|q: int| 0 < q < m + 4 implies !has_terminator_at(stream, q) by {
        if q <= m {
            lemma_terminator_prefix(message, terminator() + rest, q);
        } else if has_terminator_at(stream, q) {
            lemma_terminator_newline(stream, q);
            if q == m + 2 {
                assert(stream.subrange(q - 4, q)[0] == message[m - 2]);
                assert(stream.subrange(q - 4, q)[1] == message[m - 1]);
            }
        }
    }
    lemma_first_terminator_ends_frame(stream, m + 4);
    assert(stream.take(m) =~= message);
    assert(stream.skip(m + 4) =~= rest);
}

proof fn lemma_read_frame_shape(buf: Seq<u8>, s: Seq<u8>)
    requires
        forall|q: int| 0 < q <= buf.len() ==> !has_terminator_at(buf, q),
    ensures
        ({
            let (frame, rest) = read_frame(buf, s);
            &&& forall|q: int| 0 < q <= frame.len() ==> !has_terminator_at(frame, q)
            &&& (buf + s == frame + terminator() + rest || (buf + s == frame && rest
                == Seq::<u8>::empty()))
        }),
    decreases s.len(),
{
    lemma_line(s);
    let n = line_len(s) as int;
    if s.len() == 0 {
        assert(buf + s =~= buf);
    } else {
        let line = first_line(s);
        assert(line.len() == n);
        let nb = buf + line;
        let rest = s.skip(n);
        assert(nb + rest =~= buf + s);
        assert(Seq::<u8>::empty() + line =~= line);
        assert forall|q: int| 0 < q < nb.len() implies !has_terminator_at(nb, q) by {
            if q <= buf.len() {
                lemma_terminator_prefix(buf, line, q);
            } else if has_terminator_at(nb, q) {
                lemma_terminator_newline(nb, q);
                assert(nb[q - 1] == s[q - 1 - buf.len()]);
            }
        }
        if ends_with_terminator(nb) {
            let frame = nb.subrange(0, nb.len() - 4);
            assert forall|q: int| 0 < q <= frame.len() implies !has_terminator_at(frame, q) by {
                assert(nb =~= frame + terminator());
                lemma_terminator_prefix(frame, terminator(), q);
            }
            assert(nb =~= frame + terminator());
            assert(buf + s =~= frame + terminator() + rest);
        } else {
            lemma_read_frame_shape(nb, rest);
        }
    }
}

/// A frame read line by line from a stream (no read failing) holds no
/// terminator, and it is a prefix of the stream: either the stream is the frame,
/// the terminator and what is left, or the stream had no terminator and the
/// frame is all of it.
pub proof fn lemma_frame_shape(stream: Seq<u8>)
    ensures
        ({
            let (frame, rest) = read_frame(Seq::empty(), stream);
            &&& forall|q: int| 0 < q <= frame.len() ==> !has_terminator_at(frame, q)
            &&& (stream == frame + terminator() + rest || (stream == frame && rest
                == Seq::<u8>::empty()))
        }),
{
    lemma_read_frame_shape(Seq::empty(), stream);
    assert(Seq::<u8>::empty() + stream =~= stream);
}

/// A failed read ends the stream: what was gathered, followed by the failed
/// read's bytes exactly as they came, is handed back, and nothing is kept.
pub proof fn lemma_failed_read_ends_stream(buf: Seq<u8>, bytes: Seq<u8>)
    ensures
        next_state(buf, true, bytes) == (Seq::<u8>::empty(), Some(buf + bytes)),
{
}

/// An empty read (the peer closed the stream) hands back exactly what was
/// gathered, whatever it ends with, and nothing is kept.
pub proof fn lemma_empty_read_ends_stream(buf: Seq<u8>)
    ensures
        next_state(buf, false, Seq::<u8>::empty()) == (Seq::<u8>::empty(), Some(buf)),
{
    assert(buf + Seq::<u8>::empty() =~= buf);
}

/// A successful read of some bytes: when the gathered bytes then end with
/// `\r\n\r\n` the frame is everything before those four bytes and nothing is
/// kept; otherwise no frame comes and everything is kept.
pub proof fn lemma_line_read(buf: Seq<u8>, bytes: Seq<u8>)
    requires
        bytes.len() > 0,
    ensures
        ({
            let j = buf + bytes;
            let n = j.len() as int;
            let closed = n >= 4 && j[n - 4] == 13u8 && j[n - 3] == 10u8 && j[n - 2] == 13u8 && j[n
                - 1] == 10u8;
            &&& closed ==> next_state(buf, false, bytes) == (Seq::<u8>::empty(), Some(
                j.subrange(0, n - 4),
            ))
            &&& closed ==> j.subrange(0, n - 4) + seq![13u8, 10u8, 13u8, 10u8] == j
            &&& !closed ==> next_state(buf, false, bytes) == (j, None::<Seq<u8>>)
        }),
{
    let j = buf + bytes;
    let n = j.len() as int;
    if n >= 4 {
        let t = j.subrange(n - 4, n);
        if t == terminator() {
            assert(t[0] == j[n - 4] && t[1] == j[n - 3] && t[2] == j[n - 2] && t[3] == j[n - 1]);
        }
        if j[n - 4] == 13u8 && j[n - 3] == 10u8 && j[n - 2] == 13u8 && j[n - 1] == 10u8 {
            assert(t =~= terminator());
            assert(j.subrange(0, n - 4) + seq![13u8, 10u8, 13u8, 10u8] =~= j);
        }
    }
}

/// Accumulates the lines of one frame.
pub struct FrameReader {
    buffer: Vec<u8>,
}

impl View for FrameReader {
    type V = Seq<u8>;

    closed spec fn view(&self) -> Seq<u8> {
        self.buffer@
    }
}

impl FrameReader {
    /// A reader with nothing gathered.
    pub fn new() -> (reader: Self)
        ensures
            reader@ == Seq::<u8>::empty(),
    {
        FrameReader { buffer: Vec::new() }
    }

    /// Takes the outcome of one read and says whether the frame is complete, or
    /// the stream has ended. After either the reader is empty again.
    pub fn step(&mut self, outcome: ReadOutcome) -> (step: FrameStep)
        ensures
            ({
                let (failed, bytes) = match outcome {
                    ReadOutcome::Read(b) => (false, b@),
                    ReadOutcome::Failed(b) => (true, b@),
                };
                let (next, frame) = next_state(old(self)@, failed, bytes);
                &&& final(self)@ == next
                &&& match step {
                    FrameStep::Pending => frame is None,
                    FrameStep::Complete(f) => frame == Some(f@) && !ends_stream(failed, bytes),
                    FrameStep::Ended(f) => frame == Some(f@) && ends_stream(failed, bytes),
                }
            }),
            match outcome {
                ReadOutcome::Failed(b) => (step matches FrameStep::Ended(f) && f@ == old(self)@ + b@)
                    && final(self)@.len() == 0,
                ReadOutcome::Read(b) => b@.len() == 0 ==> (step matches FrameStep::Ended(f) && f@
                    == old(self)@) && final(self)@.len() == 0,
            },
            match outcome {
                ReadOutcome::Read(b) => b@.len() > 0 ==> match step {
                    FrameStep::Complete(f) => f@ + seq![13u8, 10u8, 13u8, 10u8] == old(self)@ + b@
                        && final(self)@.len() == 0,
                    FrameStep::Pending => final(self)@ == old(self)@ + b@ && !((old(self)@
                        + b@).len() >= 4 && (old(self)@ + b@).subrange(
                        (old(self)@ + b@).len() - 4,
                        (old(self)@ + b@).len() as int,
                    ) == seq![13u8, 10u8, 13u8, 10u8]),
                    FrameStep::Ended(_) => false,
                },
                ReadOutcome::Failed(_) => true,
            },
    {
        let (failed, mut bytes) = match outcome {
            ReadOutcome::Read(b) => (false, b),
            ReadOutcome::Failed(b) => (true, b),
        };
        let read_nothing: bool = bytes.len() == 0;
        proof {
            if !failed && !read_nothing {
                lemma_line_read(self@, bytes@);
            }
        }
        self.buffer.append(&mut bytes);
        if failed || read_nothing {
            return FrameStep::Ended(self.take_buffer());
        }
        if self.has_terminator() {
            let keep: usize = self.buffer.len() - 4;
            self.buffer.truncate(keep);
            FrameStep::Complete(self.take_buffer())
        } else {
            FrameStep::Pending
        }
    }

    fn has_terminator(&self) -> (b: bool)
        ensures
            b == ends_with_terminator(self@),
    {
        let n: usize = self.buffer.len();
        if n < 4 {
            return false;
        }
        let r: bool = self.buffer[n - 4] == 13u8 && self.buffer[n - 3] == 10u8 && self.buffer[n - 2]
            == 13u8 && self.buffer[n - 1] == 10u8;
        proof {
            let tail = self@.subrange(n - 4, n as int);
            if r {
                assert(tail =~= terminator());
            } else {
                if tail == terminator() {
                    assert(tail[0] == self@[n - 4]);
                    assert(tail[1] == self@[n - 3]);
                    assert(tail[2] == self@[n - 2]);
                    assert(tail[3] == self@[n - 1]);
                }
            }
        }
        r
    }

    fn take_buffer(&mut self) -> (taken: Vec<u8>)
        ensures
            taken@ == old(self)@,
            final(self)@ == Seq::<u8>::empty(),
    {
        let mut taken = Vec::new();
        std::mem::swap(&mut taken, &mut self.buffer);
        taken
    }
}

} // verus!
