//! Line framing of the in-process byte transport: the write side cuts bytes
//! into lines, the read side hands out each message followed by a newline.
use vstd::prelude::*;
use vstd::math::min;
use vstd::utf8::encode_utf8;

verus! {

pub const NEWLINE: u8 = 10;

/// The non-empty lines completed by feeding `input` after the unterminated
/// bytes `pending`, and the bytes left unterminated after it.
pub open spec fn feed(pending: Seq<u8>, input: Seq<u8>) -> (Seq<Seq<u8>>, Seq<u8>)
    decreases input.len(),
{
    if input.len() == 0 {
        (Seq::empty(), pending)
    } else {
        let (lines, rest) = feed(pending, input.drop_last());
        if input.last() == NEWLINE {
            (
                if rest.len() > 0 {
                    lines.push(rest)
                } else {
                    lines
                },
                Seq::empty(),
            )
        } else {
            (lines, rest.push(input.last()))
        }
    }
}

pub open spec fn has_no_newline(s: Seq<u8>) -> bool {
    forall|i: int| 0 <= i < s.len() ==> s[i] != NEWLINE
}

/// What a line of bytes reads as in text, invalid sequences replaced.
pub uninterp spec fn lossy_text(b: Seq<u8>) -> Seq<char>;

/// Relies on std's `String::from_utf8_lossy`: the text depends on the bytes
/// alone.
#[verifier::external_body]
fn utf8_lossy(b: &[u8]) -> (r: String)
    ensures
        r@ == lossy_text(b@),
{
    String::from_utf8_lossy(b).to_string()
}

/// How handing a line to the bounded channel towards the reader went.
#[derive(Clone, Copy, Debug, PartialEq, Eq, Structural)]
pub enum SendOutcome {
    Sent,
    /// The channel was full; the line is dropped rather than waited for.
    Full,
    /// The reader is gone.
    Closed,
}

/// The channel towards the reader is closed: the writer's pipe is broken.
#[derive(Clone, Copy, Debug, PartialEq, Eq, Structural)]
pub struct BrokenPipe;

/// The write side: bytes come in arbitrary pieces and leave as whole lines.
pub struct LineFramer {
    buffer: Vec<u8>,
    dropped: u64,
}

impl LineFramer {
    /// The bytes after the last newline seen.
    pub closed spec fn view(&self) -> Seq<u8> {
        self.buffer@
    }

    /// The pending bytes never hold a newline: every complete line has left.
    pub open spec fn wf(&self) -> bool {
        has_no_newline(self@)
    }

    pub fn new() -> (r: Self)
        ensures
            r.wf(),
            r@ == Seq::<u8>::empty(),
    {
        LineFramer { buffer: Vec::new(), dropped: 0 }
    }

    /// How many lines were dropped because the channel was full.
    pub closed spec fn dropped_count(&self) -> u64 {
        self.dropped
    }

    pub fn dropped(&self) -> (r: u64)
        ensures
            r == self.dropped_count(),
    {
        self.dropped
    }

    /// Takes note of how handing a line on went: a full channel drops the
    /// line, counts it, and lets writing go on; a closed one breaks the pipe.
    pub fn note_send(&mut self, outcome: SendOutcome) -> (r: Result<(), BrokenPipe>)
        ensures
            final(self)@ == old(self)@,
            old(self).wf() ==> final(self).wf(),
            outcome == SendOutcome::Closed <==> r is Err,
            outcome == SendOutcome::Full ==> final(self).dropped_count() == if old(
                self,
            ).dropped_count() < u64::MAX {
                (old(self).dropped_count() + 1) as u64
            } else {
                old(self).dropped_count()
            },
            outcome != SendOutcome::Full ==> final(self).dropped_count() == old(
                self,
            ).dropped_count(),
    {
        match outcome {
            SendOutcome::Sent => Ok(()),
            SendOutcome::Full => {
                self.dropped = self.dropped.saturating_add(1);
                Ok(())
            },
            SendOutcome::Closed => Err(BrokenPipe),
        }
    }

    /// Takes in bytes; returns, in order, the non-empty lines that they
    /// complete, without their newline, and keeps what follows the last
    /// newline for the next write.
    pub fn push_bytes(&mut self, buf: &[u8]) -> (r: Vec<Vec<u8>>)
        requires
            old(self).wf(),
        ensures
            final(self).wf(),
            r@.map_values(|l: Vec<u8>| l@) == feed(old(self)@, buf@).0,
            final(self)@ == feed(old(self)@, buf@).1,
            final(self).dropped_count() == old(self).dropped_count(),
            forall|i: int|
                0 <= i < r@.len() ==> (#[trigger] r@[i])@.len() > 0 && has_no_newline(r@[i]@),
    {
        let mut out: Vec<Vec<u8>> = Vec::new();
        let mut i: usize = 0;
        while i < buf.len()
            invariant
                i <= buf.len(),
                out@.map_values(|l: Vec<u8>| l@) == feed(old(self)@, buf@.take(i as int)).0,
                self@ == feed(old(self)@, buf@.take(i as int)).1,
                self.dropped_count() == old(self).dropped_count(),
            decreases buf.len() - i,
        {
            assert(buf@.take(i + 1).drop_last() =~= buf@.take(i as int));
            let b = buf[i];
            if b == NEWLINE {
                if self.buffer.len() > 0 {
                    let mut line: Vec<u8> = Vec::new();
                    std::mem::swap(&mut line, &mut self.buffer);
                    out.push(line);
                    assert(out@.map_values(|l: Vec<u8>| l@) =~= feed(
                        old(self)@,
                        buf@.take(i as int),
                    ).0.push(line@));
                }
            } else {
                self.buffer.push(b);
            }
            i = i + 1;
        }
        assert(buf@.take(buf.len() as int) =~= buf@);
        proof {
            lemma_feed_lines_whole(old(self)@, buf@);
            assert forall|i: int| 0 <= i < out@.len() implies (#[trigger] out@[i])@.len() > 0
                && has_no_newline(out@[i]@) by {
                assert(out@[i]@ == out@.map_values(|l: Vec<u8>| l@)[i]);
            }
        }
        out
    }

    /// Takes in bytes; returns, in order, the text of each non-empty line that
    /// they complete: each one whole line without its newline, never two lines
    /// merged nor one split; what follows the last newline waits for the next
    /// write.
    pub fn write(&mut self, buf: &[u8]) -> (r: Vec<String>)
        requires
            old(self).wf(),
        ensures
            final(self).wf(),
            r@.map_values(|l: String| l@) == feed(old(self)@, buf@).0.map_values(
                |l: Seq<u8>| lossy_text(l),
            ),
            final(self)@ == feed(old(self)@, buf@).1,
            final(self).dropped_count() == old(self).dropped_count(),
            forall|i: int|
                0 <= i < feed(old(self)@, buf@).0.len() ==> (#[trigger] feed(
                    old(self)@,
                    buf@,
                ).0[i]).len() > 0 && has_no_newline(feed(old(self)@, buf@).0[i]),
    {
        proof {
            lemma_feed_lines_whole(old(self)@, buf@);
        }
        let lines = self.push_bytes(buf);
        let mut out: Vec<String> = Vec::new();
        let mut i: usize = 0;
        while i < lines.len()
            invariant
                i <= lines.len(),
                out@.map_values(|l: String| l@) == lines@.take(i as int).map_values(
                    |l: Vec<u8>| lossy_text(l@),
                ),
            decreases lines.len() - i,
        {
            let text = utf8_lossy(lines[i].as_slice());
            assert(text@ == lossy_text(lines@[i as int]@));
            let ghost before = out@;
            out.push(text);
            assert(out@.map_values(|l: String| l@) =~= before.map_values(|l: String| l@).push(
                text@,
            ));
            assert(lines@.take(i + 1).map_values(|l: Vec<u8>| lossy_text(l@)) =~= lines@.take(
                i as int,
            ).map_values(|l: Vec<u8>| lossy_text(l@)).push(lossy_text(lines@[i as int]@)));
            assert(out@.map_values(|l: String| l@) =~= lines@.take(i + 1).map_values(
                |l: Vec<u8>| lossy_text(l@),
            ));
            i = i + 1;
        }
        assert(out@.map_values(|l: String| l@) =~= feed(old(self)@, buf@).0.map_values(
            |l: Seq<u8>| lossy_text(l),
        ));
        out
    }
}

/// The bytes that the read side hands out for one message: the message's
/// UTF-8 encoding followed by one newline.
pub open spec fn framed(msg: Seq<char>) -> Seq<u8> {
    encode_utf8(msg).push(NEWLINE)
}

/// The bytes of several lines, each followed by one newline.
pub open spec fn join_lines(lines: Seq<Seq<u8>>) -> Seq<u8>
    decreases lines.len(),
{
    if lines.len() == 0 {
        Seq::empty()
    } else {
        join_lines(lines.drop_last()) + lines.last().push(NEWLINE)
    }
}

/// The read side: each message arrives whole and is handed out, followed by a
/// newline, in as many reads as the reader's room asks.
pub struct LineReader {
    residual: Vec<u8>,
}

impl LineReader {
    /// The bytes received and not yet handed out.
    pub closed spec fn view(&self) -> Seq<u8> {
        self.residual@
    }

    pub fn new() -> (r: Self)
        ensures
            r@ == Seq::<u8>::empty(),
    {
        LineReader { residual: Vec::new() }
    }

    /// Whether bytes of an earlier message wait to be handed out.
    pub fn has_residual(&self) -> (r: bool)
        ensures
            r == (self@.len() > 0),
    {
        self.residual.len() > 0
    }

    /// Hands out up to `room` of the waiting bytes, oldest first.
    pub fn read_residual(&mut self, room: usize) -> (r: Vec<u8>)
        ensures
            r@ == old(self)@.take(min(room as int, old(self)@.len() as int)),
            final(self)@ == old(self)@.skip(min(room as int, old(self)@.len() as int)),
    {
        let n = if room < self.residual.len() {
            room
        } else {
            self.residual.len()
        };
        let mut out: Vec<u8> = Vec::new();
        let mut rest: Vec<u8> = Vec::new();
        let mut i: usize = 0;
        while i < self.residual.len()
            invariant
                n <= self.residual.len(),
                i <= self.residual.len(),
                self@ == old(self)@,
                out@ == self@.take(min(i as int, n as int)),
                rest@ == if i <= n {
                    Seq::<u8>::empty()
                } else {
                    self@.subrange(n as int, i as int)
                },
            decreases self.residual.len() - i,
        {
            if i < n {
                out.push(self.residual[i]);
                assert(out@ =~= self@.take(i + 1));
            } else {
                rest.push(self.residual[i]);
                assert(rest@ =~= self@.subrange(n as int, i + 1));
            }
            i = i + 1;
        }
        assert(out@ =~= self@.take(n as int));
        assert(rest@ =~= self@.skip(n as int));
        self.residual = rest;
        out
    }

    /// Receives a message and hands out up to `room` bytes of what waits,
    /// the message and its newline last.
    pub fn deliver(&mut self, msg: &str, room: usize) -> (r: Vec<u8>)
        ensures
            ({
                let all = old(self)@ + framed(msg@);
                let n = min(room as int, all.len() as int);
                r@ == all.take(n) && final(self)@ == all.skip(n)
            }),
    {
        let bytes = msg.as_bytes();
        let mut i: usize = 0;
        while i < bytes.len()
            invariant
                i <= bytes@.len(),
                bytes@ == encode_utf8(msg@),
                self@ == old(self)@ + bytes@.take(i as int),
            decreases bytes.len() - i,
        {
            self.residual.push(bytes[i]);
            assert(self@ =~= old(self)@ + bytes@.take(i + 1));
            i = i + 1;
        }
        self.residual.push(NEWLINE);
        assert(self@ =~= old(self)@ + framed(msg@));
        self.read_residual(room)
    }
}

/// Writes may be cut anywhere: feeding `a` and then `b` yields the lines of
/// `a`, then those of `b` after what `a` left unterminated, and leaves the
/// same bytes as feeding `a + b` at once; so no line is merged with another
/// or split across two writes.
pub proof fn lemma_feed_split(pending: Seq<u8>, a: Seq<u8>, b: Seq<u8>)
    ensures
        feed(pending, a + b) == (
            feed(pending, a).0 + feed(feed(pending, a).1, b).0,
            feed(feed(pending, a).1, b).1,
        ),
    decreases b.len(),
{
    let mid = feed(pending, a).1;
    if b.len() == 0 {
        assert(a + b =~= a);
        assert(feed(pending, a).0 + Seq::<Seq<u8>>::empty() =~= feed(pending, a).0);
    } else {
        lemma_feed_split(pending, a, b.drop_last());
        assert((a + b).drop_last() =~= a + b.drop_last());
        assert((a + b).last() == b.last());
        let (l0, r0) = feed(mid, b.drop_last());
        if b.last() == NEWLINE && r0.len() > 0 {
            assert(feed(pending, a).0 + l0.push(r0) =~= (feed(pending, a).0 + l0).push(r0));
        }
    }
}

/// Every line that framing hands out is non-empty and holds no newline, and
/// what it keeps holds none either.
pub proof fn lemma_feed_lines_whole(pending: Seq<u8>, input: Seq<u8>)
    requires
        has_no_newline(pending),
    ensures
        has_no_newline(feed(pending, input).1),
        forall|i: int|
            0 <= i < feed(pending, input).0.len() ==> (#[trigger] feed(pending, input).0[i]).len()
                > 0 && has_no_newline(feed(pending, input).0[i]),
    decreases input.len(),
{
    if input.len() > 0 {
        lemma_feed_lines_whole(pending, input.drop_last());
    }
}

/// Framing a line that holds no newline after nothing pending keeps it whole.
proof fn lemma_feed_plain(pending: Seq<u8>, line: Seq<u8>)
    requires
        has_no_newline(line),
    ensures
        feed(pending, line) == (Seq::<Seq<u8>>::empty(), pending + line),
    decreases line.len(),
{
    if line.len() == 0 {
        assert(pending + line =~= pending);
    } else {
        lemma_feed_plain(pending, line.drop_last());
        assert((pending + line.drop_last()).push(line.last()) =~= pending + line);
    }
}

/// Messages framed one per line and then cut back into lines come out as the
/// same messages, one line each, in the order they were sent.
pub proof fn lemma_round_trip(msgs: Seq<Seq<u8>>)
    requires
        forall|i: int|
            0 <= i < msgs.len() ==> (#[trigger] msgs[i]).len() > 0 && has_no_newline(msgs[i]),
    ensures
        feed(Seq::empty(), join_lines(msgs)) == (msgs, Seq::<u8>::empty()),
    decreases msgs.len(),
{
    if msgs.len() == 0 {
        assert(msgs =~= Seq::<Seq<u8>>::empty());
    } else {
        let init = msgs.drop_last();
        let m = msgs.last();
        lemma_round_trip(init);
        lemma_feed_split(Seq::empty(), join_lines(init), m.push(NEWLINE));
        lemma_feed_plain(Seq::empty(), m);
        assert(m.push(NEWLINE).drop_last() =~= m);
        assert(Seq::<u8>::empty() + m =~= m);
        assert(init + seq![m] =~= msgs);
        assert(Seq::<Seq<u8>>::empty().push(m) =~= seq![m]);
    }
}

} // verus!
