//! Incremental MIDI message parser.
//!
//! A raw MIDI byte stream delimits its own messages: a byte with the high
//! bit set (a status byte) begins a new message, except `0xf7`, the
//! System-Exclusive terminator, which closes the message it belongs to.
//! The parser reassembles messages from a stream that may be split across
//! arbitrarily many read chunks; the sequence of messages it yields does not
//! depend on how the stream was chunked.

use vstd::prelude::*;

verus! {

/// True of a byte that begins a new MIDI message: a status byte (high bit
/// set) other than `0xf7`, the System-Exclusive terminator.
pub open spec fn is_boundary(b: u8) -> bool {
    b & 0x80 != 0 && b != 0xf7
}

/// Messages emitted when one byte arrives while `buf` is the open buffer.
pub open spec fn step_emits(buf: Option<Seq<u8>>, b: u8) -> Seq<Seq<u8>> {
    match buf {
        Some(m) => if is_boundary(b) {
            seq![m]
        } else {
            seq![]
        },
        None => seq![],
    }
}

/// The open buffer after one byte arrives while `buf` is the open buffer.
/// A buffer is always open once at least one byte has been consumed.
pub open spec fn step_buffer(buf: Option<Seq<u8>>, b: u8) -> Seq<u8> {
    match buf {
        Some(m) => if is_boundary(b) {
            seq![b]
        } else {
            m.push(b)
        },
        None => seq![b],
    }
}

/// Messages completed while consuming `input`, starting from the open
/// buffer `buf`.
pub open spec fn parse_msgs(buf: Option<Seq<u8>>, input: Seq<u8>) -> Seq<Seq<u8>>
    decreases input.len(),
{
    if input.len() == 0 {
        seq![]
    } else {
        step_emits(buf, input[0]) + parse_msgs(
            Some(step_buffer(buf, input[0])),
            input.drop_first(),
        )
    }
}

/// The buffer still open after consuming `input`, starting from `buf`.
pub open spec fn parse_rem(buf: Option<Seq<u8>>, input: Seq<u8>) -> Option<Seq<u8>>
    decreases input.len(),
{
    if input.len() == 0 {
        buf
    } else {
        parse_rem(Some(step_buffer(buf, input[0])), input.drop_first())
    }
}

/// Messages completed while consuming a sequence of chunks one at a time,
/// carrying the open buffer from each chunk to the next.
pub open spec fn parse_msgs_chunked(buf: Option<Seq<u8>>, chunks: Seq<Seq<u8>>) -> Seq<Seq<u8>>
    decreases chunks.len(),
{
    if chunks.len() == 0 {
        seq![]
    } else {
        parse_msgs(buf, chunks[0]) + parse_msgs_chunked(
            parse_rem(buf, chunks[0]),
            chunks.drop_first(),
        )
    }
}

/// The buffer still open after consuming a sequence of chunks one at a
/// time.
pub open spec fn parse_rem_chunked(buf: Option<Seq<u8>>, chunks: Seq<Seq<u8>>) -> Option<Seq<u8>>
    decreases chunks.len(),
{
    if chunks.len() == 0 {
        buf
    } else {
        parse_rem_chunked(parse_rem(buf, chunks[0]), chunks.drop_first())
    }
}

/// What `flush` adds at the end of a stream: the still-open message, if
/// any.
pub open spec fn flush_rem(rem: Option<Seq<u8>>) -> Seq<Seq<u8>> {
    match rem {
        Some(m) => seq![m],
        None => seq![],
    }
}

/// Every message in a whole stream, the trailing unterminated one included.
pub open spec fn parse_complete(input: Seq<u8>) -> Seq<Seq<u8>> {
    parse_msgs(None, input) + flush_rem(parse_rem(None, input))
}

/// Parsing splits over concatenation: consuming `a + b` completes the same
/// messages as consuming `a`, then `b` from the buffer `a` left open.
pub proof fn lemma_parse_split(buf: Option<Seq<u8>>, a: Seq<u8>, b: Seq<u8>)
    ensures
        parse_msgs(buf, a + b) == parse_msgs(buf, a) + parse_msgs(parse_rem(buf, a), b),
        parse_rem(buf, a + b) == parse_rem(parse_rem(buf, a), b),
    decreases a.len(),
{
    if a.len() == 0 {
        assert(a + b =~= b);
        assert(parse_msgs(buf, a) =~~= Seq::<Seq<u8>>::empty());
        assert(parse_msgs(buf, a) + parse_msgs(buf, b) =~~= parse_msgs(buf, b));
    } else {
        let b0 = a[0];
        assert((a + b).len() > 0);
        assert((a + b)[0] == b0);
        assert((a + b).drop_first() =~= a.drop_first() + b);
        lemma_parse_split(Some(step_buffer(buf, b0)), a.drop_first(), b);
        assert(parse_msgs(buf, a + b) =~~= parse_msgs(buf, a) + parse_msgs(parse_rem(buf, a), b));
    }
}

/// Chunk invariance of the parser state: consuming a stream chunk by chunk
/// completes the same messages, and leaves the same buffer open, as
/// consuming the concatenated stream at once.
pub proof fn lemma_parse_chunk_invariance(buf: Option<Seq<u8>>, chunks: Seq<Seq<u8>>)
    ensures
        parse_msgs_chunked(buf, chunks) == parse_msgs(buf, crate::concat_chunks(chunks)),
        parse_rem_chunked(buf, chunks) == parse_rem(buf, crate::concat_chunks(chunks)),
    decreases chunks.len(),
{
    if chunks.len() == 0 {
        assert(crate::concat_chunks(chunks) =~= Seq::<u8>::empty());
    } else {
        lemma_parse_chunk_invariance(parse_rem(buf, chunks[0]), chunks.drop_first());
        lemma_parse_split(buf, chunks[0], crate::concat_chunks(chunks.drop_first()));
        assert(parse_msgs_chunked(buf, chunks) =~~= parse_msgs(
            buf,
            crate::concat_chunks(chunks),
        ));
    }
}

/// Parser chunk invariance, headline form: feeding a stream to a fresh
/// parser chunk by chunk and flushing at the end yields exactly the
/// messages of the whole stream, whatever the chunking.
pub proof fn lemma_parse_complete_chunked(chunks: Seq<Seq<u8>>)
    ensures
        parse_msgs_chunked(None::<Seq<u8>>, chunks) + flush_rem(
            parse_rem_chunked(None::<Seq<u8>>, chunks),
        ) == parse_complete(crate::concat_chunks(chunks)),
{
    lemma_parse_chunk_invariance(None::<Seq<u8>>, chunks);
}

/// Parser for MIDI messages arriving over a byte stream.  It keeps the
/// message currently being assembled across calls.
pub struct MidiParser {
    buffer: Option<Vec<u8>>,
}

impl View for MidiParser {
    type V = Option<Seq<u8>>;

    closed spec fn view(&self) -> Option<Seq<u8>> {
        match self.buffer {
            Some(m) => Some(m@),
            None => None,
        }
    }
}

impl MidiParser {
    /// Create a parser with no message in progress.
    pub fn new() -> (p: MidiParser)
        ensures
            p@ == None::<Seq<u8>>,
    {
        MidiParser { buffer: None }
    }

    /// Consume one chunk of the stream and return the messages completed
    /// while doing so.  The message still in progress stays buffered for the
    /// next call.
    pub fn parse(&mut self, src: &[u8]) -> (res: Vec<Vec<u8>>)
        ensures
            res.deep_view() == parse_msgs(old(self)@, src@),
            final(self)@ == parse_rem(old(self)@, src@),
    {
        let ghost g0: Option<Seq<u8>> = self@;
        let mut res: Vec<Vec<u8>> = Vec::new();
        let n: usize = src.len();
        let mut i: usize = 0;

        proof {
            assert(src@.skip(0) =~= src@);
            assert(res.deep_view() =~~= Seq::<Seq<u8>>::empty());
            assert(Seq::<Seq<u8>>::empty() + parse_msgs(self@, src@) =~~= parse_msgs(self@, src@));
        }

        while i < n
            invariant
                i <= n,
                n == src@.len(),
                parse_msgs(g0, src@) =~~= res.deep_view() + parse_msgs(self@, src@.skip(i as int)),
                parse_rem(g0, src@) == parse_rem(self@, src@.skip(i as int)),
            decreases n - i,
        {
            let b: u8 = src[i];
            let ghost rest: Seq<u8> = src@.skip(i as int);
            let ghost pre_buf: Option<Seq<u8>> = self@;
            let ghost pre_res: Seq<Seq<u8>> = res.deep_view();

            proof {
                assert(rest.len() > 0);
                assert(rest[0] == b);
                assert(rest.drop_first() =~= src@.skip(i as int + 1));
            }

            let boundary: bool = b & 0x80 != 0 && b != 0xf7;
            let prev: Option<Vec<u8>> = self.buffer.take();
            match prev {
                Some(mut m) => {
                    if boundary {
                        proof {
                            assert(step_emits(pre_buf, b) =~~= seq![m@]);
                        }
                        res.push(m);
                        let mut started: Vec<u8> = Vec::new();
                        started.push(b);
                        self.buffer = Some(started);
                        proof {
                            assert(res.deep_view() =~~= pre_res + seq![m@]);
                        }
                    } else {
                        m.push(b);
                        self.buffer = Some(m);
                        proof {
                            assert(step_emits(pre_buf, b) =~~= Seq::<Seq<u8>>::empty());
                        }
                    }
                },
                None => {
                    let mut started: Vec<u8> = Vec::new();
                    started.push(b);
                    self.buffer = Some(started);
                    proof {
                        assert(step_emits(pre_buf, b) =~~= Seq::<Seq<u8>>::empty());
                    }
                },
            }

            proof {
                assert(self@ == Some(step_buffer(pre_buf, b)));
                assert(res.deep_view() =~~= pre_res + step_emits(pre_buf, b));
                assert(parse_msgs(pre_buf, rest) == step_emits(pre_buf, b) + parse_msgs(
                    Some(step_buffer(pre_buf, b)),
                    rest.drop_first(),
                ));
                assert(pre_res + parse_msgs(pre_buf, rest) =~~= (pre_res + step_emits(pre_buf, b))
                    + parse_msgs(Some(step_buffer(pre_buf, b)), rest.drop_first()));
            }

            i = i + 1;
        }

        proof {
            assert(src@.skip(n as int) =~= Seq::<u8>::empty());
            assert(parse_msgs(self@, Seq::<u8>::empty()) =~~= Seq::<Seq<u8>>::empty());
            assert(res.deep_view() + Seq::<Seq<u8>>::empty() =~~= res.deep_view());
        }

        res
    }

    /// Return and clear the message still in progress, if any.  Used when
    /// the stream ends, so a trailing message that never got a successor
    /// status byte is not dropped.
    pub fn flush(&mut self) -> (res: Option<Vec<u8>>)
        ensures
            final(self)@ == None::<Seq<u8>>,
            res.deep_view() == old(self)@,
    {
        self.buffer.take()
    }
}

} // verus!
