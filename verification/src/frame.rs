//! Fixed-size wire frame codec.
//!
//! One MIDI message travels as exactly `1 + 32` bytes: byte 0 holds the
//! payload length (`0..=32`), bytes `1..33` hold the payload, zero-padded
//! past the length.  A message longer than 32 bytes is truncated to its
//! first 32 bytes when framed, and a wire length byte above 32 is clamped to
//! 32 when decoded, so neither direction can read out of bounds.
//!
//! Frames may arrive split or merged by the stream transport, so the module
//! also gives the reassembly functions that slice an incoming byte stream
//! into whole frames, independent of how it was chunked.

use vstd::prelude::*;

verus! {

/// Largest payload one frame carries.
pub const MAX_PAYLOAD: usize = 32;

/// Size of one frame on the wire: a length byte plus the padded payload.
pub const WIRE_LEN: usize = 33;

/// Payload length actually stored for a message of length `n`: the length
/// itself, truncated to the frame capacity.
pub open spec fn clamp_len(n: nat) -> nat {
    if n <= 32 {
        n
    } else {
        32
    }
}

/// The wire image of one raw message: length byte, payload truncated to the
/// capacity, zero padding.
pub open spec fn spec_encode(raw: Seq<u8>) -> Seq<u8> {
    seq![clamp_len(raw.len()) as u8] + raw.take(clamp_len(raw.len()) as int) + Seq::new(
        (32 - clamp_len(raw.len())) as nat,
        |i: int| 0u8,
    )
}

/// The payload a well-formed 33-byte wire frame carries: the bytes its own
/// length byte selects, with a length byte above the capacity clamped.
pub open spec fn spec_decode(wire: Seq<u8>) -> Seq<u8>
    recommends
        wire.len() == 33,
{
    wire.subrange(1, 1 + clamp_len(wire[0] as nat) as int)
}

/// One MIDI message prepared for the wire: a payload length and the padded
/// payload buffer.  Built once per outgoing message and consumed by the
/// write path; never mutated after construction.
pub struct MidiFrame {
    len: u8,
    payload: Vec<u8>,
}

impl MidiFrame {
    /// The frame's invariant: the length fits the capacity, the buffer is
    /// exactly the capacity, and the padding is zero.
    pub closed spec fn wf(&self) -> bool {
        &&& self.len <= 32
        &&& self.payload@.len() == 32
        &&& forall|i: int| self.len <= i < 32 ==> self.payload@[i] == 0
    }

    /// The raw message this frame carries.
    pub closed spec fn payload_view(&self) -> Seq<u8> {
        self.payload@.take(self.len as int)
    }

    /// Build a frame from a raw message, truncating it to the capacity and
    /// zero-extending the buffer.
    pub fn from_bytes(value: &[u8]) -> (f: MidiFrame)
        ensures
            f.wf(),
            f.payload_view() == value@.take(clamp_len(value@.len()) as int),
    {
        let n: usize = value.len();
        let take: usize = if n <= 32 {
            n
        } else {
            32
        };
        let mut buf: Vec<u8> = Vec::new();
        let mut i: usize = 0;
        while i < take
            invariant
                i <= take,
                take <= 32,
                take <= value@.len(),
                buf@ =~= value@.take(i as int),
            decreases take - i,
        {
            buf.push(value[i]);
            proof {
                assert(buf@ =~= value@.take(i as int + 1));
            }
            i = i + 1;
        }
        while i < 32
            invariant
                take <= i <= 32,
                buf@.len() == i,
                buf@.take(take as int) =~= value@.take(take as int),
                forall|j: int| take <= j < i ==> buf@[j] == 0,
            decreases 32 - i,
        {
            buf.push(0);
            i = i + 1;
        }
        let f = MidiFrame { len: take as u8, payload: buf };
        proof {
            assert(f.payload_view() =~= value@.take(take as int));
        }
        f
    }

    /// The 33-byte wire image of this frame.
    pub fn serialize(&self) -> (w: Vec<u8>)
        requires
            self.wf(),
        ensures
            w@ == spec_encode(self.payload_view()),
            w@.len() == 33,
    {
        let mut w: Vec<u8> = Vec::new();
        w.push(self.len);
        let mut i: usize = 0;
        while i < 32
            invariant
                i <= 32,
                self.wf(),
                w@.len() == 1 + i,
                w@[0] == self.len,
                forall|j: int| 0 <= j < i ==> w@[j + 1] == self.payload@[j],
            decreases 32 - i,
        {
            let b: u8 = self.payload[i];
            w.push(b);
            i = i + 1;
        }
        proof {
            let raw = self.payload_view();
            assert(clamp_len(raw.len()) == self.len as nat);
            assert forall|k: int| 0 <= k < 33 implies w@[k] == spec_encode(raw)[k] by {
                if k > 0 {
                    assert(w@[(k - 1) + 1] == self.payload@[k - 1]);
                    if k - 1 < self.len {
                        assert(spec_encode(raw)[k] == raw[k - 1]);
                    } else {
                        assert(self.payload@[k - 1] == 0);
                    }
                }
            }
            assert(w@ =~= spec_encode(raw));
        }
        w
    }

    /// The payload carried by a 33-byte wire buffer, per its own length
    /// byte; a corrupt length byte above the capacity is clamped.
    pub fn get_payload(src: &[u8]) -> (p: Vec<u8>)
        requires
            src@.len() == 33,
        ensures
            p@ == spec_decode(src@),
    {
        let l: u8 = src[0];
        let take: usize = if l <= 32 {
            l as usize
        } else {
            32
        };
        let part: &[u8] = &src[1..1 + take];
        let p = vstd::slice::slice_to_vec(part);
        proof {
            assert(p@ =~= spec_decode(src@));
        }
        p
    }
}

/// Frame round trip: decoding the wire image of a message yields the
/// message truncated to the frame capacity; for a message that fits, it
/// yields the message itself.
pub proof fn lemma_frame_round_trip(raw: Seq<u8>)
    ensures
        spec_decode(spec_encode(raw)) == raw.take(clamp_len(raw.len()) as int),
        raw.len() <= 32 ==> spec_decode(spec_encode(raw)) == raw,
{
    let wire = spec_encode(raw);
    assert(wire[0] == clamp_len(raw.len()) as u8);
    assert(spec_decode(wire) =~= raw.take(clamp_len(raw.len()) as int));
    if raw.len() <= 32 {
        assert(raw.take(clamp_len(raw.len()) as int) =~= raw);
    }
}

/// Framing a message already truncated to the capacity gives the same wire
/// image as framing the message itself.
pub proof fn lemma_encode_of_take(raw: Seq<u8>)
    ensures
        spec_encode(raw.take(clamp_len(raw.len()) as int)) == spec_encode(raw),
{
    let t = raw.take(clamp_len(raw.len()) as int);
    assert(t.len() == clamp_len(raw.len()));
    assert(clamp_len(t.len()) == t.len());
    assert(t.take(t.len() as int) =~= t);
    assert(spec_encode(t) =~= spec_encode(raw));
}

/// The whole frames contained in a byte stream, decoded in order.
pub open spec fn frames_msgs(s: Seq<u8>) -> Seq<Seq<u8>>
    decreases s.len(),
{
    if s.len() < 33 {
        seq![]
    } else {
        seq![spec_decode(s.take(33))] + frames_msgs(s.skip(33))
    }
}

/// The bytes of a stream left over after all whole frames: the partial
/// frame still waiting for the rest of its bytes.
pub open spec fn frames_rest(s: Seq<u8>) -> Seq<u8>
    decreases s.len(),
{
    if s.len() < 33 {
        s
    } else {
        frames_rest(s.skip(33))
    }
}

/// Reassembly is chunk-invariant: slicing a stream into frames chunk by
/// chunk, carrying the leftover bytes between chunks, yields the same
/// frames as slicing the concatenated stream at once.
pub proof fn lemma_frames_split(a: Seq<u8>, b: Seq<u8>)
    ensures
        frames_msgs(a + b) == frames_msgs(a) + frames_msgs(frames_rest(a) + b),
        frames_rest(a + b) == frames_rest(frames_rest(a) + b),
    decreases a.len(),
{
    if a.len() < 33 {
        assert(frames_rest(a) + b =~= a + b);
        assert(frames_msgs(a + b) =~~= frames_msgs(a) + frames_msgs(frames_rest(a) + b));
    } else {
        assert((a + b).len() >= 33);
        assert((a + b).take(33) =~= a.take(33));
        assert((a + b).skip(33) =~= a.skip(33) + b);
        lemma_frames_split(a.skip(33), b);
        assert(frames_rest(a) == frames_rest(a.skip(33)));
        assert(frames_msgs(a + b) =~~= frames_msgs(a) + frames_msgs(frames_rest(a) + b));
    }
}

/// The frames reassembled while consuming a sequence of read chunks one at
/// a time, carrying the leftover bytes from each chunk to the next.
pub open spec fn frames_msgs_chunked(pending: Seq<u8>, chunks: Seq<Seq<u8>>) -> Seq<Seq<u8>>
    decreases chunks.len(),
{
    if chunks.len() == 0 {
        seq![]
    } else {
        frames_msgs(pending + chunks[0]) + frames_msgs_chunked(
            frames_rest(pending + chunks[0]),
            chunks.drop_first(),
        )
    }
}

/// The leftover bytes after consuming a sequence of read chunks one at a
/// time.
pub open spec fn frames_rest_chunked(pending: Seq<u8>, chunks: Seq<Seq<u8>>) -> Seq<u8>
    decreases chunks.len(),
{
    if chunks.len() == 0 {
        pending
    } else {
        frames_rest_chunked(frames_rest(pending + chunks[0]), chunks.drop_first())
    }
}

/// Leftover bytes never hold a whole frame.
pub proof fn lemma_frames_rest_short(s: Seq<u8>)
    ensures
        frames_rest(s).len() < 33,
    decreases s.len(),
{
    if s.len() >= 33 {
        lemma_frames_rest_short(s.skip(33));
    }
}

/// Chunk invariance of reassembly: consuming a stream chunk by chunk yields
/// the same frames, and the same leftover bytes, as consuming the
/// concatenated stream at once.
pub proof fn lemma_frames_chunk_invariance(pending: Seq<u8>, chunks: Seq<Seq<u8>>)
    requires
        pending.len() < 33,
    ensures
        frames_msgs_chunked(pending, chunks) == frames_msgs(pending + crate::concat_chunks(chunks)),
        frames_rest_chunked(pending, chunks) == frames_rest(pending + crate::concat_chunks(chunks)),
    decreases chunks.len(),
{
    if chunks.len() == 0 {
        assert(pending + crate::concat_chunks(chunks) =~= pending);
        assert(frames_msgs_chunked(pending, chunks) =~~= frames_msgs(pending));
    } else {
        let head = pending + chunks[0];
        let tail = crate::concat_chunks(chunks.drop_first());
        lemma_frames_rest_short(head);
        lemma_frames_chunk_invariance(frames_rest(head), chunks.drop_first());
        lemma_frames_split(head, tail);
        assert(pending + crate::concat_chunks(chunks) =~= head + tail);
        assert(frames_msgs_chunked(pending, chunks) =~~= frames_msgs(
            pending + crate::concat_chunks(chunks),
        ));
    }
}

/// The wire stream carrying the given messages, one frame each, in order.
pub open spec fn encode_all(msgs: Seq<Seq<u8>>) -> Seq<u8>
    decreases msgs.len(),
{
    if msgs.len() == 0 {
        seq![]
    } else {
        spec_encode(msgs[0]) + encode_all(msgs.drop_first())
    }
}

/// End-to-end framing round trip: the wire stream built from messages that
/// fit one frame each reassembles and decodes to exactly those messages,
/// with no bytes left over.  Together with `lemma_frames_split` this holds
/// however the stream is re-chunked in transit.
pub proof fn lemma_bridge_round_trip(msgs: Seq<Seq<u8>>)
    requires
        forall|i: int| 0 <= i < msgs.len() ==> #[trigger] msgs[i].len() <= 32,
    ensures
        frames_msgs(encode_all(msgs)) == msgs,
        frames_rest(encode_all(msgs)) == Seq::<u8>::empty(),
    decreases msgs.len(),
{
    if msgs.len() == 0 {
        assert(encode_all(msgs).len() == 0);
        assert(frames_msgs(encode_all(msgs)) =~~= msgs);
        assert(frames_rest(encode_all(msgs)) =~= Seq::<u8>::empty());
    } else {
        let head = msgs[0];
        let wire = encode_all(msgs);
        let head_wire = spec_encode(head);
        assert(head_wire.len() == 33);
        assert(wire.take(33) =~= head_wire);
        assert(wire.skip(33) =~= encode_all(msgs.drop_first()));
        lemma_frame_round_trip(head);
        assert(spec_decode(wire.take(33)) == head);
        lemma_bridge_round_trip(msgs.drop_first());
        assert(frames_msgs(wire) =~~= msgs);
    }
}

} // verus!
