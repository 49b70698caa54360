//! Byte-stream reassembly of frames: a reader fed one byte at a
//! time that re-synchronises on the two header bytes, plus the codec
//! that classifies completed frames into serial events.

use vstd::prelude::*;

verus! {

use crate::frame::{Frame, FrameError, frame_err, frame_matches_bytes, frame_bytes, frame_len16,
    encode_frame, decode_frame, FRAME_HEADER_0, FRAME_HEADER_1, FRAME_VERSION, MSG_CARD_DETECTED,
    MSG_CARD_WRITE_RESULT};
use crate::serial::{CardAck, CardDetected, CardWriteRequest, CardWriteResult, card_ack_payload,
    card_write_request_payload, card_detected_from_frame, card_write_result_from_frame,
    card_detected_fields, card_write_result_fields};
use crate::wire::{u16_from_le, u16_from_le_bytes, lemma_u16_le};

/// The reader drops its buffer when a byte breaks the header or
/// version prefix.
pub open spec fn reader_resets(s: Seq<u8>, b: u8) -> bool {
    ||| (s.len() == 0 && b != FRAME_HEADER_0)
    ||| (s.len() == 1 && b != FRAME_HEADER_1)
    ||| (s.len() == 2 && b != FRAME_VERSION)
}

/// With this byte the buffer reaches the full length its length
/// field declares, and a decode is attempted.
pub open spec fn reader_completes(s: Seq<u8>, b: u8) -> bool {
    &&& !reader_resets(s, b)
    &&& s.push(b).len() >= 5
    &&& s.push(b).len() == 7 + u16_from_le(s.push(b)[3], s.push(b)[4])
}

/// The reader's buffer after one byte: grown, or empty again after
/// a reset or a completed frame.
pub open spec fn step_buf(s: Seq<u8>, b: u8) -> Seq<u8> {
    if reader_resets(s, b) || reader_completes(s, b) {
        Seq::empty()
    } else {
        s.push(b)
    }
}

/// The reader's buffer after a whole run of bytes.
pub open spec fn feed_buf(s: Seq<u8>, bytes: Seq<u8>) -> Seq<u8>
    decreases bytes.len(),
{
    if bytes.len() == 0 {
        s
    } else {
        feed_buf(step_buf(s, bytes[0]), bytes.drop_first())
    }
}

/// A buffer the reader can actually be holding: a prefix of a frame
/// that has passed the header and version checks and has not yet
/// reached its declared length.
pub open spec fn buf_wf(s: Seq<u8>) -> bool {
    &&& s.len() >= 1 ==> s[0] == FRAME_HEADER_0
    &&& s.len() >= 2 ==> s[1] == FRAME_HEADER_1
    &&& s.len() >= 3 ==> s[2] == FRAME_VERSION
    &&& s.len() >= 5 ==> s.len() < 7 + u16_from_le(s[3], s[4])
}

/// Reassembles frames from a byte stream.
pub struct FrameReader {
    buffer: Vec<u8>,
    expected_len: Option<usize>,
}

impl FrameReader {
    pub closed spec fn wf(&self) -> bool {
        &&& buf_wf(self.buffer@)
        &&& (self.expected_len matches Some(e) ==> self.buffer@.len() >= 5 && e == 7 + u16_from_le(
            self.buffer@[3],
            self.buffer@[4],
        ))
        &&& (self.expected_len is None ==> self.buffer@.len() < 5)
    }

    pub closed spec fn buf(&self) -> Seq<u8> {
        self.buffer@
    }

    /// A fresh reader with an empty buffer.
    pub fn new() -> (r: Self)
        ensures
            r.wf(),
            r.buf() == Seq::<u8>::empty(),
    {
        Self { buffer: Vec::new(), expected_len: None }
    }

    /// Feeds one byte. Returns a decoded frame (or its decode error)
    /// exactly when the byte completes a declared frame length, a
    /// version error when the third byte is wrong, and nothing
    /// otherwise.
    pub fn push(&mut self, byte: u8) -> (r: Option<Result<Frame, FrameError>>)
        requires
            old(self).wf(),
        ensures
            final(self).wf(),
            final(self).buf() == step_buf(old(self).buf(), byte),
            old(self).buf().len() == 2 && byte != FRAME_VERSION ==> r == Some(
                Err::<Frame, FrameError>(FrameError::BadVersion),
            ),
            reader_completes(old(self).buf(), byte) ==> {
                let nb = old(self).buf().push(byte);
                &&& (frame_err(nb) matches Some(e) ==> r == Some(Err::<Frame, FrameError>(e)))
                &&& (frame_err(nb) is None ==> (r matches Some(Ok(f)) && frame_matches_bytes(
                    f,
                    nb,
                )))
            },
            !reader_completes(old(self).buf(), byte) && !(old(self).buf().len() == 2 && byte
                != FRAME_VERSION) ==> r is None,
    {
        self.buffer.push(byte);

        if self.buffer.len() == 1 && byte != FRAME_HEADER_0 {
            self.reset();
            return None;
        }
        if self.buffer.len() == 2 && byte != FRAME_HEADER_1 {
            self.reset();
            return None;
        }
        if self.buffer.len() == 3 && byte != FRAME_VERSION {
            self.reset();
            return Some(Err(FrameError::BadVersion));
        }
        if self.buffer.len() == 5 {
            let len = u16_from_le_bytes(self.buffer[3], self.buffer[4]) as usize;
            self.expected_len = Some(7 + len);
        }
        if let Some(expected) = self.expected_len {
            if self.buffer.len() == expected {
                let frame = decode_frame(self.buffer.as_slice());
                self.reset();
                return Some(frame);
            }
        }
        None
    }

    fn reset(&mut self)
        ensures
            final(self).buf() == Seq::<u8>::empty(),
            final(self).expected_len is None,
            final(self).wf(),
    {
        self.buffer.clear();
        self.expected_len = None;
    }
}

/// Turns a frame back into the bytes that carry it.
pub fn frame_to_bytes(frame: &Frame) -> (r: Vec<u8>)
    ensures
        r@ == frame_bytes(frame.msg_type, frame.flags, frame.payload@),
{
    encode_frame(frame)
}

/// An event the serial link can hand the gateway.
pub enum SerialEvent {
    CardDetected(CardDetected),
    CardWriteResult(CardWriteResult),
}

/// Frame reassembly plus classification into serial events.
pub struct SerialFrameCodec {
    reader: FrameReader,
}

impl SerialFrameCodec {
    pub closed spec fn wf(&self) -> bool {
        self.reader.wf()
    }

    pub closed spec fn buf(&self) -> Seq<u8> {
        self.reader.buf()
    }

    pub fn new() -> (r: Self)
        ensures
            r.wf(),
            r.buf() == Seq::<u8>::empty(),
    {
        Self { reader: FrameReader::new() }
    }

    /// Feeds one byte; on a completed frame of a known type, hands
    /// out the decoded event.
    pub fn push_byte(&mut self, byte: u8) -> (r: Option<Result<SerialEvent, FrameError>>)
        requires
            old(self).wf(),
        ensures
            final(self).wf(),
            final(self).buf() == step_buf(old(self).buf(), byte),
            !reader_completes(old(self).buf(), byte) && !(old(self).buf().len() == 2 && byte != 1)
                ==> r is None,
            reader_completes(old(self).buf(), byte) && frame_err(old(self).buf().push(byte))
                is None ==> {
                let nb = old(self).buf().push(byte);
                let t = nb[5];
                &&& (t == MSG_CARD_DETECTED && card_detected_fields(
                    nb.subrange(7, 5 + u16_from_le(nb[3], nb[4]) as int),
                ) is Some ==> {
                    let fields = card_detected_fields(
                        nb.subrange(7, 5 + u16_from_le(nb[3], nb[4]) as int),
                    ).unwrap();
                    &&& (r matches Some(Ok(SerialEvent::CardDetected(m))) && m.tap_time
                        == fields.1 as u64 && m.reader_id == fields.2 && m.card_data@ == fields.3
                        && (vstd::utf8::valid_utf8(fields.0) ==> m.card_id@
                        == vstd::utf8::decode_utf8(fields.0)))
                })
                &&& (t == MSG_CARD_WRITE_RESULT && card_write_result_fields(
                    nb.subrange(7, 5 + u16_from_le(nb[3], nb[4]) as int),
                ) is Some ==> (r matches Some(Ok(SerialEvent::CardWriteResult(w)))
                    && card_write_result_fields(
                    nb.subrange(7, 5 + u16_from_le(nb[3], nb[4]) as int),
                ) == Some(w)))
            },
    {
        let result = match self.reader.push(byte) {
            Some(v) => v,
            None => {
                return None;
            },
        };
        match result {
            Ok(frame) => {
                if let Some(event) = card_detected_from_frame(&frame) {
                    return Some(Ok(SerialEvent::CardDetected(event)));
                }
                if let Some(result) = card_write_result_from_frame(&frame) {
                    return Some(Ok(SerialEvent::CardWriteResult(result)));
                }
                Some(Err(FrameError::BadLength))
            },
            Err(err) => Some(Err(err)),
        }
    }

    /// Encodes an ACK into its frame bytes.
    pub fn ack_to_bytes(ack: &CardAck) -> (r: Vec<u8>)
        ensures
            r@ == frame_bytes(crate::frame::MSG_CARD_ACK, 0, card_ack_payload(*ack)),
    {
        frame_to_bytes(&ack.to_frame())
    }

    /// Encodes a write request into its frame bytes.
    pub fn write_req_to_bytes(req: &CardWriteRequest) -> (r: Vec<u8>)
        ensures
            r@ == frame_bytes(
                crate::frame::MSG_CARD_WRITE_REQ,
                0,
                card_write_request_payload(*req),
            ),
    {
        frame_to_bytes(&req.to_frame())
    }
}

// ---------------------------------------------------------------
// Streaming laws
// ---------------------------------------------------------------

/// Feeding the concatenation of two runs is feeding one, then the
/// other.
pub proof fn lemma_feed_concat(s: Seq<u8>, a: Seq<u8>, b: Seq<u8>)
    ensures
        feed_buf(s, a + b) == feed_buf(feed_buf(s, a), b),
    decreases a.len(),
{
    if a.len() == 0 {
        assert(a + b =~= b);
    } else {
        assert((a + b)[0] == a[0]);
        assert((a + b).drop_first() =~= a.drop_first() + b);
        lemma_feed_concat(step_buf(s, a[0]), a.drop_first(), b);
    }
}

/// Fed the bytes of one encoded frame, an empty reader accumulates
/// them exactly: after any proper prefix the buffer holds that
/// prefix and nothing has been emitted, and the last byte completes
/// the frame, which decodes without error.
pub proof fn lemma_reader_streams_frame(t: u8, fl: u8, p: Seq<u8>, k: int)
    requires
        p.len() <= 65533,
        0 <= k < frame_bytes(t, fl, p).len(),
    ensures
        feed_buf(Seq::empty(), frame_bytes(t, fl, p).take(k)) == frame_bytes(t, fl, p).take(k),
        !reader_completes(
            frame_bytes(t, fl, p).take(k),
            frame_bytes(t, fl, p)[k],
        ) || k == frame_bytes(t, fl, p).len() - 1,
        !reader_resets(frame_bytes(t, fl, p).take(k), frame_bytes(t, fl, p)[k]),
        k == frame_bytes(t, fl, p).len() - 1 ==> reader_completes(
            frame_bytes(t, fl, p).take(k),
            frame_bytes(t, fl, p)[k],
        ) && frame_err(frame_bytes(t, fl, p)) is None,
    decreases k,
{
    let enc = frame_bytes(t, fl, p);
    let n = enc.len();
    assert(frame_len16(p.len()) == p.len() + 2);
    lemma_u16_le(frame_len16(p.len()), 0, 0);
    assert(n == 9 + p.len());
    assert(enc[0] == FRAME_HEADER_0 && enc[1] == FRAME_HEADER_1 && enc[2] == FRAME_VERSION);
    assert(u16_from_le(enc[3], enc[4]) == p.len() + 2);

    if k > 0 {
        lemma_reader_streams_frame(t, fl, p, k - 1);
        assert(enc.take(k - 1).push(enc[k - 1]) =~= enc.take(k));
        assert(enc.take(k) =~= enc.take(k - 1) + seq![enc[k - 1]]);
        lemma_feed_concat(Seq::empty(), enc.take(k - 1), seq![enc[k - 1]]);
        assert(seq![enc[k - 1]].drop_first() =~= Seq::<u8>::empty());
        assert(feed_buf(step_buf(enc.take(k - 1), enc[k - 1]), Seq::empty()) == step_buf(
            enc.take(k - 1),
            enc[k - 1],
        ));
        assert(feed_buf(enc.take(k - 1), seq![enc[k - 1]]) == step_buf(enc.take(k - 1), enc[k - 1]));
    }
    let pre = enc.take(k);
    assert(pre.len() == k);
    if k >= 1 {
        assert(pre[0] == enc[0]);
    }
    if k >= 2 {
        assert(pre[1] == enc[1]);
    }
    if k >= 3 {
        assert(pre[2] == enc[2]);
    }
    if k >= 5 {
        assert(pre[3] == enc[3] && pre[4] == enc[4]);
    }
    let nb = pre.push(enc[k]);
    assert(nb =~= enc.take(k + 1));
    if k + 1 >= 5 {
        assert(nb[3] == enc[3] && nb[4] == enc[4]);
        assert(7 + u16_from_le(nb[3], nb[4]) == n);
    }
    if k == n - 1 {
        assert(nb =~= enc);
        crate::frame::lemma_frame_bytes_decode(t, fl, p);
    }
}

/// A run of bytes none of which is the first header byte leaves an
/// empty reader empty and never completes a frame: the reader
/// re-synchronises after arbitrary such noise.
pub proof fn lemma_reader_ignores_noise(noise: Seq<u8>)
    requires
        forall|i: int| 0 <= i < noise.len() ==> noise[i] != FRAME_HEADER_0,
    ensures
        feed_buf(Seq::empty(), noise) == Seq::<u8>::empty(),
        forall|i: int| 0 <= i < noise.len() ==> !reader_completes(
            feed_buf(Seq::empty(), noise.take(i)),
            noise[i],
        ),
    decreases noise.len(),
{
    if noise.len() > 0 {
        assert(reader_resets(Seq::empty(), noise[0]));
        assert(step_buf(Seq::empty(), noise[0]) == Seq::<u8>::empty());
        lemma_reader_ignores_noise(noise.drop_first());
        assert(feed_buf(Seq::empty(), noise) == feed_buf(Seq::empty(), noise.drop_first()));
        assert forall|i: int| 0 <= i < noise.len() implies !reader_completes(
            feed_buf(Seq::empty(), noise.take(i)),
            noise[i],
        ) by {
            if i == 0 {
                assert(noise.take(0) =~= Seq::<u8>::empty());
            } else {
                assert(noise.take(i) =~= seq![noise[0]] + noise.drop_first().take(i - 1));
                lemma_feed_concat(Seq::empty(), seq![noise[0]], noise.drop_first().take(i - 1));
                assert(seq![noise[0]].drop_first() =~= Seq::<u8>::empty());
                assert(feed_buf(step_buf(Seq::empty(), noise[0]), Seq::empty())
                    == Seq::<u8>::empty());
                assert(feed_buf(Seq::empty(), seq![noise[0]]) == Seq::<u8>::empty());
                assert(feed_buf(Seq::empty(), noise.take(i)) == feed_buf(
                    Seq::empty(),
                    noise.drop_first().take(i - 1),
                ));
                assert(noise.drop_first()[i - 1] == noise[i]);
            }
        }
    }
}

/// Noise without the header byte followed by an encoded frame drives
/// the reader through exactly the frame's own prefixes: the garbage
/// is discarded and the frame is recovered whole.
pub proof fn lemma_reader_resyncs(noise: Seq<u8>, t: u8, fl: u8, p: Seq<u8>, k: int)
    requires
        forall|i: int| 0 <= i < noise.len() ==> noise[i] != FRAME_HEADER_0,
        p.len() <= 65533,
        0 <= k < frame_bytes(t, fl, p).len(),
    ensures
        feed_buf(Seq::empty(), noise + frame_bytes(t, fl, p).take(k)) == frame_bytes(
            t,
            fl,
            p,
        ).take(k),
        k == frame_bytes(t, fl, p).len() - 1 ==> reader_completes(
            frame_bytes(t, fl, p).take(k),
            frame_bytes(t, fl, p)[k],
        ) && frame_err(frame_bytes(t, fl, p)) is None,
{
    lemma_reader_ignores_noise(noise);
    lemma_feed_concat(Seq::empty(), noise, frame_bytes(t, fl, p).take(k));
    lemma_reader_streams_frame(t, fl, p, k);
}

} // verus!
