//! Resynchronizing frame decoder for the serial byte stream.
//!
//! The decoder owns an accumulation buffer of bytes not yet consumed
//! into a message.  `push` appends freshly read bytes; `try_take_one`
//! scans for the start marker, discards noise in front of it, and
//! yields at most one typed message per call.  A truncated frame is
//! left in the buffer untouched (marker and opcode included) until more
//! bytes arrive; an unknown opcode is reported as a protocol error and
//! scanning resumes from the byte after the marker, so one bad frame
//! never ends the stream.

use vstd::prelude::*;

use crate::insteon_structs::{InsteonMsg, MSG_BEGIN, get_msg_size, is_decode_of, payload_size};
use vstd::slice::{slice_subrange, slice_to_vec};

verus! {

/// The outcome of one scan over the accumulation buffer.
#[derive(Clone, Copy, Debug, PartialEq)]
pub enum FrameEvent {
    /// One complete frame was consumed and decoded.
    Message(InsteonMsg),
    /// A marker was followed by an opcode outside the registry; the
    /// frame is skipped and the opcode byte reported.
    ProtocolError(u8),
    /// No complete frame is in the buffer yet.
    Pending,
}

/// The outcome of one scan, at the specification level: what the scan
/// found, with a decoded frame kept as its opcode and raw payload.
pub enum FrameStep {
    Pending,
    Error(u8),
    Frame(u8, Seq<u8>),
}

/// The index of the first start marker in the buffer, if any.
pub open spec fn first_marker(b: Seq<u8>) -> Option<int>
    decreases b.len(),
{
    if b.len() == 0 {
        None
    } else if b[0] == MSG_BEGIN {
        Some(0)
    } else {
        match first_marker(b.skip(1)) {
            None => None,
            Some(i) => Some(i + 1),
        }
    }
}

/// `first_marker` returns the least index holding the marker byte, and
/// `None` exactly when no byte of the buffer is the marker.
pub proof fn lemma_first_marker_props(b: Seq<u8>)
    ensures
        match first_marker(b) {
            Some(i) => {
                &&& 0 <= i < b.len()
                &&& b[i] == MSG_BEGIN
                &&& forall|j: int| 0 <= j < i ==> b[j] != MSG_BEGIN
            },
            None => forall|j: int| 0 <= j < b.len() ==> b[j] != MSG_BEGIN,
        },
    decreases b.len(),
{
    if b.len() != 0 && b[0] != MSG_BEGIN {
        let tail = b.skip(1);
        lemma_first_marker_props(tail);
        match first_marker(tail) {
            None => {
                assert forall|j: int| 0 <= j < b.len() implies b[j] != MSG_BEGIN by {
                    if j > 0 {
                        assert(b[j] == tail[j - 1]);
                    }
                }
            },
            Some(i) => {
                assert(b[i + 1] == tail[i]);
                assert forall|j: int| 0 <= j < i + 1 implies b[j] != MSG_BEGIN by {
                    if j > 0 {
                        assert(b[j] == tail[j - 1]);
                    }
                }
            },
        }
    }
}

/// One scan of a buffer, at the specification level: the step found
/// and the bytes that remain in the buffer afterwards.
pub open spec fn step_spec(b: Seq<u8>) -> (FrameStep, Seq<u8>) {
    match first_marker(b) {
        None => (FrameStep::Pending, Seq::<u8>::empty()),
        Some(i) => {
            let t = b.skip(i);
            if t.len() < 2 {
                (FrameStep::Pending, t)
            } else {
                let op = t[1];
                match payload_size(op) {
                    None => (FrameStep::Error(op), t.skip(1)),
                    Some(sz) => {
                        if t.len() < 2 + sz {
                            (FrameStep::Pending, t)
                        } else {
                            (
                                FrameStep::Frame(op, t.subrange(2, 2 + sz as int)),
                                t.skip(2 + sz as int),
                            )
                        }
                    },
                }
            }
        },
    }
}

/// Noise bytes in front of a buffer shift the first marker by their
/// length and change nothing else about where it is.
pub proof fn lemma_first_marker_prepend(noise: Seq<u8>, b: Seq<u8>)
    requires
        forall|j: int| 0 <= j < noise.len() ==> noise[j] != MSG_BEGIN,
    ensures
        match first_marker(b) {
            None => first_marker(noise + b) is None,
            Some(i) => first_marker(noise + b) == Some(noise.len() + i),
        },
    decreases noise.len(),
{
    if noise.len() == 0 {
        assert(noise + b =~= b);
    } else {
        assert((noise + b)[0] == noise[0]);
        assert((noise + b).skip(1) =~= noise.skip(1) + b);
        lemma_first_marker_prepend(noise.skip(1), b);
    }
}

/// A scan of a buffer that carries exactly one whole frame — the
/// marker, a registered opcode, and a payload of the length the
/// registry assigns to that opcode — consumes all of it and yields the
/// frame's opcode and payload.
pub proof fn lemma_whole_frame_decodes(op: u8, p: Seq<u8>)
    requires
        payload_size(op) matches Some(sz) && p.len() == sz,
    ensures
        ({
            let (st, rest) = step_spec(seq![MSG_BEGIN, op] + p);
            &&& st matches FrameStep::Frame(o, q) && o == op && q =~= p
            &&& rest =~= Seq::<u8>::empty()
        }),
{
    let b = seq![MSG_BEGIN, op] + p;
    assert(b[0] == MSG_BEGIN);
    assert(first_marker(b) == Some(0int));
    assert(b.skip(0) =~= b);
    let sz = payload_size(op)->Some_0;
    assert(b.subrange(2, 2 + sz as int) =~= p);
}

/// A scan of a buffer that begins with one whole frame consumes
/// exactly that frame — marker, opcode, and as many payload bytes as
/// the registry assigns to the opcode — and leaves every byte after it
/// in the buffer for the next scan.
pub proof fn lemma_frame_with_trailing(op: u8, p: Seq<u8>, trailing: Seq<u8>)
    requires
        payload_size(op) matches Some(sz) && p.len() == sz,
    ensures
        ({
            let (st, rest) = step_spec(seq![MSG_BEGIN, op] + p + trailing);
            &&& st matches FrameStep::Frame(o, q) && o == op && q =~= p
            &&& rest =~= trailing
        }),
{
    let b = seq![MSG_BEGIN, op] + p + trailing;
    assert(b[0] == MSG_BEGIN);
    assert(first_marker(b) == Some(0int));
    assert(b.skip(0) =~= b);
    let sz = payload_size(op)->Some_0;
    assert(b.subrange(2, 2 + sz as int) =~= p);
    assert(b.skip(2 + sz as int) =~= trailing);
}

/// A scan of a buffer whose frame is still truncated — marker and
/// registered opcode present, but fewer payload bytes than the registry
/// asks for — waits and consumes nothing, so repeating the scan on the
/// same bytes is a no-op until more bytes arrive.
pub proof fn lemma_short_frame_pending(op: u8, p: Seq<u8>)
    requires
        payload_size(op) matches Some(sz) && p.len() < sz,
    ensures
        ({
            let (st, rest) = step_spec(seq![MSG_BEGIN, op] + p);
            &&& st is Pending
            &&& rest =~= seq![MSG_BEGIN, op] + p
        }),
{
    let b = seq![MSG_BEGIN, op] + p;
    assert(b[0] == MSG_BEGIN);
    assert(first_marker(b) == Some(0int));
    assert(b.skip(0) =~= b);
}

/// Noise bytes in front of the first marker do not change what a scan
/// yields: the step found, and the bytes left in the buffer, are those
/// of the buffer without the noise.
pub proof fn lemma_noise_discarded(noise: Seq<u8>, b: Seq<u8>)
    requires
        forall|j: int| 0 <= j < noise.len() ==> noise[j] != MSG_BEGIN,
    ensures
        step_spec(noise + b) == step_spec(b),
{
    lemma_first_marker_prepend(noise, b);
    match first_marker(b) {
        None => {
            lemma_first_marker_props(b);
        },
        Some(i) => {
            lemma_first_marker_props(b);
            assert((noise + b).skip(noise.len() + i) =~= b.skip(i));
        },
    }
}

/// A marker followed by an opcode outside the registry is reported as a
/// protocol error; only the marker is consumed, so the scan resumes at
/// the byte after it and the rest of the stream is kept.
pub proof fn lemma_unknown_opcode_skipped(op: u8, rest: Seq<u8>)
    requires
        payload_size(op) is None,
    ensures
        ({
            let (st, r) = step_spec(seq![MSG_BEGIN, op] + rest);
            &&& st == FrameStep::Error(op)
            &&& r =~= seq![op] + rest
        }),
{
    let b = seq![MSG_BEGIN, op] + rest;
    assert(b[0] == MSG_BEGIN);
    assert(first_marker(b) == Some(0int));
    assert(b.skip(0) =~= b);
    assert(b.skip(1) =~= seq![op] + rest);
}

/// An unknown opcode does not end the stream: after the error step
/// consumed its marker, a scan of what remains still finds a whole
/// frame that follows, exactly as it would with the bad frame absent.
pub proof fn lemma_scanning_resumes_after_error(bad: u8, op: u8, p: Seq<u8>)
    requires
        payload_size(bad) is None,
        bad != MSG_BEGIN,
        payload_size(op) matches Some(sz) && p.len() == sz,
    ensures
        ({
            let frame = seq![MSG_BEGIN, op] + p;
            let (st1, r1) = step_spec(seq![MSG_BEGIN, bad] + frame);
            let (st2, r2) = step_spec(r1);
            &&& st1 == FrameStep::Error(bad)
            &&& st2 matches FrameStep::Frame(o, q) && o == op && q =~= p
            &&& r2 =~= Seq::<u8>::empty()
        }),
{
    let frame = seq![MSG_BEGIN, op] + p;
    lemma_unknown_opcode_skipped(bad, frame);
    let r1 = step_spec(seq![MSG_BEGIN, bad] + frame).1;
    assert(r1 =~= seq![bad] + frame);
    lemma_noise_discarded(seq![bad], frame);
    lemma_whole_frame_decodes(op, p);
}

/// Frame decoder state: the bytes read from the transport but not yet
/// consumed into messages.
pub struct LineCodec {
    buf: Vec<u8>,
}

impl View for LineCodec {
    type V = Seq<u8>;

    closed spec fn view(&self) -> Seq<u8> {
        self.buf@
    }
}

/// Removes the first `n` bytes of `v`.
fn drop_front(v: &mut Vec<u8>, n: usize)
    requires
        n <= old(v)@.len(),
    ensures
        final(v)@ == old(v)@.skip(n as int),
{
    let tail = slice_to_vec(slice_subrange(v.as_slice(), n, v.len()));
    proof {
        assert(tail@ =~= v@.skip(n as int));
    }
    *v = tail;
}

impl LineCodec {
    /// A decoder with an empty accumulation buffer.
    pub fn new() -> (c: LineCodec)
        ensures
            c@ == Seq::<u8>::empty(),
    {
        LineCodec { buf: Vec::new() }
    }

    /// Appends freshly read transport bytes to the accumulation buffer.
    pub fn push(&mut self, bytes: &[u8])
        ensures
            final(self)@ == old(self)@ + bytes@,
    {
        self.buf.extend_from_slice(bytes);
        proof {
            assert(self.buf@ =~= old(self)@ + bytes@);
        }
    }

    /// Scans the buffer once: discards noise in front of the first
    /// start marker, and consumes at most one frame.  The result and
    /// the remaining buffer are exactly what `step_spec` gives for the
    /// buffer before the call; a decoded message holds the consumed
    /// frame's payload bytes, field for field.  Callers drain a burst
    /// of input by calling this repeatedly until it yields `Pending`.
    pub fn try_take_one(&mut self) -> (r: FrameEvent)
        ensures
            ({
                let (st, rest) = step_spec(old(self)@);
                &&& final(self)@ == rest
                &&& match st {
                    FrameStep::Pending => r == FrameEvent::Pending,
                    FrameStep::Error(op) => r == FrameEvent::ProtocolError(op),
                    FrameStep::Frame(op, p) => r matches FrameEvent::Message(m) && is_decode_of(
                        m,
                        op,
                        p,
                    ),
                }
            }),
    {
        let ghost b0 = self.buf@;
        // Find the first start marker; everything before it is noise.
        let mut idx: usize = 0;
        let mut found = false;
        while !found && idx < self.buf.len()
            invariant
                0 <= idx <= self.buf@.len(),
                self.buf@ == b0,
                forall|j: int| 0 <= j < idx ==> b0[j] != MSG_BEGIN,
                found ==> idx < b0.len() && b0[idx as int] == MSG_BEGIN,
            decreases b0.len() - idx + (if found { 0int } else { 1int }),
        {
            if self.buf[idx] == MSG_BEGIN {
                found = true;
            } else {
                idx = idx + 1;
            }
        }
        proof {
            lemma_first_marker_props(b0);
        }
        if !found {
            // No marker anywhere: the whole buffer is unrecoverable noise.
            self.buf.clear();
            return FrameEvent::Pending;
        }
        // Drop the noise bytes, keeping the marker at the front.
        drop_front(&mut self.buf, idx);
        proof {
            assert(first_marker(b0) == Some(idx as int));
            assert(self.buf@ == b0.skip(idx as int));
        }
        let ghost t = b0.skip(idx as int);
        if self.buf.len() < 2 {
            // A marker with no opcode yet: keep it and wait for more bytes.
            return FrameEvent::Pending;
        }
        let op = self.buf[1];
        let size = match get_msg_size(&op) {
            Some(size) => size,
            None => {
                // Unknown opcode: skip this frame's marker and resume
                // scanning from the opcode byte on the next call.
                drop_front(&mut self.buf, 1);
                return FrameEvent::ProtocolError(op);
            },
        };
        if self.buf.len() - 2 < size {
            // Known opcode but the payload is still short: leave the
            // buffer untouched, marker and opcode included.
            return FrameEvent::Pending;
        }
        // A whole frame is present: decode it from behind the marker.
        let body = slice_subrange(self.buf.as_slice(), 1, self.buf.len());
        match InsteonMsg::new(body) {
            Some((msg, msg_size)) => {
                proof {
                    assert(body@.subrange(1, 1 + msg_size as int) =~= t.subrange(
                        2,
                        2 + msg_size as int,
                    ));
                }
                drop_front(&mut self.buf, 2 + msg_size);
                FrameEvent::Message(msg)
            },
            None => {
                // The registry promised enough bytes for this opcode.
                proof {
                    assert(false);
                }
                FrameEvent::Pending
            },
        }
    }

    /// Appends an already framed outbound command to the transport's
    /// write buffer, unchanged.
    pub fn encode(&self, item: &[u8], dst: &mut Vec<u8>)
        ensures
            final(dst)@ == old(dst)@ + item@,
    {
        dst.extend_from_slice(item);
        proof {
            assert(dst@ =~= old(dst)@ + item@);
        }
    }
}

} // verus!
