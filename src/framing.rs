use vstd::prelude::*;

use crate::secure_buffer::SecureBuffer;

verus! {

/// Number of bytes in the length prefix that starts every frame.
pub const HEADER_LEN: usize = 4;

/// The largest capacity a frame buffer may have: the payload length must fit the prefix.
pub const MAX_BUFFER_CAPACITY: usize = 0xffff_ffff;

/// The little-endian encoding of `n` in four bytes.
pub open spec fn le_u32_bytes(n: nat) -> Seq<u8> {
    seq![
        (n % 256) as u8,
        ((n / 256) % 256) as u8,
        ((n / 65536) % 256) as u8,
        ((n / 16777216) % 256) as u8,
    ]
}

/// The number that the first four bytes of `b` encode, little-endian.
pub open spec fn le_u32_value(b: Seq<u8>) -> nat
    recommends
        b.len() >= 4,
{
    (b[0] + 256 * b[1] + 65536 * b[2] + 16777216 * b[3]) as nat
}

/// A whole frame on the wire: the length prefix, then the payload.
pub open spec fn frame_of(payload: Seq<u8>) -> Seq<u8> {
    le_u32_bytes(payload.len()) + payload
}

/// Decoding a prefix gives back the length that was encoded.
pub proof fn lemma_le_u32_round_trip(n: nat)
    requires
        n <= 0xffff_ffff,
    ensures
        le_u32_value(le_u32_bytes(n)) == n,
{
    let b = le_u32_bytes(n);
    assert(b[0] == n % 256);
    assert(b[1] == (n / 256) % 256);
    assert(b[2] == (n / 65536) % 256);
    assert(b[3] == (n / 16777216) % 256);
    assert((n % 256) + 256 * ((n / 256) % 256) + 65536 * ((n / 65536) % 256) + 16777216 * ((n
        / 16777216) % 256) == n) by (nonlinear_arith)
        requires
            n <= 0xffff_ffff,
    ;
}

/// Error of a frame whose payload does not fit the buffer's capacity less the prefix.
#[derive(Debug, Clone, Copy, PartialEq, Eq)]
pub struct CapacityExceeded {
    /// The payload length that was asked for.
    pub requested: usize,
    /// The largest payload the buffer can hold.
    pub available: usize,
}

/// Writes the little-endian prefix for `n` into the first four bytes of `buf`.
fn write_prefix(buf: &mut SecureBuffer, n: usize)
    requires
        old(buf)@.len() >= HEADER_LEN,
        n <= MAX_BUFFER_CAPACITY,
    ensures
        final(buf)@ == le_u32_bytes(n as nat) + old(buf)@.subrange(4, old(buf)@.len() as int),
{
    let v: u32 = n as u32;
    buf.set(0, (v % 256) as u8);
    buf.set(1, ((v / 256) % 256) as u8);
    buf.set(2, ((v / 65536) % 256) as u8);
    buf.set(3, ((v / 16777216) % 256) as u8);
    assert(buf@ =~= le_u32_bytes(n as nat) + old(buf)@.subrange(4, old(buf)@.len() as int));
}


/// The outcome of one write attempt on a sink, as the I/O layer reports it.
#[derive(Debug, Clone, Copy, PartialEq, Eq)]
pub enum WriteOutcome {
    /// The sink accepted this many bytes.
    Written(usize),
    /// The sink cannot take bytes now; try again on the next readiness event.
    WouldBlock,
    /// A signal interrupted the call; retry at once.
    Interrupted,
    /// Any other I/O error.
    Failed,
}

/// What the I/O layer does after a write attempt.
#[derive(Debug, Clone, Copy, PartialEq, Eq)]
pub enum FlushStep {
    /// This flush attempt is over (bytes were taken, or the sink would block).
    Done,
    /// Write again at once.
    Retry,
    /// The connection is broken.
    Fail,
}

/// Length-prefix encoder over a fixed-capacity secure buffer.
///
/// The buffer holds one frame: a four-byte little-endian payload length, then the payload.
/// `cursor` counts the bytes of that frame already handed to the sink.
pub struct LengthPrefixEncoder {
    buf: SecureBuffer,
    cursor: usize,
    msg_len: usize,
    /// Every byte handed to the sink so far, in order.
    sent: Ghost<Seq<u8>>,
}

impl LengthPrefixEncoder {
    /// The encoder's internal invariant.
    pub closed spec fn wf(&self) -> bool {
        &&& HEADER_LEN <= self.buf@.len() <= MAX_BUFFER_CAPACITY
        &&& self.msg_len + HEADER_LEN <= self.buf@.len()
        &&& self.cursor <= self.msg_len + HEADER_LEN
        &&& self.buf@.subrange(0, 4) == le_u32_bytes(self.msg_len as nat)
    }

    /// The fixed capacity of the buffer, prefix included.
    pub closed spec fn capacity(&self) -> nat {
        self.buf@.len()
    }

    /// The largest payload a frame can carry.
    pub open spec fn max_payload(&self) -> nat {
        (self.capacity() - HEADER_LEN) as nat
    }

    /// The current frame, prefix included.
    pub closed spec fn frame(&self) -> Seq<u8> {
        self.buf@.subrange(0, self.msg_len + HEADER_LEN)
    }

    /// The bytes of the current frame not yet handed to the sink.
    pub closed spec fn pending(&self) -> Seq<u8> {
        self.buf@.subrange(self.cursor as int, self.msg_len + HEADER_LEN)
    }

    /// The whole buffer, prefix region included.
    pub closed spec fn buffer(&self) -> Seq<u8> {
        self.buf@
    }

    /// The payload region, where the next message is placed before it is framed.
    pub closed spec fn payload_area(&self) -> Seq<u8> {
        self.buf@.subrange(HEADER_LEN as int, self.buf@.len() as int)
    }

    /// Every byte handed to the sink so far.
    pub closed spec fn sent(&self) -> Seq<u8> {
        self.sent@
    }

    /// The whole output stream as it will stand once every pending byte is written.
    pub open spec fn wire(&self) -> Seq<u8> {
        self.sent() + self.pending()
    }

    /// An encoder over a zeroed buffer of `capacity` bytes, with nothing to send.
    pub fn new(capacity: usize) -> (r: LengthPrefixEncoder)
        requires
            HEADER_LEN <= capacity <= MAX_BUFFER_CAPACITY,
        ensures
            r.wf(),
            r.capacity() == capacity,
            r.pending() == Seq::<u8>::empty(),
            r.sent() == Seq::<u8>::empty(),
            r.buffer() == Seq::new(capacity as nat, |_i: int| 0u8),
            r.payload_area() == Seq::new((capacity - HEADER_LEN) as nat, |_i: int| 0u8),
    {
        let buf = SecureBuffer::new(capacity);
        assert(buf@.subrange(0, 4) =~= le_u32_bytes(0));
        assert(buf@.subrange(HEADER_LEN as int, capacity as int) =~= Seq::new(
            (capacity - HEADER_LEN) as nat,
            |_i: int| 0u8,
        ));
        LengthPrefixEncoder { buf, cursor: HEADER_LEN, msg_len: 0, sent: Ghost(Seq::empty()) }
    }

    /// The fixed capacity of the buffer, prefix included.
    pub fn capacity_bytes(&self) -> (r: usize)
        requires
            self.wf(),
        ensures
            r == self.capacity(),
    {
        self.buf.capacity()
    }

    /// True when every byte of the current frame has been handed to the sink.
    pub fn exhausted(&self) -> (r: bool)
        requires
            self.wf(),
        ensures
            r == (self.pending().len() == 0),
    {
        self.cursor == self.msg_len + HEADER_LEN
    }

    /// Copies `src` into the payload region at `offset`, ahead of framing it with
    /// `restart_write_with_new_message`. Only allowed once the current frame is sent.
    pub fn put_payload(&mut self, offset: usize, src: &[u8])
        requires
            old(self).wf(),
            old(self).pending().len() == 0,
            offset + src@.len() <= old(self).max_payload(),
        ensures
            final(self).wf(),
            final(self).capacity() == old(self).capacity(),
            final(self).pending() == Seq::<u8>::empty(),
            final(self).sent() == old(self).sent(),
            final(self).payload_area() == old(self).payload_area().subrange(0, offset as int)
                + src@ + old(self).payload_area().subrange(
                offset + src@.len(),
                old(self).max_payload() as int,
            ),
    {
        let ghost b0 = self.buf@;
        self.buf.copy_in(HEADER_LEN + offset, src);
        assert(self.buf@.subrange(0, 4) =~= b0.subrange(0, 4));
        assert(self.payload_area() =~= old(self).payload_area().subrange(0, offset as int) + src@
            + old(self).payload_area().subrange(offset + src@.len(), old(self).max_payload() as int));
        assert(self.pending() =~= Seq::<u8>::empty());
    }

    /// Frames the first `len` bytes of the payload region as the next message and
    /// starts sending it from its first byte. Fails, changing nothing, when `len`
    /// exceeds the capacity less the prefix.
    pub fn restart_write_with_new_message(&mut self, len: usize) -> (r: Result<(), CapacityExceeded>)
        requires
            old(self).wf(),
        ensures
            final(self).wf(),
            final(self).capacity() == old(self).capacity(),
            final(self).sent() == old(self).sent(),
            final(self).payload_area() == old(self).payload_area(),
            r is Ok <==> len <= old(self).max_payload(),
            r is Ok ==> final(self).pending() == frame_of(old(self).payload_area().subrange(0, len as int)),
            r is Ok ==> final(self).frame() == final(self).pending(),
            r is Err ==> *final(self) == *old(self),
            r matches Err(e) ==> e.requested == len && e.available == old(self).max_payload(),
    {
        let cap = self.buf.capacity();
        if len > cap - HEADER_LEN {
            return Err(CapacityExceeded { requested: len, available: cap - HEADER_LEN });
        }
        let ghost b0 = self.buf@;
        write_prefix(&mut self.buf, len);
        self.msg_len = len;
        self.cursor = 0;
        assert(self.buf@.subrange(0, 4) =~= le_u32_bytes(len as nat));
        assert(self.payload_area() =~= old(self).payload_area());
        assert(self.pending() =~= frame_of(old(self).payload_area().subrange(0, len as int)));
        Ok(())
    }

    /// Places `msg` in the buffer as the next frame, to be sent from its first byte.
    /// Only allowed once the current frame is sent. Fails, changing nothing, when the
    /// message is longer than the capacity less the prefix.
    pub fn emplace(&mut self, msg: &[u8]) -> (r: Result<(), CapacityExceeded>)
        requires
            old(self).wf(),
            old(self).pending().len() == 0,
        ensures
            final(self).wf(),
            final(self).capacity() == old(self).capacity(),
            final(self).sent() == old(self).sent(),
            r is Ok <==> msg@.len() <= old(self).max_payload(),
            r is Ok ==> final(self).pending() == frame_of(msg@),
            r is Ok ==> final(self).wire() == old(self).wire() + frame_of(msg@),
            r is Err ==> *final(self) == *old(self),
            r matches Err(e) ==> e.requested == msg@.len() && e.available == old(self).max_payload(),
    {
        let cap = self.buf.capacity();
        if msg.len() > cap - HEADER_LEN {
            return Err(CapacityExceeded { requested: msg.len(), available: cap - HEADER_LEN });
        }
        self.put_payload(0, msg);
        let r = self.restart_write_with_new_message(msg.len());
        assert(self.payload_area().subrange(0, msg@.len() as int) =~= msg@);
        assert(old(self).pending() =~= Seq::<u8>::empty());
        assert(old(self).wire() =~= old(self).sent());
        r
    }

    /// The bytes of the current frame not yet handed to the sink.
    pub fn pending_bytes(&self) -> (r: &[u8])
        requires
            self.wf(),
        ensures
            r@ == self.pending(),
    {
        self.buf.slice(self.cursor, self.msg_len + HEADER_LEN)
    }

    /// Records that the sink took the next `n` pending bytes.
    pub fn advance(&mut self, n: usize)
        requires
            old(self).wf(),
            n <= old(self).pending().len(),
        ensures
            final(self).wf(),
            final(self).capacity() == old(self).capacity(),
            final(self).frame() == old(self).frame(),
            final(self).payload_area() == old(self).payload_area(),
            final(self).sent() == old(self).sent() + old(self).pending().subrange(0, n as int),
            final(self).pending() == old(self).pending().subrange(n as int, old(self).pending().len() as int),
            final(self).wire() == old(self).wire(),
    {
        let ghost p = self.pending();
        self.sent = Ghost(self.sent@ + p.subrange(0, n as int));
        self.cursor = self.cursor + n;
        assert(self.pending() =~= p.subrange(n as int, p.len() as int));
        assert(self.wire() =~= old(self).wire());
    }

    /// Takes the outcome of one write attempt of `pending_bytes` and says what to do next.
    ///
    /// A count of bytes is recorded when it is in range; a count larger than what was
    /// pending, or zero while bytes were pending, means the sink is broken. A would-block
    /// ends the attempt and an interruption asks for a retry, both changing nothing.
    pub fn after_write(&mut self, outcome: WriteOutcome) -> (r: FlushStep)
        requires
            old(self).wf(),
        ensures
            final(self).wf(),
            final(self).capacity() == old(self).capacity(),
            final(self).wire() == old(self).wire(),
            old(self).sent().is_prefix_of(final(self).sent()),
            final(self).payload_area() == old(self).payload_area(),
            r == write_step(outcome, old(self).pending().len()),
            r == FlushStep::Done ==> (outcome matches WriteOutcome::Written(n) ==> (
                final(self).sent() == old(self).sent() + old(self).pending().subrange(0, n as int)
                && final(self).pending() == old(self).pending().subrange(n as int, old(self).pending().len() as int))),
            !(outcome is Written && r == FlushStep::Done) ==> *final(self) == *old(self),
    {
        match outcome {
            WriteOutcome::Written(n) => {
                let left = self.msg_len + HEADER_LEN - self.cursor;
                if n > left || (n == 0 && left > 0) {
                    FlushStep::Fail
                } else {
                    self.advance(n);
                    assert(self.sent().subrange(0, old(self).sent().len() as int) =~= old(self).sent());
                    FlushStep::Done
                }
            },
            WriteOutcome::WouldBlock => {
                assert(self.sent().subrange(0, self.sent().len() as int) =~= self.sent());
                FlushStep::Done
            },
            WriteOutcome::Interrupted => {
                assert(self.sent().subrange(0, self.sent().len() as int) =~= self.sent());
                FlushStep::Retry
            },
            WriteOutcome::Failed => {
                assert(self.sent().subrange(0, self.sent().len() as int) =~= self.sent());
                FlushStep::Fail
            },
        }
    }
}

/// The decision taken after a write attempt with `left` bytes pending.
pub open spec fn write_step(outcome: WriteOutcome, left: nat) -> FlushStep {
    match outcome {
        WriteOutcome::Written(n) => if n > left || (n == 0 && left > 0) {
            FlushStep::Fail
        } else {
            FlushStep::Done
        },
        WriteOutcome::WouldBlock => FlushStep::Done,
        WriteOutcome::Interrupted => FlushStep::Retry,
        WriteOutcome::Failed => FlushStep::Fail,
    }
}


/// Error of a received prefix that announces more payload than the buffer can hold.
#[derive(Debug, Clone, Copy, PartialEq, Eq)]
pub struct FrameTooLarge {
    /// The payload length that the prefix announced.
    pub announced: usize,
    /// The largest payload the buffer can hold.
    pub available: usize,
}

/// True when `s`, the bytes received of a frame, hold a whole prefix that announces
/// more than `max_payload` bytes.
pub open spec fn announces_too_much(s: Seq<u8>, max_payload: nat) -> bool {
    s.len() >= HEADER_LEN && le_u32_value(s) > max_payload
}

/// True when `s` is one whole frame: a prefix and exactly the payload it announces.
pub open spec fn frame_complete(s: Seq<u8>) -> bool {
    s.len() >= HEADER_LEN && s.len() == le_u32_value(s) + HEADER_LEN
}

/// How many more bytes belong to the frame of which `s` has been received.
pub open spec fn bytes_wanted(s: Seq<u8>) -> int {
    if s.len() < HEADER_LEN {
        HEADER_LEN - s.len()
    } else {
        le_u32_value(s) + HEADER_LEN - s.len()
    }
}

/// The message that `s` carries, once it is a whole frame.
pub open spec fn frame_message(s: Seq<u8>) -> Option<Seq<u8>> {
    if frame_complete(s) {
        Some(s.subrange(HEADER_LEN as int, s.len() as int))
    } else {
        None
    }
}

/// Length-prefix decoder over a fixed-capacity secure buffer.
///
/// Bytes are received into the buffer up to the end of the current frame and never
/// beyond it, so that a stream of frames is taken one frame at a time.
pub struct LengthPrefixDecoder {
    buf: SecureBuffer,
    filled: usize,
}

impl LengthPrefixDecoder {
    /// The decoder's internal invariant: what has been received is the start of a frame
    /// that fits the buffer.
    pub closed spec fn wf(&self) -> bool {
        &&& HEADER_LEN <= self.buf@.len() <= MAX_BUFFER_CAPACITY
        &&& self.filled <= self.buf@.len()
        &&& !announces_too_much(self.received(), self.max_payload())
        &&& bytes_wanted(self.received()) >= 0
    }

    /// The fixed capacity of the buffer, prefix included.
    pub closed spec fn capacity(&self) -> nat {
        self.buf@.len()
    }

    /// The largest payload a frame can carry.
    pub open spec fn max_payload(&self) -> nat {
        (self.capacity() - HEADER_LEN) as nat
    }

    /// The whole buffer, including what lies beyond the bytes received.
    pub closed spec fn buffer(&self) -> Seq<u8> {
        self.buf@
    }

    /// The bytes of the current frame received so far.
    pub closed spec fn received(&self) -> Seq<u8> {
        self.buf@.subrange(0, self.filled as int)
    }

    /// A decoder over a zeroed buffer of `capacity` bytes, awaiting a prefix.
    pub fn new(capacity: usize) -> (r: LengthPrefixDecoder)
        requires
            HEADER_LEN <= capacity <= MAX_BUFFER_CAPACITY,
        ensures
            r.wf(),
            r.capacity() == capacity,
            r.received() == Seq::<u8>::empty(),
            r.buffer() == Seq::new(capacity as nat, |_i: int| 0u8),
    {
        let buf = SecureBuffer::new(capacity);
        let r = LengthPrefixDecoder { buf, filled: 0 };
        assert(r.received() =~= Seq::<u8>::empty());
        r
    }

    /// How many bytes the next read may take: what is left of the prefix, or of the
    /// announced payload; zero once the frame is whole.
    pub fn read_window(&self) -> (r: usize)
        requires
            self.wf(),
        ensures
            r == bytes_wanted(self.received()),
    {
        if self.filled < HEADER_LEN {
            HEADER_LEN - self.filled
        } else {
            let len = self.announced();
            len + HEADER_LEN - self.filled
        }
    }

    /// The payload length announced by a whole received prefix.
    fn announced(&self) -> (r: usize)
        requires
            self.wf(),
            self.filled >= HEADER_LEN,
        ensures
            r == le_u32_value(self.received()),
            r <= self.max_payload(),
    {
        let b0 = self.buf.get(0) as usize;
        let b1 = self.buf.get(1) as usize;
        let b2 = self.buf.get(2) as usize;
        let b3 = self.buf.get(3) as usize;
        b0 + 256 * b1 + 65536 * b2 + 16777216 * b3
    }

    /// Appends `data`, bytes just read from the stream, to the current frame.
    ///
    /// Fails, changing nothing, when the prefix thus completed announces more than the
    /// buffer can hold.
    pub fn feed(&mut self, data: &[u8]) -> (r: Result<(), FrameTooLarge>)
        requires
            old(self).wf(),
            data@.len() <= bytes_wanted(old(self).received()),
        ensures
            final(self).wf(),
            final(self).capacity() == old(self).capacity(),
            r is Err <==> announces_too_much(old(self).received() + data@, old(self).max_payload()),
            r is Ok ==> final(self).received() == old(self).received() + data@,
            r is Err ==> final(self).received() == old(self).received(),
    {
        let ghost s0 = self.received();
        let ghost b0 = self.buf@;
        let ghost t = s0 + data@;
        let cap = self.buf.capacity();
        let n = data.len();
        if self.filled < HEADER_LEN && self.filled + n >= HEADER_LEN {
            // The prefix completes with this read: check it before taking anything.
            let mut h: [u8; 4] = [0u8; 4];
            let mut i: usize = 0;
            while i < HEADER_LEN
                invariant
                    i <= HEADER_LEN,
                    self.filled < HEADER_LEN,
                    self.filled + n >= HEADER_LEN,
                    self.buf@ == b0,
                    s0 == self.buf@.subrange(0, self.filled as int),
                    t == s0 + data@,
                    n == data@.len(),
                    self.filled <= self.buf@.len(),
                    forall|k: int| 0 <= k < i ==> #[trigger] h@[k] == t[k],
                decreases HEADER_LEN - i,
            {
                if i < self.filled {
                    h[i] = self.buf.get(i);
                } else {
                    h[i] = data[i - self.filled];
                }
                i = i + 1;
            }
            let announced: usize = h[0] as usize + 256 * (h[1] as usize) + 65536 * (h[2] as usize)
                + 16777216 * (h[3] as usize);
            if announced > cap - HEADER_LEN {
                return Err(FrameTooLarge { announced, available: cap - HEADER_LEN });
            }
        }
        proof {
            if s0.len() >= HEADER_LEN {
                assert(t.subrange(0, 4) =~= s0.subrange(0, 4));
            }
        }
        self.buf.copy_in(self.filled, data);
        self.filled = self.filled + n;
        assert(self.received() =~= t);
        Ok(())
    }

    /// True when a whole frame has been received.
    pub fn has_message(&self) -> (r: bool)
        requires
            self.wf(),
        ensures
            r == frame_complete(self.received()),
    {
        self.filled >= HEADER_LEN && self.filled == self.announced() + HEADER_LEN
    }

    /// The payload of the current frame once it has arrived whole; `None` before.
    pub fn message(&self) -> (r: Option<&[u8]>)
        requires
            self.wf(),
        ensures
            r matches Some(m) ==> frame_message(self.received()) == Some(m@),
            r is None ==> frame_message(self.received()) is None,
    {
        if self.has_message() {
            Some(self.buf.slice(HEADER_LEN, self.filled))
        } else {
            None
        }
    }

    /// Forgets the current frame and awaits the next prefix. The memory is kept.
    pub fn clear(&mut self)
        requires
            old(self).wf(),
        ensures
            final(self).wf(),
            final(self).capacity() == old(self).capacity(),
            final(self).received() == Seq::<u8>::empty(),
    {
        self.filled = 0;
        assert(self.received() =~= Seq::<u8>::empty());
    }
}

/// Round trip: a frame that the encoder builds for any payload that fits is received
/// by a decoder of the same capacity as exactly that payload, with nothing more wanted.
pub proof fn lemma_round_trip(payload: Seq<u8>, max_payload: nat)
    requires
        payload.len() <= max_payload,
        max_payload + HEADER_LEN <= MAX_BUFFER_CAPACITY,
    ensures
        !announces_too_much(frame_of(payload), max_payload),
        bytes_wanted(frame_of(payload)) == 0,
        frame_message(frame_of(payload)) == Some(payload),
{
    let f = frame_of(payload);
    lemma_le_u32_round_trip(payload.len());
    assert(f.subrange(0, 4) =~= le_u32_bytes(payload.len()));
    assert(le_u32_value(f) == le_u32_value(le_u32_bytes(payload.len())));
    assert(f.subrange(HEADER_LEN as int, f.len() as int) =~= payload);
}

/// Chunking: fed one frame byte by byte, a decoder sees no message after any proper
/// prefix of it, always wants at least one more byte, and sees exactly the payload once
/// the last byte is in: one message, never more and never fewer.
pub proof fn lemma_bytewise_frame(payload: Seq<u8>, max_payload: nat, k: nat)
    requires
        payload.len() <= max_payload,
        max_payload + HEADER_LEN <= MAX_BUFFER_CAPACITY,
        k <= frame_of(payload).len(),
    ensures
        k < frame_of(payload).len() ==> {
            let s = frame_of(payload).subrange(0, k as int);
            &&& frame_message(s) is None
            &&& !announces_too_much(s, max_payload)
            &&& bytes_wanted(s) >= 1
            &&& s + seq![frame_of(payload)[k as int]] == frame_of(payload).subrange(0, k + 1int)
        },
        k == frame_of(payload).len() ==> frame_message(frame_of(payload).subrange(0, k as int))
            == Some(payload),
{
    let f = frame_of(payload);
    lemma_round_trip(payload, max_payload);
    let s = f.subrange(0, k as int);
    if k >= HEADER_LEN {
        assert(s.subrange(0, 4) =~= f.subrange(0, 4));
        assert(le_u32_value(s) == le_u32_value(f));
    }
    if k < f.len() {
        assert(s + seq![f[k as int]] =~= f.subrange(0, k + 1int));
    }
    if k == f.len() {
        assert(s =~= f);
    }
}

/// True when each state of `states` follows the one before by one write attempt, as
/// `after_write` relates them: the outgoing stream stays the same and what was sent grows.
pub open spec fn write_chain(states: Seq<LengthPrefixEncoder>) -> bool {
    forall|i: int|
        0 <= i < states.len() - 1 ==> {
            &&& #[trigger] states[i + 1].wire() == states[i].wire()
            &&& states[i].sent().is_prefix_of(states[i + 1].sent())
        }
}

/// Writes never change the outgoing stream, however many there are, and only add to
/// what was sent.
pub proof fn lemma_write_chain(states: Seq<LengthPrefixEncoder>)
    requires
        states.len() >= 1,
        write_chain(states),
    ensures
        states.last().wire() == states[0].wire(),
        states[0].sent().is_prefix_of(states.last().sent()),
    decreases states.len(),
{
    if states.len() > 1 {
        let front = states.drop_last();
        assert forall|i: int| 0 <= i < front.len() - 1 implies {
            &&& #[trigger] front[i + 1].wire() == front[i].wire()
            &&& front[i].sent().is_prefix_of(front[i + 1].sent())
        } by {
            assert(states[i + 1].wire() == states[i].wire());
        }
        lemma_write_chain(front);
        let i = states.len() - 2;
        assert(states[i + 1].wire() == states[i].wire());
        assert(states[i].sent().is_prefix_of(states[i + 1].sent()));
        assert(front.last() == states[i]);
        assert(states.last() == states[i + 1]);
        let s0 = states[0].sent();
        let s1 = states[i].sent();
        let s2 = states[i + 1].sent();
        assert(s2.subrange(0, s0.len() as int) =~= s1.subrange(0, s0.len() as int));
    }
}

/// Strict ordering: once message `a` is accepted, the sink must take all of it before
/// message `b` can be accepted, so `a`'s frame leaves entirely before any byte of `b`'s.
///
/// `e0` is the encoder before `a` is accepted, `drain` the states from just after that
/// through any number of write attempts to the one in which `b` is accepted, and `e3`
/// the state just after that.
pub proof fn lemma_frames_leave_in_order(
    e0: LengthPrefixEncoder,
    drain: Seq<LengthPrefixEncoder>,
    e3: LengthPrefixEncoder,
    a: Seq<u8>,
    b: Seq<u8>,
)
    requires
        e0.pending().len() == 0,
        drain.len() >= 1,
        drain[0].wire() == e0.wire() + frame_of(a),
        drain[0].sent() == e0.sent(),
        write_chain(drain),
        drain.last().pending().len() == 0,
        e3.wire() == drain.last().wire() + frame_of(b),
        e3.sent() == drain.last().sent(),
    ensures
        drain.last().sent() == e0.sent() + frame_of(a),
        e3.wire() == e0.sent() + frame_of(a) + frame_of(b),
        e3.pending() == frame_of(b),
{
    lemma_write_chain(drain);
    let e2 = drain.last();
    assert(e0.pending() =~= Seq::<u8>::empty());
    assert(e0.wire() =~= e0.sent());
    assert(e2.pending() =~= Seq::<u8>::empty());
    assert(e2.wire() =~= e2.sent());
    assert(e3.wire() =~= e3.sent() + e3.pending());
    assert((e0.sent() + frame_of(a)) + frame_of(b) =~= e3.sent() + frame_of(b));
    assert(e3.pending() =~= e3.wire().subrange(e3.sent().len() as int, e3.wire().len() as int));
}

/// Blocking fallback: when a message arrives while bytes of an earlier frame are still
/// pending, those bytes are all written, by any number of write attempts, before the new
/// message enters the buffer; afterwards the buffer holds only the new frame.
///
/// `e0` is the encoder holding the unflushed bytes, `drain` the states from `e0` through
/// the write attempts to the one in which `msg` is accepted, and `e3` the state just after.
pub proof fn lemma_drain_then_accept(
    e0: LengthPrefixEncoder,
    drain: Seq<LengthPrefixEncoder>,
    e3: LengthPrefixEncoder,
    msg: Seq<u8>,
)
    requires
        drain.len() >= 1,
        drain[0] == e0,
        write_chain(drain),
        drain.last().pending().len() == 0,
        e3.wire() == drain.last().wire() + frame_of(msg),
        e3.sent() == drain.last().sent(),
    ensures
        drain.last().sent() == e0.sent() + e0.pending(),
        e3.sent() == e0.sent() + e0.pending(),
        e3.pending() == frame_of(msg),
        e3.wire() == e0.wire() + frame_of(msg),
{
    lemma_write_chain(drain);
    let e2 = drain.last();
    assert(e2.pending() =~= Seq::<u8>::empty());
    assert(e2.wire() =~= e2.sent());
    assert(e3.wire() =~= e3.sent() + e3.pending());
    assert(e3.pending() =~= e3.wire().subrange(e3.sent().len() as int, e3.wire().len() as int));
}

/// Chunking over a whole stream: starting from an empty decoder and feeding one frame one
/// byte per read, the decoder holds exactly the bytes read so far, shows no message after
/// any read but the last, always wants the next byte, and shows exactly the payload after
/// the last: one message overall.
///
/// `states[k]` is what the decoder has received after `k` reads.
pub proof fn lemma_bytewise_stream(payload: Seq<u8>, max_payload: nat, states: Seq<Seq<u8>>)
    requires
        payload.len() <= max_payload,
        max_payload + HEADER_LEN <= MAX_BUFFER_CAPACITY,
        states.len() == frame_of(payload).len() + 1,
        states[0] == Seq::<u8>::empty(),
        forall|k: int|
            0 <= k < frame_of(payload).len() ==> #[trigger] states[k + 1] == states[k].push(
                frame_of(payload)[k],
            ),
    ensures
        forall|k: int| 0 <= k < states.len() ==> #[trigger] states[k] == frame_of(payload).subrange(0, k),
        forall|k: int|
            0 <= k < frame_of(payload).len() ==> {
                &&& #[trigger] frame_message(states[k]) is None
                &&& !announces_too_much(states[k], max_payload)
                &&& bytes_wanted(states[k]) >= 1
            },
        frame_message(states[frame_of(payload).len() as int]) == Some(payload),
{
    let f = frame_of(payload);
    assert forall|k: int| 0 <= k < states.len() implies #[trigger] states[k] == f.subrange(0, k) by {
        lemma_stream_prefix(payload, states, k);
    }
    assert forall|k: int| 0 <= k < f.len() implies {
        &&& #[trigger] frame_message(states[k]) is None
        &&& !announces_too_much(states[k], max_payload)
        &&& bytes_wanted(states[k]) >= 1
    } by {
        lemma_stream_prefix(payload, states, k);
        lemma_bytewise_frame(payload, max_payload, k as nat);
    }
    lemma_stream_prefix(payload, states, f.len() as int);
    lemma_bytewise_frame(payload, max_payload, f.len());
}

proof fn lemma_stream_prefix(payload: Seq<u8>, states: Seq<Seq<u8>>, k: int)
    requires
        states.len() == frame_of(payload).len() + 1,
        states[0] == Seq::<u8>::empty(),
        forall|j: int|
            0 <= j < frame_of(payload).len() ==> #[trigger] states[j + 1] == states[j].push(
                frame_of(payload)[j],
            ),
        0 <= k < states.len(),
    ensures
        states[k] == frame_of(payload).subrange(0, k),
    decreases k,
{
    let f = frame_of(payload);
    if k == 0 {
        assert(f.subrange(0, 0) =~= Seq::<u8>::empty());
    } else {
        lemma_stream_prefix(payload, states, k - 1);
        assert(states[k] == states[k - 1].push(f[k - 1]));
        assert(f.subrange(0, k - 1).push(f[k - 1]) =~= f.subrange(0, k));
    }
}

} // verus!
