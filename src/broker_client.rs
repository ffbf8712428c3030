use vstd::prelude::*;

use crate::framing::{
    bytes_wanted, frame_message, frame_of, FlushStep, LengthPrefixDecoder, LengthPrefixEncoder,
    WriteOutcome, HEADER_LEN,
};

verus! {

/// Capacity of each of the client's two frame buffers, prefix included.
pub const BUFFER_CAPACITY: usize = 4096;

/// The longest interface name a request can carry.
pub const MAX_IFACE_LEN: usize = 255;

/// Length of a peer id and of a pre-shared key.
pub const KEY_LEN: usize = 32;

/// Response status: the broker applied the key.
pub const STATUS_OK: u8 = 0;

/// Response status: the broker failed; an error code byte follows.
pub const STATUS_ERR: u8 = 1;

/// One pre-shared key assignment, as handed to the broker.
pub struct SerializedBrokerConfig<'a> {
    /// Name of the network interface.
    pub interface: &'a [u8],
    /// Public identifier of the peer.
    pub peer_id: &'a [u8; 32],
    /// The pre-shared key.
    pub psk: &'a [u8; 32],
    /// Further parameters, passed through to the broker.
    pub additional_params: &'a [u8],
}

/// A failure that the broker reported, with its error code.
#[derive(Debug, Clone, Copy, PartialEq, Eq)]
pub struct BrokerError(pub u8);

/// Why a request could not be queued.
#[derive(Debug, Clone, Copy, PartialEq, Eq)]
pub enum BrokerClientSetPskError {
    /// The interface name is longer than its field allows.
    IfaceOutOfBounds,
    /// The request does not fit a frame.
    MsgError,
}

/// Why a response could not be taken.
#[derive(Debug, Clone, Copy, PartialEq, Eq)]
pub enum BrokerClientPollResponseError {
    /// The peer sent a frame that is no valid response; the connection is unusable.
    InvalidMessage,
}

/// A read attempt that produced no bytes, as the I/O layer reports it.
#[derive(Debug, Clone, Copy, PartialEq, Eq)]
pub enum ReadFault {
    /// No bytes are available now.
    WouldBlock,
    /// A signal interrupted the call.
    Interrupted,
    /// Any other I/O error.
    Failed,
}

/// What the I/O layer does after a read attempt.
#[derive(Debug, Clone, Copy, PartialEq, Eq)]
pub enum RecvStep {
    /// Read again at once.
    Again,
    /// Nothing more to read now; wait for the next readiness event.
    Suspend,
    /// A whole response frame is in; take it with `poll_response`.
    MessageReady,
    /// The peer closed the stream in the middle of a frame.
    Closed,
    /// The read failed; the connection is unusable.
    Failed,
    /// The peer announced a frame larger than the buffer; the connection is unusable.
    TooLarge,
}

/// The little-endian encoding of `n` in two bytes.
pub open spec fn le_u16_bytes(n: nat) -> Seq<u8> {
    seq![(n % 256) as u8, ((n / 256) % 256) as u8]
}

/// Length of a set-psk request payload.
pub open spec fn set_psk_payload_len(iface_len: nat, extra_len: nat) -> nat {
    (2 + iface_len + 2 * KEY_LEN + 2 + extra_len) as nat
}

/// The set-psk request payload: interface name and extra parameters, each after its
/// two-byte little-endian length, around the peer id and the key.
pub open spec fn set_psk_payload(
    iface: Seq<u8>,
    peer_id: Seq<u8>,
    psk: Seq<u8>,
    extra: Seq<u8>,
) -> Seq<u8> {
    le_u16_bytes(iface.len()) + iface + peer_id + psk + le_u16_bytes(extra.len()) + extra
}

/// The outcome of `set_psk` on given field contents.
pub open spec fn set_psk_check(iface_len: nat, extra_len: nat) -> Result<(), BrokerClientSetPskError> {
    if iface_len > MAX_IFACE_LEN {
        Err(BrokerClientSetPskError::IfaceOutOfBounds)
    } else if set_psk_payload_len(iface_len, extra_len) > BUFFER_CAPACITY - HEADER_LEN {
        Err(BrokerClientSetPskError::MsgError)
    } else {
        Ok(())
    }
}

/// What a response payload says: the broker's verdict, or `None` when it is malformed.
pub open spec fn response_verdict(m: Seq<u8>) -> Option<Result<(), BrokerError>> {
    if m.len() == 1 && m[0] == STATUS_OK {
        Some(Ok(()))
    } else if m.len() == 2 && m[0] == STATUS_ERR {
        Some(Err(BrokerError(m[1])))
    } else {
        None
    }
}

/// What `poll_response` returns when `received` is what has arrived of the response.
pub open spec fn poll_result(received: Seq<u8>) -> Result<
    Option<Result<(), BrokerError>>,
    BrokerClientPollResponseError,
> {
    match frame_message(received) {
        None => Ok(None),
        Some(m) => match response_verdict(m) {
            Some(v) => Ok(Some(v)),
            None => Err(BrokerClientPollResponseError::InvalidMessage),
        },
    }
}

/// What has arrived of the next response once `poll_response` returns.
pub open spec fn poll_next_received(received: Seq<u8>) -> Seq<u8> {
    if frame_message(received) is Some {
        Seq::empty()
    } else {
        received
    }
}

/// Reads a response payload: `[0]` is success, `[1, code]` a failure with that code,
/// anything else is malformed.
pub fn decode_response(m: &[u8]) -> (r: Option<Result<(), BrokerError>>)
    ensures
        r == response_verdict(m@),
{
    if m.len() == 1 && m[0] == STATUS_OK {
        Some(Ok(()))
    } else if m.len() == 2 && m[0] == STATUS_ERR {
        Some(Err(BrokerError(m[1])))
    } else {
        None
    }
}

/// Protocol client for the key broker: one request outstanding at a time.
///
/// It owns the read and write frame buffers of one connection; the I/O layer moves bytes
/// between them and the socket and reports each attempt back.
pub struct BrokerClient {
    read_buffer: LengthPrefixDecoder,
    write_buffer: LengthPrefixEncoder,
}

impl BrokerClient {
    /// The client's invariant: both buffers are sound and of the fixed capacity.
    pub closed spec fn wf(&self) -> bool {
        &&& self.read_buffer.wf()
        &&& self.write_buffer.wf()
        &&& self.read_buffer.capacity() == BUFFER_CAPACITY
        &&& self.write_buffer.capacity() == BUFFER_CAPACITY
    }

    /// What has arrived of the next response.
    pub closed spec fn received(&self) -> Seq<u8> {
        self.read_buffer.received()
    }

    /// Bytes of the current request not yet handed to the socket.
    pub closed spec fn pending(&self) -> Seq<u8> {
        self.write_buffer.pending()
    }

    /// Every byte handed to the socket so far.
    pub closed spec fn sent(&self) -> Seq<u8> {
        self.write_buffer.sent()
    }

    /// The whole read buffer, beyond what has been received too.
    pub closed spec fn read_buffer_bytes(&self) -> Seq<u8> {
        self.read_buffer.buffer()
    }

    /// The whole write buffer, beyond what is pending too.
    pub closed spec fn write_buffer_bytes(&self) -> Seq<u8> {
        self.write_buffer.buffer()
    }

    /// The outgoing stream as it will stand once every pending byte is written.
    pub open spec fn wire(&self) -> Seq<u8> {
        self.sent() + self.pending()
    }

    /// A client with empty buffers, every byte of both zero.
    pub fn new() -> (r: BrokerClient)
        ensures
            r.wf(),
            r.received() == Seq::<u8>::empty(),
            r.pending() == Seq::<u8>::empty(),
            r.sent() == Seq::<u8>::empty(),
            r.read_buffer_bytes() == Seq::new(BUFFER_CAPACITY as nat, |_i: int| 0u8),
            r.write_buffer_bytes() == Seq::new(BUFFER_CAPACITY as nat, |_i: int| 0u8),
    {
        BrokerClient {
            read_buffer: LengthPrefixDecoder::new(BUFFER_CAPACITY),
            write_buffer: LengthPrefixEncoder::new(BUFFER_CAPACITY),
        }
    }

    /// Queues a set-psk request for the broker.
    ///
    /// Fails, changing nothing, with `IfaceOutOfBounds` when the interface name is longer
    /// than `MAX_IFACE_LEN`, else with `MsgError` when the request does not fit a frame.
    /// The previous request must have been written out entirely.
    pub fn set_psk(&mut self, config: &SerializedBrokerConfig) -> (r: Result<(), BrokerClientSetPskError>)
        requires
            old(self).wf(),
            old(self).pending().len() == 0,
        ensures
            final(self).wf(),
            final(self).received() == old(self).received(),
            final(self).sent() == old(self).sent(),
            r == set_psk_check(config.interface@.len(), config.additional_params@.len()),
            r is Ok ==> final(self).pending() == frame_of(
                set_psk_payload(
                    config.interface@,
                    config.peer_id@,
                    config.psk@,
                    config.additional_params@,
                ),
            ),
            r is Ok ==> final(self).wire() == old(self).wire() + frame_of(
                set_psk_payload(
                    config.interface@,
                    config.peer_id@,
                    config.psk@,
                    config.additional_params@,
                ),
            ),
            r is Err ==> *final(self) == *old(self),
    {
        let il = config.interface.len();
        let el = config.additional_params.len();
        if il > MAX_IFACE_LEN {
            return Err(BrokerClientSetPskError::IfaceOutOfBounds);
        }
        if el > BUFFER_CAPACITY - HEADER_LEN - 2 - il - 2 * KEY_LEN - 2 {
            return Err(BrokerClientSetPskError::MsgError);
        }
        let total = 2 + il + 2 * KEY_LEN + 2 + el;
        let ghost iface = config.interface@;
        let ghost peer = config.peer_id@;
        let ghost psk = config.psk@;
        let ghost extra = config.additional_params@;
        let ghost a0 = self.write_buffer.payload_area();
        let ilen: [u8; 2] = [(il % 256) as u8, ((il / 256) % 256) as u8];
        let elen: [u8; 2] = [(el % 256) as u8, ((el / 256) % 256) as u8];
        assert(ilen@ =~= le_u16_bytes(il as nat));
        assert(elen@ =~= le_u16_bytes(el as nat));
        self.write_buffer.put_payload(0, ilen.as_slice());
        self.write_buffer.put_payload(2, config.interface);
        self.write_buffer.put_payload(2 + il, config.peer_id.as_slice());
        self.write_buffer.put_payload(2 + il + KEY_LEN, config.psk.as_slice());
        self.write_buffer.put_payload(2 + il + 2 * KEY_LEN, elen.as_slice());
        self.write_buffer.put_payload(2 + il + 2 * KEY_LEN + 2, config.additional_params);
        let ghost area = self.write_buffer.payload_area();
        assert(area.subrange(0, total as int) =~= set_psk_payload(iface, peer, psk, extra));
        let _ = self.write_buffer.restart_write_with_new_message(total);
        assert(old(self).pending() =~= Seq::<u8>::empty());
        Ok(())
    }

    /// Takes the broker's response to the last request, if it has arrived whole.
    ///
    /// `Ok(None)` while the response is incomplete, changing nothing. Once a whole frame
    /// is in, it is consumed and its verdict returned, or `InvalidMessage` when it is
    /// malformed.
    pub fn poll_response(&mut self) -> (r: Result<
        Option<Result<(), BrokerError>>,
        BrokerClientPollResponseError,
    >)
        requires
            old(self).wf(),
        ensures
            final(self).wf(),
            r == poll_result(old(self).received()),
            final(self).received() == poll_next_received(old(self).received()),
            final(self).pending() == old(self).pending(),
            final(self).sent() == old(self).sent(),
            frame_message(old(self).received()) is None ==> *final(self) == *old(self),
    {
        let verdict = match self.read_buffer.message() {
            None => {
                return Ok(None);
            },
            Some(m) => decode_response(m),
        };
        self.read_buffer.clear();
        match verdict {
            Some(v) => Ok(Some(v)),
            None => Err(BrokerClientPollResponseError::InvalidMessage),
        }
    }

    /// True when a whole response frame is waiting to be taken.
    pub fn has_response(&self) -> (r: bool)
        requires
            self.wf(),
        ensures
            r == (frame_message(self.received()) is Some),
    {
        self.read_buffer.has_message()
    }

    /// True when the current request has been written out entirely.
    pub fn exhausted(&self) -> (r: bool)
        requires
            self.wf(),
        ensures
            r == (self.pending().len() == 0),
    {
        self.write_buffer.exhausted()
    }

    /// The bytes of the current request still to be written to the socket.
    pub fn pending_bytes(&self) -> (r: &[u8])
        requires
            self.wf(),
        ensures
            r@ == self.pending(),
    {
        self.write_buffer.pending_bytes()
    }

    /// Takes the outcome of one write of `pending_bytes` to the socket and says what to
    /// do next; see `LengthPrefixEncoder::after_write`.
    pub fn after_write(&mut self, outcome: WriteOutcome) -> (r: FlushStep)
        requires
            old(self).wf(),
        ensures
            final(self).wf(),
            final(self).received() == old(self).received(),
            final(self).wire() == old(self).wire(),
            old(self).sent().is_prefix_of(final(self).sent()),
            r == crate::framing::write_step(outcome, old(self).pending().len()),
            r == FlushStep::Done ==> (outcome matches WriteOutcome::Written(n) ==> (
                final(self).sent() == old(self).sent() + old(self).pending().subrange(0, n as int)
                && final(self).pending() == old(self).pending().subrange(n as int, old(self).pending().len() as int))),
            !(outcome is Written && r == FlushStep::Done) ==> *final(self) == *old(self),
    {
        self.write_buffer.after_write(outcome)
    }

    /// How many bytes the next socket read may take without running into the next frame;
    /// zero while a whole response waits to be taken.
    pub fn read_window(&self) -> (r: usize)
        requires
            self.wf(),
        ensures
            r == bytes_wanted(self.received()),
    {
        self.read_buffer.read_window()
    }

    /// Takes the bytes of one successful socket read and says what to do next.
    ///
    /// No bytes while some were wanted means the peer closed the stream. A prefix that
    /// announces more than the buffer holds is refused. Otherwise the bytes are appended;
    /// reading goes on until the frame is whole.
    pub fn after_read(&mut self, data: &[u8]) -> (r: RecvStep)
        requires
            old(self).wf(),
            data@.len() <= bytes_wanted(old(self).received()),
        ensures
            final(self).wf(),
            final(self).pending() == old(self).pending(),
            final(self).sent() == old(self).sent(),
            data@.len() == 0 && bytes_wanted(old(self).received()) > 0 ==> r == RecvStep::Closed
                && *final(self) == *old(self),
            data@.len() == 0 && bytes_wanted(old(self).received()) == 0 ==> r
                == RecvStep::MessageReady && *final(self) == *old(self),
            data@.len() > 0 && crate::framing::announces_too_much(
                old(self).received() + data@,
                (BUFFER_CAPACITY - HEADER_LEN) as nat,
            ) ==> r == RecvStep::TooLarge && final(self).received() == old(self).received(),
            data@.len() > 0 && !crate::framing::announces_too_much(
                old(self).received() + data@,
                (BUFFER_CAPACITY - HEADER_LEN) as nat,
            ) ==> final(self).received() == old(self).received() + data@ && r == (if frame_message(
                old(self).received() + data@,
            ) is Some {
                RecvStep::MessageReady
            } else {
                RecvStep::Again
            }),
    {
        if data.len() == 0 {
            if self.read_buffer.read_window() > 0 {
                return RecvStep::Closed;
            } else {
                return RecvStep::MessageReady;
            }
        }
        match self.read_buffer.feed(data) {
            Err(_) => RecvStep::TooLarge,
            Ok(()) => if self.read_buffer.has_message() {
                RecvStep::MessageReady
            } else {
                RecvStep::Again
            },
        }
    }

    /// Says what to do after a socket read that produced no bytes: wait for readiness on
    /// would-block, retry on interruption, give up otherwise. Changes nothing.
    pub fn after_read_fault(&self, fault: ReadFault) -> (r: RecvStep)
        ensures
            r == (match fault {
                ReadFault::WouldBlock => RecvStep::Suspend,
                ReadFault::Interrupted => RecvStep::Again,
                ReadFault::Failed => RecvStep::Failed,
            }),
    {
        match fault {
            ReadFault::WouldBlock => RecvStep::Suspend,
            ReadFault::Interrupted => RecvStep::Again,
            ReadFault::Failed => RecvStep::Failed,
        }
    }
}

/// Poll idempotence: while no whole response has arrived, `poll_response` returns
/// `Ok(None)` and leaves what has arrived as it was, so calling it again does the same.
pub proof fn lemma_poll_idempotent(received: Seq<u8>)
    requires
        frame_message(received) is None,
    ensures
        poll_result(received) == Ok::<Option<Result<(), BrokerError>>, BrokerClientPollResponseError>(None),
        poll_next_received(received) == received,
        poll_result(poll_next_received(received)) == poll_result(received),
        poll_next_received(poll_next_received(received)) == received,
{
}

/// A failure reported by the broker leaves the connection usable: its response is taken
/// as `BrokerError(code)`, the read side is left awaiting the next frame, and a request
/// whose fields fit is accepted again.
pub proof fn lemma_broker_error_keeps_connection(
    received: Seq<u8>,
    code: u8,
    iface_len: nat,
    extra_len: nat,
)
    requires
        frame_message(received) == Some(seq![STATUS_ERR, code]),
        iface_len <= MAX_IFACE_LEN,
        set_psk_payload_len(iface_len, extra_len) <= BUFFER_CAPACITY - HEADER_LEN,
    ensures
        poll_result(received) == Ok::<Option<Result<(), BrokerError>>, BrokerClientPollResponseError>(
            Some(Err(BrokerError(code))),
        ),
        poll_next_received(received) == Seq::<u8>::empty(),
        bytes_wanted(poll_next_received(received)) == HEADER_LEN,
        set_psk_check(iface_len, extra_len) is Ok,
{
    let m = seq![STATUS_ERR, code];
    assert(m.len() == 2 && m[0] == STATUS_ERR && m[1] == code);
}

} // verus!
