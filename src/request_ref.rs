use vstd::prelude::*;

verus! {

/// Length of the message type field that starts every API request: a little-endian u128.
pub const MSG_TYPE_LEN: usize = 16;

/// Type field value of a ping request.
pub const PING_REQUEST: u8 = 1;

/// Type field value of a request that supplies a keypair.
pub const SUPPLY_KEYPAIR_REQUEST: u8 = 2;

/// Type field value of a request that adds a listen socket.
pub const ADD_LISTEN_SOCKET_REQUEST: u8 = 3;

/// Type field value of a request that adds a key broker.
pub const ADD_PSK_BROKER_REQUEST: u8 = 4;

/// Length of the echo payload of a ping request.
pub const PING_ECHO_LEN: usize = 256;

/// The kinds of API request.
#[derive(Debug, Clone, Copy, PartialEq, Eq)]
pub enum RequestMsgType {
    Ping,
    SupplyKeypair,
    AddListenSocket,
    AddPskBroker,
}

impl RequestMsgType {
    /// Size in bytes of a request of this kind, type field included.
    pub open spec fn size(self) -> nat {
        match self {
            RequestMsgType::Ping => (MSG_TYPE_LEN + PING_ECHO_LEN) as nat,
            _ => MSG_TYPE_LEN as nat,
        }
    }

    /// Size in bytes of a request of this kind, type field included.
    pub fn message_size(&self) -> (r: usize)
        ensures
            r == self.size(),
    {
        match self {
            RequestMsgType::Ping => MSG_TYPE_LEN + PING_ECHO_LEN,
            _ => MSG_TYPE_LEN,
        }
    }
}

/// The request kind that the type field at the start of `b` names, if any.
pub open spec fn msg_type_of(b: Seq<u8>) -> Option<RequestMsgType> {
    if b.len() < MSG_TYPE_LEN || exists|i: int| 1 <= i < MSG_TYPE_LEN && b[i] != 0 {
        None
    } else if b[0] == PING_REQUEST {
        Some(RequestMsgType::Ping)
    } else if b[0] == SUPPLY_KEYPAIR_REQUEST {
        Some(RequestMsgType::SupplyKeypair)
    } else if b[0] == ADD_LISTEN_SOCKET_REQUEST {
        Some(RequestMsgType::AddListenSocket)
    } else if b[0] == ADD_PSK_BROKER_REQUEST {
        Some(RequestMsgType::AddPskBroker)
    } else {
        None
    }
}

/// Why a buffer is no request.
#[derive(Debug, Clone, Copy, PartialEq, Eq)]
pub enum RequestRefError {
    /// The buffer is shorter than the type field, or the field names no request kind.
    UnknownMessageType,
    /// The buffer is shorter than a request of its kind.
    Undersized { have: usize, need: usize },
    /// The buffer's length is not that of a request of its kind.
    WrongSize { have: usize, need: usize },
}

/// Reads the request kind from the type field at the start of `buf`.
pub fn request_msg_type_from_prefix(buf: &[u8]) -> (r: Result<RequestMsgType, RequestRefError>)
    ensures
        r matches Ok(t) ==> msg_type_of(buf@) == Some(t),
        r is Err ==> msg_type_of(buf@) is None && r == Err::<RequestMsgType, RequestRefError>(
            RequestRefError::UnknownMessageType,
        ),
{
    if buf.len() < MSG_TYPE_LEN {
        return Err(RequestRefError::UnknownMessageType);
    }
    let mut i: usize = 1;
    while i < MSG_TYPE_LEN
        invariant
            1 <= i <= MSG_TYPE_LEN,
            buf@.len() >= MSG_TYPE_LEN,
            forall|k: int| 1 <= k < i ==> buf@[k] == 0,
        decreases MSG_TYPE_LEN - i,
    {
        if buf[i] != 0 {
            return Err(RequestRefError::UnknownMessageType);
        }
        i = i + 1;
    }
    let t = buf[0];
    if t == PING_REQUEST {
        Ok(RequestMsgType::Ping)
    } else if t == SUPPLY_KEYPAIR_REQUEST {
        Ok(RequestMsgType::SupplyKeypair)
    } else if t == ADD_LISTEN_SOCKET_REQUEST {
        Ok(RequestMsgType::AddListenSocket)
    } else if t == ADD_PSK_BROKER_REQUEST {
        Ok(RequestMsgType::AddPskBroker)
    } else {
        Err(RequestRefError::UnknownMessageType)
    }
}

/// A view of a buffer as one API request, typed by its kind.
pub enum RequestRef<'a> {
    Ping(&'a [u8]),
    SupplyKeypair(&'a [u8]),
    AddListenSocket(&'a [u8]),
    AddPskBroker(&'a [u8]),
}

/// Helper for producing a `RequestRef`: a buffer together with the request kind read
/// from its type field.
pub struct RequestRefMaker<'a> {
    buf: &'a [u8],
    msg_type: RequestMsgType,
}

impl<'a> RequestRefMaker<'a> {
    /// The buffer held.
    pub closed spec fn bytes(&self) -> Seq<u8> {
        self.buf@
    }

    /// The request kind read from the buffer.
    pub closed spec fn kind(&self) -> RequestMsgType {
        self.msg_type
    }

    /// Reads the request kind from the type field at the start of `buf`.
    pub fn new(buf: &'a [u8]) -> (r: Result<RequestRefMaker<'a>, RequestRefError>)
        ensures
            r matches Ok(m) ==> msg_type_of(buf@) == Some(m.kind()) && m.bytes() == buf@,
            r is Err ==> msg_type_of(buf@) is None && r matches Err(
                RequestRefError::UnknownMessageType,
            ),
    {
        match request_msg_type_from_prefix(buf) {
            Ok(msg_type) => Ok(RequestRefMaker { buf, msg_type }),
            Err(e) => Err(e),
        }
    }

    /// Size of a request of the kind held.
    pub fn target_size(&self) -> (r: usize)
        ensures
            r == self.kind().size(),
    {
        self.msg_type.message_size()
    }

    /// Succeeds when the buffer is at least as long as a request of its kind.
    pub fn ensure_fit(&self) -> (r: Result<(), RequestRefError>)
        ensures
            r is Ok <==> self.kind().size() <= self.bytes().len(),
            r is Err ==> r == Err::<(), RequestRefError>(
                RequestRefError::Undersized { have: self.bytes().len() as usize, need: self.kind().size() as usize },
            ),
    {
        let have = self.buf.len();
        let need = self.target_size();
        if need <= have {
            Ok(())
        } else {
            Err(RequestRefError::Undersized { have, need })
        }
    }

    /// Keeps only the first request-sized part of the buffer.
    pub fn from_prefix(self) -> (r: Result<RequestRefMaker<'a>, RequestRefError>)
        ensures
            r is Ok <==> self.kind().size() <= self.bytes().len(),
            r matches Ok(m) ==> m.kind() == self.kind() && m.bytes() == self.bytes().subrange(
                0,
                self.kind().size() as int,
            ),
            r is Err ==> r == Err::<RequestRefMaker<'a>, RequestRefError>(
                RequestRefError::Undersized { have: self.bytes().len() as usize, need: self.kind().size() as usize },
            ),
    {
        match self.ensure_fit() {
            Err(e) => Err(e),
            Ok(()) => {
                let point = self.target_size();
                let buf = vstd::slice::slice_subrange(self.buf, 0, point);
                Ok(RequestRefMaker { buf, msg_type: self.msg_type })
            },
        }
    }

    /// Keeps only the last request-sized part of the buffer.
    pub fn from_suffix(self) -> (r: Result<RequestRefMaker<'a>, RequestRefError>)
        ensures
            r is Ok <==> self.kind().size() <= self.bytes().len(),
            r matches Ok(m) ==> m.kind() == self.kind() && m.bytes() == self.bytes().subrange(
                self.bytes().len() - self.kind().size(),
                self.bytes().len() as int,
            ),
            r is Err ==> r == Err::<RequestRefMaker<'a>, RequestRefError>(
                RequestRefError::Undersized { have: self.bytes().len() as usize, need: self.kind().size() as usize },
            ),
    {
        match self.ensure_fit() {
            Err(e) => Err(e),
            Ok(()) => {
                let point = self.buf.len() - self.target_size();
                let buf = vstd::slice::slice_subrange(self.buf, point, self.buf.len());
                Ok(RequestRefMaker { buf, msg_type: self.msg_type })
            },
        }
    }

    /// The typed view, when the buffer is exactly a request of its kind.
    pub fn parse(self) -> (r: Result<RequestRef<'a>, RequestRefError>)
        ensures
            r is Ok <==> self.bytes().len() == self.kind().size(),
            r matches Ok(v) ==> v.kind() == self.kind() && v.view_bytes() == self.bytes(),
            r is Err ==> r == Err::<RequestRef<'a>, RequestRefError>(
                RequestRefError::WrongSize { have: self.bytes().len() as usize, need: self.kind().size() as usize },
            ),
    {
        let have = self.buf.len();
        let need = self.target_size();
        if have != need {
            return Err(RequestRefError::WrongSize { have, need });
        }
        Ok(
            match self.msg_type {
                RequestMsgType::Ping => RequestRef::Ping(self.buf),
                RequestMsgType::SupplyKeypair => RequestRef::SupplyKeypair(self.buf),
                RequestMsgType::AddListenSocket => RequestRef::AddListenSocket(self.buf),
                RequestMsgType::AddPskBroker => RequestRef::AddPskBroker(self.buf),
            },
        )
    }
}

impl<'a> RequestRef<'a> {
    /// The request kind of the view.
    pub open spec fn kind(&self) -> RequestMsgType {
        match self {
            RequestRef::Ping(_) => RequestMsgType::Ping,
            RequestRef::SupplyKeypair(_) => RequestMsgType::SupplyKeypair,
            RequestRef::AddListenSocket(_) => RequestMsgType::AddListenSocket,
            RequestRef::AddPskBroker(_) => RequestMsgType::AddPskBroker,
        }
    }

    /// The bytes of the view.
    pub open spec fn view_bytes(&self) -> Seq<u8> {
        match self {
            RequestRef::Ping(b) => b@,
            RequestRef::SupplyKeypair(b) => b@,
            RequestRef::AddListenSocket(b) => b@,
            RequestRef::AddPskBroker(b) => b@,
        }
    }

    /// A request view of `buf`, which must be exactly one request, its kind read from
    /// its type field.
    pub fn parse(buf: &'a [u8]) -> (r: Result<RequestRef<'a>, RequestRefError>)
        ensures
            r is Ok <==> (msg_type_of(buf@) matches Some(t) && buf@.len() == t.size()),
            r matches Ok(v) ==> msg_type_of(buf@) == Some(v.kind()) && v.view_bytes() == buf@,
    {
        match RequestRefMaker::new(buf) {
            Err(e) => Err(e),
            Ok(m) => m.parse(),
        }
    }

    /// A request view of the first request-sized part of `buf`, its kind read from its
    /// type field.
    pub fn parse_from_prefix(buf: &'a [u8]) -> (r: Result<RequestRef<'a>, RequestRefError>)
        ensures
            r is Ok <==> (msg_type_of(buf@) matches Some(t) && t.size() <= buf@.len()),
            r matches Ok(v) ==> msg_type_of(buf@) == Some(v.kind()) && v.view_bytes()
                == buf@.subrange(0, v.kind().size() as int),
    {
        match RequestRefMaker::new(buf) {
            Err(e) => Err(e),
            Ok(m) => match m.from_prefix() {
                Err(e) => Err(e),
                Ok(m) => m.parse(),
            },
        }
    }

    /// A request view of the last request-sized part of `buf`, its kind read from the
    /// type field at the start of `buf`.
    pub fn parse_from_suffix(buf: &'a [u8]) -> (r: Result<RequestRef<'a>, RequestRefError>)
        ensures
            r is Ok <==> (msg_type_of(buf@) matches Some(t) && t.size() <= buf@.len()),
            r matches Ok(v) ==> msg_type_of(buf@) == Some(v.kind()) && v.view_bytes()
                == buf@.subrange(buf@.len() - v.kind().size(), buf@.len() as int),
    {
        match RequestRefMaker::new(buf) {
            Err(e) => Err(e),
            Ok(m) => match m.from_suffix() {
                Err(e) => Err(e),
                Ok(m) => m.parse(),
            },
        }
    }

    /// The request kind of the view.
    pub fn message_type(&self) -> (r: RequestMsgType)
        ensures
            r == self.kind(),
    {
        match self {
            RequestRef::Ping(_) => RequestMsgType::Ping,
            RequestRef::SupplyKeypair(_) => RequestMsgType::SupplyKeypair,
            RequestRef::AddListenSocket(_) => RequestMsgType::AddListenSocket,
            RequestRef::AddPskBroker(_) => RequestMsgType::AddPskBroker,
        }
    }

    /// The bytes of the view.
    pub fn bytes(&self) -> (r: &'a [u8])
        ensures
            r@ == self.view_bytes(),
    {
        match self {
            RequestRef::Ping(b) => b,
            RequestRef::SupplyKeypair(b) => b,
            RequestRef::AddListenSocket(b) => b,
            RequestRef::AddPskBroker(b) => b,
        }
    }

    /// The bytes of the view, through a mutable borrow of it.
    pub fn bytes_mut(&mut self) -> (r: &[u8])
        ensures
            r@ == old(self).view_bytes(),
    {
        match self {
            RequestRef::Ping(b) => b,
            RequestRef::SupplyKeypair(b) => b,
            RequestRef::AddListenSocket(b) => b,
            RequestRef::AddPskBroker(b) => b,
        }
    }
}

} // verus!
