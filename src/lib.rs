//! Local broker protocol for handing pre-shared keys to a tunnel-configuration process:
//! length-prefix framing over fixed-capacity secure buffers, the request/response client
//! state machine, and the decisions of a non-blocking stream transport.

pub mod allocator;
pub mod broker_client;
pub mod chacha20poly1305_ietf;
pub mod framing;
pub mod request_ref;
pub mod secure_buffer;
pub mod xchacha20poly1305_ietf;

pub use allocator::{Alloc, AllocError};
pub use broker_client::{
    BrokerClient, BrokerClientPollResponseError, BrokerClientSetPskError, BrokerError, ReadFault,
    RecvStep, SerializedBrokerConfig,
};
pub use framing::{FlushStep, LengthPrefixDecoder, LengthPrefixEncoder, WriteOutcome};
pub use request_ref::{RequestMsgType, RequestRef, RequestRefMaker};
pub use secure_buffer::SecureBuffer;
