//! Datagrams and the endpoints they travel between, as the plain values
//! the relay logic inspects.

use vstd::prelude::*;

verus! {

/// Upper bound, in bytes, on one datagram's payload.  The transport is
/// expected to refuse or truncate anything longer on arrival and to
/// refuse longer sends; the relay itself never cuts a payload down.
pub const MAX_PAYLOAD_LEN: usize = 0x10000;

/// Tag saying how a datagram's payload is to be interpreted.  The echo
/// path must preserve it unchanged.
#[derive(Clone, Copy, Debug, PartialEq, Eq, Structural)]
pub enum MessageType {
    Binary,
    Text,
}

/// A host address, held as the integer value of the IP address.
#[derive(Clone, Copy, Debug, PartialEq, Eq, Structural)]
pub enum HostAddr {
    V4(u32),
    V6(u128),
}

/// A remote network endpoint: the identity of a session.
#[derive(Clone, Copy, Debug, PartialEq, Eq, Structural)]
pub struct Endpoint {
    pub host: HostAddr,
    pub port: u16,
}

/// A datagram received from an established session.
#[derive(Debug, PartialEq, Eq)]
pub struct Inbound {
    pub payload: Vec<u8>,
    pub message_type: MessageType,
    pub origin: Endpoint,
}

/// A datagram to hand to the transport for delivery.
#[derive(Debug, PartialEq, Eq)]
pub struct Outbound {
    pub payload: Vec<u8>,
    pub message_type: MessageType,
    pub destination: Endpoint,
}

} // verus!
