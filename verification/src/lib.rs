//! Control plane of a rendezvous-and-relay echo service.
//!
//! Clients establish an unreliable datagram session through HTTP-based
//! signaling and the service echoes every datagram back to its sender,
//! byte for byte.  This crate holds the decisions of that control plane:
//! how requests are routed and answered, how the session registry changes
//! over a session's lifetime, and what the relay loop does with each
//! receive and send outcome.  The datagram transport itself and all I/O
//! stay outside, behind plain-value interfaces.

pub mod http;
pub mod message;
pub mod registry;
pub mod relay;
pub mod signaling;
