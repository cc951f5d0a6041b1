//! Completing a signaling exchange: the offer guard, the outcome the
//! transport adapter reports, and how that outcome becomes an answer for
//! the client and a session in the registry.  One exchange yields at most
//! one session, and a failed exchange leaves the registry exactly as it
//! was.

use vstd::prelude::*;

verus! {

use crate::message::Endpoint;
use crate::registry::{Liveness, Registry, Session};

/// Why a signaling exchange failed.
#[derive(Debug, PartialEq, Eq)]
pub enum SignalingError {
    /// The offer was empty: no session description can be read from it.
    EmptyOffer,
    /// The transport adapter rejected the offer, with its description of
    /// why.
    Rejected(String),
    /// The transport adapter itself was unavailable or out of resources.
    AdapterFailed(String),
}

/// What the transport adapter reported for one offer, reduced to plain
/// values: the answer to relay back together with the session it
/// registered, or why it refused.
#[derive(Debug, PartialEq, Eq)]
pub enum NegotiationOutcome {
    /// The adapter produced an answer and holds a fresh session for
    /// `remote`, established at `at`.
    Accepted { answer: String, remote: Endpoint, at: u64 },
    /// The adapter rejected the offer as malformed or unacceptable.
    Refused { reason: String },
    /// The adapter could not serve the exchange at all.
    Unavailable { reason: String },
}

/// Guard applied to the raw offer before the adapter is consulted: an
/// empty body can never hold a session description, so it is rejected
/// without touching the adapter.  Every other offer is opaque here and
/// passed through.
pub fn check_offer(offer: &Vec<u8>) -> (r: Result<(), SignalingError>)
    ensures
        r == if offer@.len() == 0 {
            Err::<(), SignalingError>(SignalingError::EmptyOffer)
        } else {
            Ok::<(), SignalingError>(())
        },
{
    if offer.len() == 0 {
        Err(SignalingError::EmptyOffer)
    } else {
        Ok(())
    }
}

/// Finishes one signaling exchange from the adapter's outcome.  On
/// acceptance the answer is returned verbatim and the fresh session is
/// registered, established and eligible for echo; no other endpoint's
/// record moves.  On refusal the error is returned and the registry is
/// left exactly as it was: a failed exchange registers nothing.
pub fn complete_negotiation(registry: &mut Registry, outcome: NegotiationOutcome) -> (r: Result<
    String,
    SignalingError,
>)
    requires
        old(registry).wf(),
    ensures
        final(registry).wf(),
        outcome matches NegotiationOutcome::Accepted { answer, remote, at } ==> {
            &&& r == Ok::<String, SignalingError>(answer)
            &&& final(registry).record_of(remote) == Some(
                Session { remote, created_at: at, liveness: Liveness::Established },
            )
            &&& final(registry).routable(remote)
            &&& forall|other: Endpoint|
                other != remote ==> final(registry).record_of(other) == old(
                    registry,
                ).record_of(other)
        },
        outcome matches NegotiationOutcome::Refused { reason } ==> r == Err::<
            String,
            SignalingError,
        >(SignalingError::Rejected(reason)) && *final(registry) == *old(registry),
        outcome matches NegotiationOutcome::Unavailable { reason } ==> r == Err::<
            String,
            SignalingError,
        >(SignalingError::AdapterFailed(reason)) && *final(registry) == *old(registry),
{
    match outcome {
        NegotiationOutcome::Accepted { answer, remote, at } => {
            registry.register(remote, at);
            Ok(answer)
        },
        NegotiationOutcome::Refused { reason } => Err(SignalingError::Rejected(reason)),
        NegotiationOutcome::Unavailable { reason } => Err(SignalingError::AdapterFailed(reason)),
    }
}

} // verus!
