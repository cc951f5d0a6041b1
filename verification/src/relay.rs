//! The relay loop's decisions.  Each iteration receives the next inbound
//! datagram from the transport across all sessions and echoes it back to
//! its origin: same bytes, same message type, no transformation and no
//! reordering relative to arrival.  A failed send is logged and never
//! retried; a transient receive failure is logged and skipped; only a
//! dead listener ends the loop.

use vstd::prelude::*;

verus! {

use crate::message::{Inbound, Outbound};

/// Why the transport could not produce the next datagram.
#[derive(Clone, Copy, Debug, PartialEq, Eq, Structural)]
pub enum ReceiveFailure {
    /// A transient relay-level failure: logged, then the loop goes on.
    Transient,
    /// The underlying listener itself is unusable: the loop ends.
    ListenerClosed,
}

/// Why an echo could not be handed to the transport.
#[derive(Clone, Copy, Debug, PartialEq, Eq, Structural)]
pub enum SendFailure {
    /// The destination session is no longer established.
    SessionClosed,
    /// The payload does not fit in one datagram of the transport.
    PayloadTooLarge,
    /// An I/O failure on the underlying socket.
    Transport,
}

/// What the relay loop does next, after consulting the transport once.
#[derive(Debug, PartialEq, Eq)]
pub enum RelayAction {
    /// Hand this datagram to the transport, then continue.
    Echo(Outbound),
    /// Nothing to send; continue with the next receive.
    Continue,
    /// The listener is gone: the loop terminates.
    Stop,
}

/// The echo of an inbound datagram: its exact payload and message type,
/// destined to its origin.
pub open spec fn echo_of(m: Inbound) -> Outbound {
    Outbound { payload: m.payload, message_type: m.message_type, destination: m.origin }
}

/// What one receive outcome makes the relay loop do: echo every received
/// datagram, skip past a transient failure, stop only for a dead
/// listener.
pub open spec fn step_decision(event: Result<Inbound, ReceiveFailure>) -> RelayAction {
    match event {
        Ok(m) => RelayAction::Echo(echo_of(m)),
        Err(ReceiveFailure::Transient) => RelayAction::Continue,
        Err(ReceiveFailure::ListenerClosed) => RelayAction::Stop,
    }
}

/// One iteration's decision, from the outcome of one receive.
pub fn relay_step(event: Result<Inbound, ReceiveFailure>) -> (a: RelayAction)
    ensures
        a == step_decision(event),
{
    match event {
        Ok(m) => RelayAction::Echo(
            Outbound { payload: m.payload, message_type: m.message_type, destination: m.origin },
        ),
        Err(ReceiveFailure::Transient) => RelayAction::Continue,
        Err(ReceiveFailure::ListenerClosed) => RelayAction::Stop,
    }
}

/// What the relay loop does once an echo has been handed to the
/// transport: nothing but continue.  Delivery is best-effort, so a
/// failure is logged by the caller and never retried, and it never ends
/// the loop.
pub open spec fn send_decision(outcome: Result<(), SendFailure>) -> RelayAction {
    RelayAction::Continue
}

/// The decision after one send attempt.
pub fn after_send(outcome: &Result<(), SendFailure>) -> (a: RelayAction)
    ensures
        a == send_decision(*outcome),
{
    RelayAction::Continue
}

/// The echoes the relay loop issues for a finite sequence of receive
/// outcomes, in the order it issues them: one echo per received
/// datagram, none for a transient failure, and none at all once the
/// listener is gone.
pub open spec fn echoes_of(events: Seq<Result<Inbound, ReceiveFailure>>) -> Seq<Outbound>
    decreases events.len(),
{
    if events.len() == 0 {
        Seq::empty()
    } else {
        match step_decision(events[0]) {
            RelayAction::Echo(out) => seq![out] + echoes_of(
                events.subrange(1, events.len() as int),
            ),
            RelayAction::Continue => echoes_of(events.subrange(1, events.len() as int)),
            RelayAction::Stop => Seq::empty(),
        }
    }
}

/// The echoes issued when the transport answers each send attempt as
/// `send_outcomes` records, one outcome per echo: after every attempt
/// the loop consults `send_decision` before moving on.  An attempt
/// beyond the recorded outcomes counts as accepted.
pub open spec fn echoes_despite_sends(
    events: Seq<Result<Inbound, ReceiveFailure>>,
    send_outcomes: Seq<Result<(), SendFailure>>,
) -> Seq<Outbound>
    decreases events.len(),
{
    if events.len() == 0 {
        Seq::empty()
    } else {
        let rest = events.subrange(1, events.len() as int);
        match step_decision(events[0]) {
            RelayAction::Echo(out) => {
                let attempt = if send_outcomes.len() > 0 {
                    send_outcomes[0]
                } else {
                    Ok(())
                };
                match send_decision(attempt) {
                    RelayAction::Continue => seq![out] + echoes_despite_sends(
                        rest,
                        send_outcomes.subrange(
                            if send_outcomes.len() > 0 {
                                1int
                            } else {
                                0int
                            },
                            send_outcomes.len() as int,
                        ),
                    ),
                    _ => seq![out],
                }
            },
            RelayAction::Continue => echoes_despite_sends(rest, send_outcomes),
            RelayAction::Stop => Seq::empty(),
        }
    }
}

/// Failure isolation: whatever the transport answers for each send
/// attempt, the loop issues exactly the echoes it would issue if every
/// send succeeded.  A failed echo costs nothing but itself.
pub proof fn lemma_send_failures_isolated(
    events: Seq<Result<Inbound, ReceiveFailure>>,
    send_outcomes: Seq<Result<(), SendFailure>>,
)
    ensures
        echoes_despite_sends(events, send_outcomes) == echoes_of(events),
    decreases events.len(),
{
    if events.len() > 0 {
        let rest = events.subrange(1, events.len() as int);
        match step_decision(events[0]) {
            RelayAction::Echo(out) => {
                lemma_send_failures_isolated(
                    rest,
                    send_outcomes.subrange(
                        if send_outcomes.len() > 0 {
                            1int
                        } else {
                            0int
                        },
                        send_outcomes.len() as int,
                    ),
                );
            },
            RelayAction::Continue => {
                lemma_send_failures_isolated(rest, send_outcomes);
            },
            RelayAction::Stop => {},
        }
    }
}

/// How many of the first `i` receive outcomes delivered a datagram.
pub open spec fn received_before(events: Seq<Result<Inbound, ReceiveFailure>>, i: int) -> int
    decreases i,
{
    if i <= 0 {
        0
    } else {
        received_before(events, i - 1) + if events[i - 1] is Ok {
            1int
        } else {
            0int
        }
    }
}

proof fn lemma_received_before_nonneg(events: Seq<Result<Inbound, ReceiveFailure>>, i: int)
    ensures
        received_before(events, i) >= 0,
    decreases i,
{
    if i > 0 {
        lemma_received_before_nonneg(events, i - 1);
    }
}

proof fn lemma_received_before_tail(events: Seq<Result<Inbound, ReceiveFailure>>, i: int)
    requires
        1 <= i <= events.len(),
    ensures
        received_before(events, i) == received_before(events.subrange(1, events.len() as int), i - 1)
            + if events[0] is Ok {
            1int
        } else {
            0int
        },
    decreases i,
{
    let tail = events.subrange(1, events.len() as int);
    if i == 1 {
        assert(received_before(events, 0) == 0);
        assert(received_before(tail, 0) == 0);
    } else {
        lemma_received_before_tail(events, i - 1);
        assert(tail[i - 2] == events[i - 1]);
    }
}

/// Arrival order is echo order: as long as the listener has not died,
/// the k-th received datagram yields the k-th echo the loop issues, and
/// that echo is the received datagram's exact payload and type, destined
/// to its origin.
pub proof fn lemma_echoes_in_arrival_order(events: Seq<Result<Inbound, ReceiveFailure>>, i: int)
    requires
        0 <= i < events.len(),
        events[i] is Ok,
        forall|j: int| 0 <= j <= i ==> events[j] != Err::<Inbound, ReceiveFailure>(
            ReceiveFailure::ListenerClosed,
        ),
    ensures
        received_before(events, i) < echoes_of(events).len(),
        echoes_of(events)[received_before(events, i)] == echo_of(events[i]->Ok_0),
    decreases events.len(),
{
    let tail = events.subrange(1, events.len() as int);
    if i == 0 {
        assert(received_before(events, 0) == 0);
        assert(echoes_of(events) == seq![echo_of(events[0]->Ok_0)] + echoes_of(tail));
    } else {
        assert(events[0] != Err::<Inbound, ReceiveFailure>(ReceiveFailure::ListenerClosed));
        assert(tail[i - 1] == events[i]);
        assert forall|j: int|
            0 <= j <= i - 1 implies tail[j] != Err::<Inbound, ReceiveFailure>(
            ReceiveFailure::ListenerClosed,
        ) by {
            assert(events[j + 1] != Err::<Inbound, ReceiveFailure>(ReceiveFailure::ListenerClosed));
        }
        lemma_received_before_nonneg(tail, i - 1);
        lemma_received_before_tail(events, i);
        lemma_echoes_in_arrival_order(tail, i - 1);
        match step_decision(events[0]) {
            RelayAction::Echo(out) => {
                assert(echoes_of(events) == seq![out] + echoes_of(tail));
                assert(received_before(events, i) == 1 + received_before(tail, i - 1));
                assert((seq![out] + echoes_of(tail))[1 + received_before(tail, i - 1)]
                    == echoes_of(tail)[received_before(tail, i - 1)]);
            },
            RelayAction::Continue => {
                assert(echoes_of(events) == echoes_of(tail));
                assert(received_before(events, i) == received_before(tail, i - 1));
            },
            RelayAction::Stop => {
                assert(false);
            },
        }
    }
}

/// Per-session echo order: a session sends `m1` then `m2` with nothing
/// arriving in between, and the loop echoes `m1` then `m2`, each
/// verbatim.
pub proof fn lemma_echo_pair_in_order(m1: Inbound, m2: Inbound)
    ensures
        echoes_of(seq![Ok::<Inbound, ReceiveFailure>(m1), Ok::<Inbound, ReceiveFailure>(m2)])
            == seq![echo_of(m1), echo_of(m2)],
{
    let events = seq![Ok::<Inbound, ReceiveFailure>(m1), Ok::<Inbound, ReceiveFailure>(m2)];
    let tail = events.subrange(1, 2);
    assert(tail =~= seq![Ok::<Inbound, ReceiveFailure>(m2)]);
    assert(tail.subrange(1, 1) =~= Seq::<Result<Inbound, ReceiveFailure>>::empty());
    assert(echoes_of(tail.subrange(1, 1)) == Seq::<Outbound>::empty());
    assert(echoes_of(tail) == seq![echo_of(m2)] + Seq::<Outbound>::empty());
    assert(echoes_of(events) == seq![echo_of(m1)] + echoes_of(tail));
    assert(echoes_of(events) =~= seq![echo_of(m1), echo_of(m2)]);
}

/// The echo path is the identity transform: what a received datagram's
/// echo carries is the received bytes, the received message type, and
/// the origin it came from.
pub proof fn lemma_echo_is_identity(m: Inbound)
    ensures
        step_decision(Ok(m)) == RelayAction::Echo(echo_of(m)),
        echo_of(m).payload == m.payload,
        echo_of(m).message_type == m.message_type,
        echo_of(m).destination == m.origin,
{
}

/// The relay loop, run over a finite, pre-recorded sequence of receive
/// outcomes: applies `relay_step` to each in arrival order and collects
/// the echoes in the order they are issued.
pub fn run_relay(events: Vec<Result<Inbound, ReceiveFailure>>) -> (echoes: Vec<Outbound>)
    ensures
        echoes@ == echoes_of(events@),
{
    let ghost all_events = events@;
    let mut remaining = events;
    let mut echoes: Vec<Outbound> = Vec::new();
    loop
        invariant_except_break
            echoes_of(all_events) == echoes@ + echoes_of(remaining@),
        ensures
            echoes@ == echoes_of(all_events),
        decreases remaining@.len(),
    {
        if remaining.len() == 0 {
            proof {
                assert(echoes@ + echoes_of(remaining@) =~= echoes@);
            }
            break ;
        }
        let ghost before = remaining@;
        let event = remaining.remove(0);
        proof {
            assert(remaining@ =~= before.subrange(1, before.len() as int));
        }
        match relay_step(event) {
            RelayAction::Echo(out) => {
                proof {
                    assert(echoes_of(before) == seq![out] + echoes_of(remaining@));
                    assert(echoes@ + echoes_of(before) =~= echoes@.push(out) + echoes_of(
                        remaining@,
                    ));
                }
                echoes.push(out);
            },
            RelayAction::Continue => {
                proof {
                    assert(echoes_of(before) == echoes_of(remaining@));
                }
            },
            RelayAction::Stop => {
                proof {
                    assert(echoes_of(before) == Seq::<Outbound>::empty());
                    assert(echoes@ + echoes_of(before) =~= echoes@);
                }
                break ;
            },
        }
    }
    echoes
}

} // verus!
