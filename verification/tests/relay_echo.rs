use echo_server::message::{Endpoint, HostAddr, Inbound, MessageType, Outbound, MAX_PAYLOAD_LEN};
use echo_server::relay::{after_send, relay_step, run_relay, RelayAction, ReceiveFailure, SendFailure};

fn peer(port: u16) -> Endpoint {
    Endpoint { host: HostAddr::V4(0x0a00_0002), port }
}

fn inbound(payload: Vec<u8>, message_type: MessageType, port: u16) -> Inbound {
    Inbound { payload, message_type, origin: peer(port) }
}

#[test]
fn binary_payload_is_echoed_verbatim_to_origin() {
    let action = relay_step(Ok(inbound(vec![0x01, 0x02, 0x03], MessageType::Binary, 50000)));
    assert_eq!(
        action,
        RelayAction::Echo(Outbound {
            payload: vec![0x01, 0x02, 0x03],
            message_type: MessageType::Binary,
            destination: peer(50000),
        })
    );
}

#[test]
fn text_payload_keeps_its_message_type() {
    let action = relay_step(Ok(inbound(b"hello".to_vec(), MessageType::Text, 50001)));
    assert_eq!(
        action,
        RelayAction::Echo(Outbound {
            payload: b"hello".to_vec(),
            message_type: MessageType::Text,
            destination: peer(50001),
        })
    );
}

#[test]
fn empty_payload_is_echoed_as_itself() {
    let action = relay_step(Ok(inbound(Vec::new(), MessageType::Binary, 50002)));
    assert_eq!(
        action,
        RelayAction::Echo(Outbound {
            payload: Vec::new(),
            message_type: MessageType::Binary,
            destination: peer(50002),
        })
    );
}

#[test]
fn a_payload_of_the_maximum_length_is_echoed_whole() {
    assert_eq!(MAX_PAYLOAD_LEN, 0x10000);
    let payload = vec![0xabu8; MAX_PAYLOAD_LEN];
    let action = relay_step(Ok(inbound(payload.clone(), MessageType::Binary, 50003)));
    assert_eq!(
        action,
        RelayAction::Echo(Outbound {
            payload,
            message_type: MessageType::Binary,
            destination: peer(50003),
        })
    );
}

#[test]
fn transient_receive_failure_continues() {
    assert_eq!(relay_step(Err(ReceiveFailure::Transient)), RelayAction::Continue);
}

#[test]
fn dead_listener_stops_the_loop() {
    assert_eq!(relay_step(Err(ReceiveFailure::ListenerClosed)), RelayAction::Stop);
}

#[test]
fn failed_send_never_stops_the_loop() {
    assert_eq!(after_send(&Err(SendFailure::SessionClosed)), RelayAction::Continue);
    assert_eq!(after_send(&Err(SendFailure::PayloadTooLarge)), RelayAction::Continue);
    assert_eq!(after_send(&Err(SendFailure::Transport)), RelayAction::Continue);
    assert_eq!(after_send(&Ok(())), RelayAction::Continue);
}

#[test]
fn echoes_are_issued_in_arrival_order() {
    let m1 = inbound(vec![1], MessageType::Binary, 50000);
    let m2 = inbound(vec![2], MessageType::Binary, 50000);
    let echoes = run_relay(vec![Ok(m1), Ok(m2)]);
    assert_eq!(
        echoes,
        vec![
            Outbound { payload: vec![1], message_type: MessageType::Binary, destination: peer(50000) },
            Outbound { payload: vec![2], message_type: MessageType::Binary, destination: peer(50000) },
        ]
    );
}

#[test]
fn transient_failures_between_arrivals_are_skipped() {
    let m1 = inbound(vec![1], MessageType::Text, 50000);
    let m2 = inbound(vec![2], MessageType::Binary, 50001);
    let echoes = run_relay(vec![Ok(m1), Err(ReceiveFailure::Transient), Ok(m2)]);
    assert_eq!(
        echoes,
        vec![
            Outbound { payload: vec![1], message_type: MessageType::Text, destination: peer(50000) },
            Outbound { payload: vec![2], message_type: MessageType::Binary, destination: peer(50001) },
        ]
    );
}

#[test]
fn nothing_is_echoed_after_the_listener_dies() {
    let m1 = inbound(vec![1], MessageType::Binary, 50000);
    let m2 = inbound(vec![2], MessageType::Binary, 50000);
    let echoes = run_relay(vec![Ok(m1), Err(ReceiveFailure::ListenerClosed), Ok(m2)]);
    assert_eq!(
        echoes,
        vec![Outbound {
            payload: vec![1],
            message_type: MessageType::Binary,
            destination: peer(50000),
        }]
    );
}
