use http_tunnel::codec::Nugget;
use http_tunnel::tunnel::{
    EstablishTunnelResult, HandshakeAction, HandshakeEvent, HandshakeState, HttpTunnelTarget,
    Relay, RelayShutdownReasons, RelayStep, TunnelCtx, TunnelStats, TunnelTarget,
};

fn run(events: &[HandshakeEvent]) -> (HandshakeState, Vec<HandshakeAction>) {
    let mut state = HandshakeState::start();
    let mut actions = Vec::new();
    for e in events {
        assert!(state.accepts(e));
        let (next, action) = state.step(*e);
        state = next;
        actions.push(action);
    }
    (state, actions)
}

#[test]
fn successful_handshake_sends_ok_then_relays() {
    let (state, actions) = run(&[
        HandshakeEvent::RequestDecoded { has_nugget: false },
        HandshakeEvent::TargetConnected,
        HandshakeEvent::ResponseWritten { delivered: true },
    ]);
    assert_eq!(state, HandshakeState::Relaying);
    assert_eq!(
        actions,
        vec![
            HandshakeAction::ConnectTarget,
            HandshakeAction::SendResponse { response: EstablishTunnelResult::Success },
            HandshakeAction::StartRelay,
        ]
    );
}

#[test]
fn nugget_handshake_relays_without_response() {
    let (state, actions) = run(&[
        HandshakeEvent::RequestDecoded { has_nugget: true },
        HandshakeEvent::TargetConnected,
    ]);
    assert_eq!(state, HandshakeState::Relaying);
    assert_eq!(actions, vec![HandshakeAction::ConnectTarget, HandshakeAction::StartRelay]);
}

#[test]
fn connect_timeout_answers_gateway_timeout() {
    let (state, actions) = run(&[
        HandshakeEvent::RequestDecoded { has_nugget: false },
        HandshakeEvent::TargetFailed { timed_out: true },
        HandshakeEvent::ResponseWritten { delivered: true },
    ]);
    assert_eq!(state, HandshakeState::Finished { result: EstablishTunnelResult::GatewayTimeout });
    assert_eq!(
        actions[1],
        HandshakeAction::SendResponse { response: EstablishTunnelResult::GatewayTimeout }
    );
    assert_eq!(
        actions[2],
        HandshakeAction::Finish { result: EstablishTunnelResult::GatewayTimeout }
    );
}

#[test]
fn connect_error_answers_bad_gateway() {
    let (state, _) = run(&[
        HandshakeEvent::RequestDecoded { has_nugget: false },
        HandshakeEvent::TargetFailed { timed_out: false },
        HandshakeEvent::ResponseWritten { delivered: true },
    ]);
    assert_eq!(state, HandshakeState::Finished { result: EstablishTunnelResult::BadGateway });
}

#[test]
fn rejected_request_is_answered_with_its_error() {
    let (state, actions) = run(&[
        HandshakeEvent::RequestRejected { error: EstablishTunnelResult::OperationNotAllowed },
        HandshakeEvent::ResponseWritten { delivered: true },
    ]);
    assert_eq!(
        actions[0],
        HandshakeAction::SendResponse { response: EstablishTunnelResult::OperationNotAllowed }
    );
    assert_eq!(
        state,
        HandshakeState::Finished { result: EstablishTunnelResult::OperationNotAllowed }
    );
}

#[test]
fn closed_client_gets_bad_request() {
    let (state, actions) = run(&[
        HandshakeEvent::ClientClosed,
        HandshakeEvent::ResponseWritten { delivered: true },
    ]);
    assert_eq!(
        actions[0],
        HandshakeAction::SendResponse { response: EstablishTunnelResult::BadRequest }
    );
    assert_eq!(state, HandshakeState::Finished { result: EstablishTunnelResult::BadRequest });
}

#[test]
fn undelivered_response_ends_as_request_timeout() {
    let (state, _) = run(&[
        HandshakeEvent::RequestDecoded { has_nugget: false },
        HandshakeEvent::TargetConnected,
        HandshakeEvent::ResponseWritten { delivered: false },
    ]);
    assert_eq!(state, HandshakeState::Finished { result: EstablishTunnelResult::RequestTimeout });
}

#[test]
fn finished_states_take_no_events() {
    assert!(!HandshakeState::Relaying.accepts(&HandshakeEvent::TargetConnected));
    let done = HandshakeState::Finished { result: EstablishTunnelResult::BadRequest };
    assert!(!done.accepts(&HandshakeEvent::ClientClosed));
    assert!(!HandshakeState::start().accepts(&HandshakeEvent::TargetConnected));
    assert!(!HandshakeState::Connecting { has_nugget: false }
        .accepts(&HandshakeEvent::ResponseWritten { delivered: true }));
}

#[test]
fn from_connect_error_maps_timeouts() {
    assert_eq!(
        EstablishTunnelResult::from_connect_error(true),
        EstablishTunnelResult::GatewayTimeout
    );
    assert_eq!(EstablishTunnelResult::from_connect_error(false), EstablishTunnelResult::BadGateway);
}

#[test]
fn relay_decisions() {
    let relay = Relay::new("Downstream");
    assert_eq!(relay.get_name(), "Downstream");
    assert_eq!(
        relay.after_read(None),
        RelayStep::Stop { reason: RelayShutdownReasons::ReaderTimeout }
    );
    assert_eq!(
        relay.after_read(Some(0)),
        RelayStep::Stop { reason: RelayShutdownReasons::GracefulShutdown }
    );
    assert_eq!(relay.after_read(Some(2)), RelayStep::Forward { len: 2 });
    assert_eq!(relay.after_write(true), RelayStep::ReadMore);
    assert_eq!(
        relay.after_write(false),
        RelayStep::Stop { reason: RelayShutdownReasons::WriteError }
    );
    assert_eq!(
        relay.stats(RelayShutdownReasons::GracefulShutdown).shutdown_reason,
        RelayShutdownReasons::GracefulShutdown
    );
}

#[test]
fn tunnel_ctx_displays_decimal_id() {
    assert_eq!(TunnelCtx::new(0).to_string(), "0");
    assert_eq!(TunnelCtx::new(9).to_string(), "9");
    assert_eq!(TunnelCtx::new(10).to_string(), "10");
    assert_eq!(TunnelCtx::new(1234567890).to_string(), "1234567890");
    assert_eq!(TunnelCtx::new(u128::MAX).to_string(), u128::MAX.to_string());
}

#[test]
fn http_tunnel_target_accessors() {
    let t = HttpTunnelTarget::new("h:1".to_string(), Some(Nugget::new(vec![1, 2, 3])));
    assert_eq!(t.to_string(), "h:1");
    assert_eq!(t.target_addr(), "h:1");
    assert!(t.has_nugget());
    assert_eq!(t.nugget().data().as_slice(), &[1, 2, 3]);
    let plain = HttpTunnelTarget::new("h:2".to_string(), None);
    assert!(!plain.has_nugget());
}

#[test]
fn tunnel_stats_keep_result() {
    let s = TunnelStats::new(EstablishTunnelResult::Forbidden);
    assert_eq!(s.get_result(), EstablishTunnelResult::Forbidden);
}
