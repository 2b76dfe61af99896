use shared_cockpit::MAX_PUNCH_RETRIES;
use shared_cockpit::messages::{Payloads, PeerAddress};
use shared_cockpit::session::{Action, Event, Reason, Session};

fn n(s: &str) -> Vec<u8> {
    s.as_bytes().to_vec()
}

fn peer(port: u16) -> PeerAddress {
    PeerAddress { is_v6: false, ip: 0x7f000001, port }
}

fn count_punchthrough(acts: &[Action]) -> usize {
    acts.iter()
        .filter(|a| matches!(a, Action::Emit { event: Event::UnablePunchthrough }))
        .count()
}

fn count_sends(acts: &[Action]) -> usize {
    acts.iter().filter(|a| matches!(a, Action::Send { .. })).count()
}

#[test]
fn direct_start_sends_handshake_with_empty_session_id() {
    let target = peer(25071);
    let (session, acts) = Session::new_direct(n("alice"), n("2.5.1"), target, 0, 5_000);
    assert!(!session.is_connected());
    assert!(!session.should_stop());
    assert_eq!(acts.len(), 1);
    match &acts[0] {
        Action::Send { to, payload } => {
            assert_eq!(*to, target);
            assert_eq!(*payload, Payloads::Handshake { session_id: Vec::new() });
        }
        other => panic!("expected the initial handshake send, got {:?}", other),
    }
}

#[test]
fn direct_echo_connects_and_inits() {
    // A reachable peer echoing the empty session id back completes the
    // connection at once: init handshake out, established event up.
    let target = peer(25071);
    let (mut session, _) = Session::new_direct(n("alice"), n("2.5.1"), target, 0, 5_000);
    let acts = session.handle_message(target, Payloads::Handshake { session_id: Vec::new() });
    assert!(session.is_connected());
    assert!(!session.should_stop());
    assert_eq!(acts.len(), 3);
    assert_eq!(
        acts[0],
        Action::Send {
            to: target,
            payload: Payloads::InitHandshake { name: n("alice"), version: n("2.5.1") },
        }
    );
    assert_eq!(acts[1], Action::Emit { event: Event::ConnectionEstablished });
    assert_eq!(
        acts[2],
        Action::Deliver { payload: Payloads::Handshake { session_id: Vec::new() } }
    );
}

#[test]
fn handshake_after_connected_is_ignored() {
    let target = peer(25071);
    let (mut session, _) = Session::new_direct(n("alice"), n("2.5.1"), target, 0, 5_000);
    session.handle_message(target, Payloads::Handshake { session_id: Vec::new() });
    let acts = session.handle_message(target, Payloads::Handshake { session_id: Vec::new() });
    // A no-op: no state change, nothing sent, nothing forwarded.
    assert!(acts.is_empty());
    assert!(session.is_connected());
    assert!(!session.should_stop());
}

#[test]
fn session_id_mismatch_never_connects_and_names_both_ids() {
    let rendezvous = peer(5555);
    let target = peer(25071);
    let (mut session, _) =
        Session::new_hole_punch(n("alice"), n("2.5.1"), n("good-id"), rendezvous, 0, 5_000);
    let acts = session.handle_message(target, Payloads::Handshake { session_id: n("evil-id") });
    assert!(!session.is_connected());
    assert!(session.should_stop());
    // The rejected reply is not forwarded: the one action is the event.
    assert_eq!(acts.len(), 1);
    match &acts[0] {
        Action::Emit { event: Event::ConnectionLost { reason } } => {
            assert_eq!(
                *reason,
                Reason::HandshakeMismatch { expected: n("good-id"), got: n("evil-id") }
            );
        }
        other => panic!("expected a connection-lost event, got {:?}", other),
    }
}

#[test]
fn hole_punch_retries_then_gives_up_exactly_once() {
    let rendezvous = peer(5555);
    let target = peer(25071);
    let (mut session, start_acts) =
        Session::new_hole_punch(n("alice"), n("2.5.1"), n("sess"), rendezvous, 0, 30_000);
    assert_eq!(count_sends(&start_acts), 1);

    // The rendezvous server resolves the real peer address.
    session.handle_message(rendezvous, Payloads::AttemptConnection { peer: target });

    let mut all_acts: Vec<Action> = Vec::new();
    let mut now: u64 = 1;
    // One attempt per second until the budget is spent.
    for _ in 0..MAX_PUNCH_RETRIES {
        all_acts.extend(session.handle_handshake(now));
        now += 1_000;
    }
    assert!(session.should_stop());
    assert_eq!(count_sends(&all_acts), MAX_PUNCH_RETRIES as usize);
    assert_eq!(count_punchthrough(&all_acts), 1);

    // Afterwards: no further sends, whatever happens.
    assert!(session.handle_handshake(now).is_empty());
    assert!(session
        .handle_message(target, Payloads::Handshake { session_id: n("sess") })
        .is_empty());
    assert!(session.route_outbound(Payloads::Ready).is_none());
    assert!(!session.is_connected());
}

#[test]
fn retry_waits_for_the_interval() {
    let rendezvous = peer(5555);
    let target = peer(25071);
    let (mut session, _) =
        Session::new_hole_punch(n("alice"), n("2.5.1"), n("sess"), rendezvous, 0, 30_000);
    session.handle_message(rendezvous, Payloads::AttemptConnection { peer: target });
    let first = session.handle_handshake(1_000);
    assert_eq!(count_sends(&first), 1);
    // Half a second later nothing is due yet.
    assert!(session.handle_handshake(1_500).is_empty());
    // A full second later the next attempt goes out.
    let second = session.handle_handshake(2_000);
    assert_eq!(count_sends(&second), 1);
}

#[test]
fn no_retry_without_a_resolved_address() {
    let rendezvous = peer(5555);
    let (mut session, _) =
        Session::new_hole_punch(n("alice"), n("2.5.1"), n("sess"), rendezvous, 0, 30_000);
    assert!(session.handle_handshake(10_000).is_empty());
    assert!(!session.should_stop());
}

#[test]
fn rendezvous_timeout_is_fatal_while_unresolved() {
    let rendezvous = peer(5555);
    let (mut session, _) =
        Session::new_hole_punch(n("alice"), n("2.5.1"), n("sess"), rendezvous, 0, 5_000);
    // Before the bound: nothing happens.
    assert!(session.check_rendezvous_timeout(4_999).is_empty());
    assert!(!session.should_stop());
    // At the bound: the session is lost.
    let acts = session.check_rendezvous_timeout(5_000);
    assert!(session.should_stop());
    assert_eq!(
        acts,
        vec![Action::Emit {
            event: Event::ConnectionLost { reason: Reason::RendezvousTimeout },
        }]
    );
}

#[test]
fn resolved_address_disarms_the_rendezvous_timeout() {
    let rendezvous = peer(5555);
    let target = peer(25071);
    let (mut session, _) =
        Session::new_hole_punch(n("alice"), n("2.5.1"), n("sess"), rendezvous, 0, 5_000);
    session.handle_message(rendezvous, Payloads::AttemptConnection { peer: target });
    assert!(session.check_rendezvous_timeout(1_000_000).is_empty());
    assert!(!session.should_stop());
}

#[test]
fn connection_closed_from_rendezvous_is_tolerated() {
    let rendezvous = peer(5555);
    let (mut session, _) =
        Session::new_hole_punch(n("alice"), n("2.5.1"), n("sess"), rendezvous, 0, 5_000);
    assert!(session.handle_connection_closed(rendezvous).is_empty());
    assert!(!session.should_stop());
}

#[test]
fn connection_closed_from_elsewhere_is_fatal() {
    let rendezvous = peer(5555);
    let (mut session, _) =
        Session::new_hole_punch(n("alice"), n("2.5.1"), n("sess"), rendezvous, 0, 5_000);
    let acts = session.handle_connection_closed(peer(25071));
    assert!(session.should_stop());
    assert_eq!(
        acts,
        vec![Action::Emit {
            event: Event::ConnectionLost { reason: Reason::NoMessageFromServer },
        }]
    );
}

#[test]
fn invalid_version_stops_with_the_server_version() {
    let target = peer(25071);
    let (mut session, _) = Session::new_direct(n("alice"), n("2.5.1"), target, 0, 5_000);
    let acts =
        session.handle_message(target, Payloads::InvalidVersion { server_version: n("2.6.0") });
    assert!(session.should_stop());
    assert_eq!(acts.len(), 2);
    match &acts[0] {
        Action::Emit { event: Event::ConnectionLost { reason } } => {
            assert_eq!(*reason, Reason::MismatchingVersion { server_version: n("2.6.0") });
        }
        other => panic!("expected a connection-lost event, got {:?}", other),
    }
    // The rejection payload itself still reaches the application queue.
    assert_eq!(
        acts[1],
        Action::Deliver { payload: Payloads::InvalidVersion { server_version: n("2.6.0") } }
    );
}

#[test]
fn other_payloads_are_forwarded_exactly_once() {
    let target = peer(25071);
    let (mut session, _) = Session::new_direct(n("alice"), n("2.5.1"), target, 0, 5_000);
    let acts = session.handle_message(target, Payloads::Heartbeat);
    assert_eq!(acts, vec![Action::Deliver { payload: Payloads::Heartbeat }]);
    assert!(!session.should_stop());
    assert!(!session.is_connected());
}

#[test]
fn invalid_name_stops_with_our_name() {
    let target = peer(25071);
    let (mut session, _) = Session::new_direct(n("alice"), n("2.5.1"), target, 0, 5_000);
    let acts = session.handle_message(target, Payloads::InvalidName);
    assert!(session.should_stop());
    match &acts[0] {
        Action::Emit { event: Event::ConnectionLost { reason } } => {
            assert_eq!(*reason, Reason::NameInUse { name: n("alice") });
        }
        other => panic!("expected a connection-lost event, got {:?}", other),
    }
}

#[test]
fn outbound_payloads_are_dropped_until_resolution() {
    let rendezvous = peer(5555);
    let target = peer(25071);
    let (mut session, _) =
        Session::new_hole_punch(n("alice"), n("2.5.1"), n("sess"), rendezvous, 0, 5_000);
    // No peer address yet: the payload is silently dropped.
    assert!(session.route_outbound(Payloads::Ready).is_none());
    session.handle_message(rendezvous, Payloads::AttemptConnection { peer: target });
    match session.route_outbound(Payloads::Ready) {
        Some(Action::Send { to, payload }) => {
            assert_eq!(to, target);
            assert_eq!(payload, Payloads::Ready);
        }
        other => panic!("expected a send to the resolved peer, got {:?}", other),
    }
}

#[test]
fn deliberate_stop_is_idempotent() {
    let target = peer(25071);
    let (mut session, _) = Session::new_direct(n("alice"), n("2.5.1"), target, 0, 5_000);
    let first = session.stop(Reason::Stopped { text: n("Stopped.") });
    assert_eq!(first.len(), 1);
    assert!(session.should_stop());
    let second = session.stop(Reason::Stopped { text: n("Stopped.") });
    assert!(second.is_empty());
}

#[test]
fn session_id_is_kept() {
    let rendezvous = peer(5555);
    let (session, _) =
        Session::new_hole_punch(n("alice"), n("2.5.1"), n("sess"), rendezvous, 0, 5_000);
    assert_eq!(session.get_session_id(), n("sess"));
}
