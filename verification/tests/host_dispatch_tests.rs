use shared_cockpit::dispatch::AppCore;
use shared_cockpit::host::JoinOutcome;
use shared_cockpit::messages::Payloads;
use shared_cockpit::registry::ClientManager;

fn n(s: &str) -> Vec<u8> {
    s.as_bytes().to_vec()
}

#[test]
fn host_accepts_a_new_peer() {
    let mut reg = ClientManager::new();
    let outcome = reg.host_accept_peer(n("alice"), &n("2.5.1"), &n("2.5.1"));
    match outcome {
        JoinOutcome::Accepted { announce } => {
            assert_eq!(
                announce,
                Payloads::PlayerJoined {
                    name: n("alice"),
                    in_control: false,
                    is_observer: false,
                    is_server: false,
                }
            );
        }
        other => panic!("expected acceptance, got {:?}", other),
    }
    assert!(reg.contains(&n("alice")));
    assert_eq!(reg.get_number_clients(), 1);
}

#[test]
fn host_rejects_a_version_mismatch() {
    let mut reg = ClientManager::new();
    let outcome = reg.host_accept_peer(n("alice"), &n("2.4.0"), &n("2.5.1"));
    match outcome {
        JoinOutcome::RejectedVersion { reply } => {
            assert_eq!(reply, Payloads::InvalidVersion { server_version: n("2.5.1") });
        }
        other => panic!("expected a version rejection, got {:?}", other),
    }
    assert_eq!(reg.get_number_clients(), 0);
}

#[test]
fn host_rejects_a_duplicate_name_without_adding_it() {
    let mut reg = ClientManager::new();
    reg.add_client(n("alice"));
    reg.set_observer(&n("alice"), true);
    let outcome = reg.host_accept_peer(n("alice"), &n("2.5.1"), &n("2.5.1"));
    match outcome {
        JoinOutcome::RejectedName { reply } => {
            assert_eq!(reply, Payloads::InvalidName);
        }
        other => panic!("expected a name rejection, got {:?}", other),
    }
    // No duplicate entry, and the existing entry is untouched.
    assert_eq!(reg.get_number_clients(), 1);
    assert!(reg.is_observer(&n("alice")));
}

fn observable_state(core: &AppCore, names: &[&str]) -> (bool, bool, usize, Option<Vec<u8>>, Vec<bool>) {
    (
        core.in_control,
        core.observing,
        core.registry.get_number_clients(),
        core.registry.get_client_in_control(),
        names.iter().map(|s| core.registry.client_has_control(&n(s))).collect(),
    )
}

#[test]
fn transfer_control_to_us_takes_the_token() {
    let mut core = AppCore::new();
    core.handle_player_joined(n("bob"), true, false, false);
    assert_eq!(core.registry.get_client_in_control(), Some(n("bob")));
    core.handle_transfer_control(&n("bob"), &n("alice"), &n("alice"));
    assert!(core.in_control);
    assert!(core.registry.get_client_in_control().is_none());
}

#[test]
fn transfer_control_away_relinquishes_the_token() {
    let mut core = AppCore::new();
    core.handle_connection_established(true);
    assert!(core.in_control);
    core.handle_player_joined(n("bob"), false, false, false);
    core.handle_transfer_control(&n("alice"), &n("bob"), &n("alice"));
    assert!(!core.in_control);
    assert_eq!(core.registry.get_client_in_control(), Some(n("bob")));
}

#[test]
fn transfer_control_twice_leaves_the_identical_state() {
    let names = ["alice", "bob", "carol"];
    let mut once = AppCore::new();
    once.handle_player_joined(n("bob"), false, false, false);
    once.handle_player_joined(n("carol"), true, false, false);
    let mut twice = AppCore::new();
    twice.handle_player_joined(n("bob"), false, false, false);
    twice.handle_player_joined(n("carol"), true, false, false);

    once.handle_transfer_control(&n("carol"), &n("bob"), &n("alice"));
    twice.handle_transfer_control(&n("carol"), &n("bob"), &n("alice"));
    twice.handle_transfer_control(&n("carol"), &n("bob"), &n("alice"));
    assert_eq!(observable_state(&once, &names), observable_state(&twice, &names));

    // The same holds when the transfer is addressed to us.
    once.handle_transfer_control(&n("bob"), &n("alice"), &n("alice"));
    twice.handle_transfer_control(&n("bob"), &n("alice"), &n("alice"));
    twice.handle_transfer_control(&n("bob"), &n("alice"), &n("alice"));
    assert_eq!(observable_state(&once, &names), observable_state(&twice, &names));
}

#[test]
fn player_joined_in_control_becomes_the_controller() {
    let mut core = AppCore::new();
    core.handle_player_joined(n("bob"), false, true, false);
    core.handle_player_joined(n("carol"), true, false, true);
    assert!(core.registry.is_observer(&n("bob")));
    assert!(core.registry.client_is_server(&n("carol")));
    assert_eq!(core.registry.get_client_in_control(), Some(n("carol")));
}

#[test]
fn host_reclaims_control_when_the_controller_leaves() {
    let mut core = AppCore::new();
    core.handle_connection_established(true);
    core.handle_player_joined(n("bob"), false, false, false);
    core.handle_transfer_control(&n("alice"), &n("bob"), &n("alice"));
    assert!(!core.in_control);

    let reclaim = core.handle_player_left(&n("bob"), true);
    assert!(reclaim);
    assert!(core.in_control);
    assert!(!core.registry.contains(&n("bob")));
    assert!(core.registry.get_client_in_control().is_none());
}

#[test]
fn non_host_does_not_reclaim_control() {
    let mut core = AppCore::new();
    core.handle_player_joined(n("bob"), true, false, false);
    let reclaim = core.handle_player_left(&n("bob"), false);
    assert!(!reclaim);
    assert!(!core.in_control);
}

#[test]
fn leaving_without_control_changes_nothing_else() {
    let mut core = AppCore::new();
    core.handle_player_joined(n("bob"), false, false, false);
    core.handle_player_joined(n("carol"), true, false, false);
    let reclaim = core.handle_player_left(&n("bob"), true);
    assert!(!reclaim);
    assert_eq!(core.registry.get_client_in_control(), Some(n("carol")));
}

#[test]
fn set_observer_toggles_us_or_the_registry() {
    let mut core = AppCore::new();
    core.handle_player_joined(n("bob"), false, false, false);
    core.handle_set_observer(&n("alice"), true, &n("alice"));
    assert!(core.observing);
    assert!(!core.registry.is_observer(&n("bob")));
    core.handle_set_observer(&n("bob"), true, &n("alice"));
    assert!(core.registry.is_observer(&n("bob")));
    core.handle_set_observer(&n("alice"), false, &n("alice"));
    assert!(!core.observing);
}

#[test]
fn updates_flow_only_from_non_observers_after_ready() {
    let mut core = AppCore::new();
    core.handle_player_joined(n("bob"), false, false, false);
    core.handle_player_joined(n("carol"), false, true, false);
    // Not ready yet: nothing is forwarded.
    assert!(!core.should_forward_update(&n("bob")));
    core.set_ready();
    assert!(core.should_forward_update(&n("bob")));
    // An observer's state never reaches the simulator.
    assert!(!core.should_forward_update(&n("carol")));
}

#[test]
fn ready_pushes_state_only_from_the_controller() {
    let mut core = AppCore::new();
    assert!(!core.on_peer_ready());
    core.handle_connection_established(true);
    assert!(core.on_peer_ready());
    core.handle_connection_established(false);
    assert!(!core.on_peer_ready());
    assert!(core.observing);
}
