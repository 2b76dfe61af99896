use shared_cockpit::registry::ClientManager;

fn n(s: &str) -> Vec<u8> {
    s.as_bytes().to_vec()
}

#[test]
fn new_registry_is_empty() {
    let reg = ClientManager::new();
    assert_eq!(reg.get_number_clients(), 0);
    assert!(reg.get_client_in_control().is_none());
}

#[test]
fn add_and_query_clients() {
    let mut reg = ClientManager::new();
    reg.add_client(n("alice"));
    reg.add_client(n("bob"));
    assert_eq!(reg.get_number_clients(), 2);
    assert!(reg.contains(&n("alice")));
    assert!(reg.contains(&n("bob")));
    assert!(!reg.contains(&n("carol")));
    // Fresh entries carry no flags.
    assert!(!reg.is_observer(&n("alice")));
    assert!(!reg.client_is_server(&n("alice")));
    assert!(!reg.client_has_control(&n("alice")));
}

#[test]
fn add_duplicate_name_is_a_no_op() {
    let mut reg = ClientManager::new();
    reg.add_client(n("alice"));
    reg.set_observer(&n("alice"), true);
    reg.add_client(n("alice"));
    assert_eq!(reg.get_number_clients(), 1);
    // The original entry, flags included, is untouched.
    assert!(reg.is_observer(&n("alice")));
}

#[test]
fn remove_client_drops_only_that_entry() {
    let mut reg = ClientManager::new();
    reg.add_client(n("alice"));
    reg.add_client(n("bob"));
    reg.remove_client(&n("alice"));
    assert_eq!(reg.get_number_clients(), 1);
    assert!(!reg.contains(&n("alice")));
    assert!(reg.contains(&n("bob")));
    // Removing an unknown name changes nothing.
    reg.remove_client(&n("carol"));
    assert_eq!(reg.get_number_clients(), 1);
}

#[test]
fn observer_and_server_flags_are_per_client() {
    let mut reg = ClientManager::new();
    reg.add_client(n("alice"));
    reg.add_client(n("bob"));
    reg.set_observer(&n("alice"), true);
    reg.set_server(&n("bob"), true);
    assert!(reg.is_observer(&n("alice")));
    assert!(!reg.is_observer(&n("bob")));
    assert!(reg.client_is_server(&n("bob")));
    assert!(!reg.client_is_server(&n("alice")));
    reg.set_observer(&n("alice"), false);
    assert!(!reg.is_observer(&n("alice")));
    // An unknown peer is not an observer.
    assert!(!reg.is_observer(&n("carol")));
}

#[test]
fn control_is_exclusive() {
    let mut reg = ClientManager::new();
    reg.add_client(n("alice"));
    reg.add_client(n("bob"));
    reg.add_client(n("carol"));
    reg.set_client_control(&n("bob"));
    assert!(reg.client_has_control(&n("bob")));
    assert!(!reg.client_has_control(&n("alice")));
    assert!(!reg.client_has_control(&n("carol")));
    assert_eq!(reg.get_client_in_control(), Some(n("bob")));
    // Handing control on clears the previous controller first.
    reg.set_client_control(&n("carol"));
    assert!(reg.client_has_control(&n("carol")));
    assert!(!reg.client_has_control(&n("bob")));
    assert_eq!(reg.get_client_in_control(), Some(n("carol")));
}

#[test]
fn set_client_control_twice_is_idempotent() {
    let mut once = ClientManager::new();
    once.add_client(n("alice"));
    once.add_client(n("bob"));
    once.set_client_control(&n("bob"));

    let mut twice = ClientManager::new();
    twice.add_client(n("alice"));
    twice.add_client(n("bob"));
    twice.set_client_control(&n("bob"));
    twice.set_client_control(&n("bob"));

    assert_eq!(once.get_number_clients(), twice.get_number_clients());
    assert_eq!(once.get_client_in_control(), twice.get_client_in_control());
    for name in [n("alice"), n("bob")] {
        assert_eq!(once.client_has_control(&name), twice.client_has_control(&name));
        assert_eq!(once.is_observer(&name), twice.is_observer(&name));
        assert_eq!(once.client_is_server(&name), twice.client_is_server(&name));
    }
}

#[test]
fn set_no_control_leaves_no_controller() {
    let mut reg = ClientManager::new();
    reg.add_client(n("alice"));
    reg.set_client_control(&n("alice"));
    reg.set_no_control();
    assert!(reg.get_client_in_control().is_none());
    assert!(!reg.client_has_control(&n("alice")));
}

#[test]
fn at_most_one_controller_over_join_leave_sequences() {
    // A registry driven by an arbitrary joined/left/control sequence
    // never shows two controllers at any observation point.
    let mut reg = ClientManager::new();
    let script: Vec<(&str, &str)> = vec![
        ("join", "alice"),
        ("join", "bob"),
        ("control", "alice"),
        ("join", "carol"),
        ("control", "bob"),
        ("leave", "alice"),
        ("join", "alice"),
        ("control", "carol"),
        ("leave", "carol"),
        ("join", "dave"),
    ];
    for (op, who) in script {
        match op {
            "join" => reg.add_client(n(who)),
            "leave" => reg.remove_client(&n(who)),
            "control" => reg.set_client_control(&n(who)),
            _ => unreachable!(),
        }
        let mut controllers = 0;
        for name in ["alice", "bob", "carol", "dave"] {
            if reg.client_has_control(&n(name)) {
                controllers += 1;
            }
        }
        assert!(controllers <= 1);
    }
}

#[test]
fn reset_forgets_everyone() {
    let mut reg = ClientManager::new();
    reg.add_client(n("alice"));
    reg.set_client_control(&n("alice"));
    reg.reset();
    assert_eq!(reg.get_number_clients(), 0);
    assert!(!reg.contains(&n("alice")));
    assert!(reg.get_client_in_control().is_none());
}
