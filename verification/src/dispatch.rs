//! Application-side message dispatch: the effects that inbound session
//! messages have on the local control token, the observer flag, the
//! readiness gate and the client registry — the table the main loop
//! reproduces for `TransferControl`, `SetObserver`, `PlayerJoined`,
//! `PlayerLeft`, `Update` and `Ready`.
use vstd::prelude::*;

use crate::messages::copy_bytes;
use crate::registry::ClientManager;
use crate::registry::InfoV;
use crate::registry::at_most_one_control;
use crate::registry::lemma_add_entry_wf;
use crate::registry::lemma_clear_control_wf;
use crate::registry::lemma_ctrl_to_wf;
use crate::registry::lemma_remove_entry_wf;
use crate::registry::lemma_with_observer_wf;
use crate::registry::lemma_with_server_wf;
use crate::registry::add_entry;
use crate::registry::clear_control;
use crate::registry::ctrl_to;
use crate::registry::lemma_clear_control_idempotent;
use crate::registry::lemma_ctrl_to_idempotent;
use crate::registry::name_in_control;
use crate::registry::name_is_observer;
use crate::registry::registry_wf;
use crate::registry::remove_entry;
use crate::registry::with_observer;
use crate::registry::with_server;

verus! {

/// The application loop's session-facing state: who we are tracking,
/// whether we currently drive the shared aircraft, whether we only
/// observe, and whether the initial-ready delay has passed.
pub struct AppCore {
    pub registry: ClientManager,
    /// The local control token: "do I currently drive the aircraft".
    pub in_control: bool,
    /// Whether this peer only observes.
    pub observing: bool,
    /// Whether the post-definition readiness delay has elapsed.
    pub ready: bool,
}

/// The model of the application core.
pub struct CoreV {
    pub registry: Seq<InfoV>,
    pub in_control: bool,
    pub observing: bool,
    pub ready: bool,
}

impl View for AppCore {
    type V = CoreV;

    open spec fn view(&self) -> CoreV {
        CoreV {
            registry: self.registry@,
            in_control: self.in_control,
            observing: self.observing,
            ready: self.ready,
        }
    }
}

pub open spec fn core_wf(c: CoreV) -> bool {
    registry_wf(c.registry)
}

// ---------------------------------------------------------------------
// Specification-level dispatch effects
// ---------------------------------------------------------------------

/// `TransferControl{from, to}`: if control comes to us, take the local
/// token and clear "who has control" in the registry; otherwise mark
/// `to` as the controller, and relinquish the token if control left us.
pub open spec fn step_transfer_control(
    c: CoreV,
    from: Seq<u8>,
    to: Seq<u8>,
    self_name: Seq<u8>,
) -> CoreV {
    if to == self_name {
        CoreV { registry: clear_control(c.registry), in_control: true, ..c }
    } else {
        CoreV {
            registry: ctrl_to(c.registry, to),
            in_control: if from == self_name {
                false
            } else {
                c.in_control
            },
            ..c
        }
    }
}

/// `PlayerJoined`: register the peer with its flags; if it joins in
/// control, it becomes the sole controller.
pub open spec fn step_player_joined(
    c: CoreV,
    name: Seq<u8>,
    in_control: bool,
    is_observer: bool,
    is_server: bool,
) -> CoreV {
    let r1 = with_observer(with_server(add_entry(c.registry, name), name, is_server), name, is_observer);
    CoreV {
        registry: if in_control {
            ctrl_to(r1, name)
        } else {
            r1
        },
        ..c
    }
}

/// `PlayerLeft`: drop the peer; if it held control, nobody does — and a
/// host reclaims the token (announcing the transfer to itself).
pub open spec fn step_player_left(c: CoreV, name: Seq<u8>, is_host: bool) -> CoreV {
    let had_control = name_in_control(c.registry, name);
    let r1 = remove_entry(c.registry, name);
    if had_control {
        CoreV {
            registry: clear_control(r1),
            in_control: if is_host {
                true
            } else {
                c.in_control
            },
            ..c
        }
    } else {
        CoreV { registry: r1, ..c }
    }
}

/// `SetObserver{to, is_observer}`: toggle our own observer flag, or the
/// registry entry of another peer.
pub open spec fn step_set_observer(
    c: CoreV,
    to: Seq<u8>,
    is_observer: bool,
    self_name: Seq<u8>,
) -> CoreV {
    if to == self_name {
        CoreV { observing: is_observer, ..c }
    } else {
        CoreV { registry: with_observer(c.registry, to, is_observer), ..c }
    }
}

/// One roster change, as `PlayerJoined` / `PlayerLeft` dispatch it.
pub enum RosterEvent {
    Joined { name: Seq<u8>, in_control: bool, is_observer: bool, is_server: bool },
    Left { name: Seq<u8>, is_host: bool },
}

pub open spec fn apply_roster(c: CoreV, e: RosterEvent) -> CoreV {
    match e {
        RosterEvent::Joined { name, in_control, is_observer, is_server } => step_player_joined(
            c,
            name,
            in_control,
            is_observer,
            is_server,
        ),
        RosterEvent::Left { name, is_host } => step_player_left(c, name, is_host),
    }
}

pub open spec fn apply_roster_all(c: CoreV, es: Seq<RosterEvent>) -> CoreV
    decreases es.len(),
{
    if es.len() == 0 {
        c
    } else {
        apply_roster_all(apply_roster(c, es[0]), es.drop_first())
    }
}

pub proof fn lemma_roster_step_wf(c: CoreV, e: RosterEvent)
    requires
        core_wf(c),
    ensures
        core_wf(apply_roster(c, e)),
{
    match e {
        RosterEvent::Joined { name, in_control, is_observer, is_server } => {
            lemma_add_entry_wf(c.registry, name);
            let r1 = add_entry(c.registry, name);
            lemma_with_server_wf(r1, name, is_server);
            let r2 = with_server(r1, name, is_server);
            lemma_with_observer_wf(r2, name, is_observer);
            let r3 = with_observer(r2, name, is_observer);
            if in_control {
                lemma_ctrl_to_wf(r3, name);
            }
        },
        RosterEvent::Left { name, is_host } => {
            lemma_remove_entry_wf(c.registry, name);
            if name_in_control(c.registry, name) {
                lemma_clear_control_wf(remove_entry(c.registry, name));
            }
        },
    }
}

/// For every sequence of joined/left events, the registry shows at
/// most one controller at every observation point.
pub proof fn lemma_at_most_one_controller(c: CoreV, es: Seq<RosterEvent>)
    requires
        core_wf(c),
    ensures
        core_wf(apply_roster_all(c, es)),
        at_most_one_control(apply_roster_all(c, es).registry),
    decreases es.len(),
{
    if es.len() > 0 {
        lemma_roster_step_wf(c, es[0]);
        lemma_at_most_one_controller(apply_roster(c, es[0]), es.drop_first());
    }
}

/// Control handoff is idempotent end to end: applying the same
/// `TransferControl{from, to}` twice leaves the application core —
/// registry included — in the identical state as applying it once.
pub proof fn lemma_transfer_control_idempotent(
    c: CoreV,
    from: Seq<u8>,
    to: Seq<u8>,
    self_name: Seq<u8>,
)
    ensures
        step_transfer_control(step_transfer_control(c, from, to, self_name), from, to, self_name)
            == step_transfer_control(c, from, to, self_name),
{
    if to == self_name {
        lemma_clear_control_idempotent(c.registry);
    } else {
        lemma_ctrl_to_idempotent(c.registry, to);
    }
}

// ---------------------------------------------------------------------
// Executable dispatch
// ---------------------------------------------------------------------

impl AppCore {
    pub fn new() -> (r: Self)
        ensures
            r@.registry == Seq::<InfoV>::empty(),
            !r@.in_control,
            !r@.observing,
            !r@.ready,
            core_wf(r@),
    {
        AppCore {
            registry: ClientManager::new(),
            in_control: false,
            observing: false,
            ready: false,
        }
    }

    pub fn handle_transfer_control(&mut self, from: &Vec<u8>, to: &Vec<u8>, self_name: &Vec<u8>)
        requires
            core_wf(old(self)@),
        ensures
            final(self)@ == step_transfer_control(old(self)@, from@, to@, self_name@),
            core_wf(final(self)@),
    {
        if *to == *self_name {
            proof {
                assert(to@ =~= self_name@);
            }
            self.registry.set_no_control();
            self.in_control = true;
        } else {
            proof {
                if to@ == self_name@ {
                    assert(false);
                }
            }
            self.registry.set_client_control(to);
            if *from == *self_name {
                proof {
                    assert(from@ =~= self_name@);
                }
                self.in_control = false;
            } else {
                proof {
                    if from@ == self_name@ {
                        assert(false);
                    }
                }
            }
        }
    }

    pub fn handle_player_joined(
        &mut self,
        name: Vec<u8>,
        in_control: bool,
        is_observer: bool,
        is_server: bool,
    )
        requires
            core_wf(old(self)@),
        ensures
            final(self)@ == step_player_joined(old(self)@, name@, in_control, is_observer, is_server),
            core_wf(final(self)@),
    {
        self.registry.add_client(copy_bytes(&name));
        self.registry.set_server(&name, is_server);
        self.registry.set_observer(&name, is_observer);
        if in_control {
            self.registry.set_client_control(&name);
        }
    }

    /// Returns whether we, as the host, reclaimed control and must
    /// announce a `TransferControl` to ourselves.
    pub fn handle_player_left(&mut self, name: &Vec<u8>, is_host: bool) -> (reclaim: bool)
        requires
            core_wf(old(self)@),
        ensures
            final(self)@ == step_player_left(old(self)@, name@, is_host),
            core_wf(final(self)@),
            reclaim == (name_in_control(old(self)@.registry, name@) && is_host),
    {
        let had_control = self.registry.client_has_control(name);
        self.registry.remove_client(name);
        if had_control {
            self.registry.set_no_control();
            if is_host {
                self.in_control = true;
                return true;
            }
        }
        false
    }

    pub fn handle_set_observer(&mut self, to: &Vec<u8>, is_observer: bool, self_name: &Vec<u8>)
        requires
            core_wf(old(self)@),
        ensures
            final(self)@ == step_set_observer(old(self)@, to@, is_observer, self_name@),
            core_wf(final(self)@),
    {
        if *to == *self_name {
            proof {
                assert(to@ =~= self_name@);
            }
            self.observing = is_observer;
        } else {
            proof {
                if to@ == self_name@ {
                    assert(false);
                }
            }
            self.registry.set_observer(to, is_observer);
        }
    }

    /// The `Update` gate: live state from a peer reaches the simulator
    /// only if the sender is not an observer and the initial-ready
    /// delay has passed.
    pub fn should_forward_update(&self, from: &Vec<u8>) -> (r: bool)
        requires
            core_wf(self@),
        ensures
            r == (!name_is_observer(self@.registry, from@) && self@.ready),
    {
        !self.registry.is_observer(from) && self.ready
    }

    /// The `Ready` row: a peer asked for state; push the full current
    /// state exactly when we hold control.
    pub fn on_peer_ready(&self) -> (push: bool)
        ensures
            push == self@.in_control,
    {
        self.in_control
    }

    /// The post-definition readiness delay has elapsed: live state may
    /// flow from now on.
    pub fn set_ready(&mut self)
        ensures
            final(self)@ == (CoreV { ready: true, ..old(self)@ }),
    {
        self.ready = true;
    }

    /// `ConnectionEstablished`: a host starts in control of its own
    /// aircraft; a joining client starts frozen and observing.
    pub fn handle_connection_established(&mut self, is_host: bool)
        ensures
            final(self)@ == (CoreV {
                in_control: is_host,
                observing: !is_host,
                ..old(self)@
            }),
    {
        if is_host {
            self.in_control = true;
            self.observing = false;
        } else {
            self.in_control = false;
            self.observing = true;
        }
    }
}

} // verus!
