//! Connection establishment and the per-connection transfer session:
//! a state machine driven by decoded wire messages, timer ticks and
//! transport signals. Each step consumes one input and yields the
//! actions the caller must perform: datagrams to send, events to
//! surface, payloads to deliver to the application queue.
//!
//! The worker loop around it only polls the transport, hands inputs in
//! and carries actions out; every decision lives here.
use vstd::prelude::*;

use crate::MAX_PUNCH_RETRIES;
use crate::RETRY_INTERVAL_MS;
use crate::messages::MsgV;
use crate::messages::Payloads;
use crate::messages::PeerAddress;
use crate::messages::copy_bytes;

verus! {

/// Why a session ended. Typed, not free text: the shell renders it.
#[derive(Clone, PartialEq, Eq, Debug)]
pub enum Reason {
    /// The host runs a different protocol version.
    MismatchingVersion { server_version: Vec<u8> },
    /// Our name is already taken on the host.
    NameInUse { name: Vec<u8> },
    /// A handshake reply carried the wrong session id; both ids are
    /// reported.
    HandshakeMismatch { expected: Vec<u8>, got: Vec<u8> },
    /// The transport reported the peer connection closed.
    NoMessageFromServer,
    /// The rendezvous server never resolved a peer address in time.
    RendezvousTimeout,
    /// The controlling side asked the session to stop.
    Stopped { text: Vec<u8> },
}

/// The model of a stop reason.
pub enum ReasonV {
    MismatchingVersion { server_version: Seq<u8> },
    NameInUse { name: Seq<u8> },
    HandshakeMismatch { expected: Seq<u8>, got: Seq<u8> },
    NoMessageFromServer,
    RendezvousTimeout,
    Stopped { text: Seq<u8> },
}

impl View for Reason {
    type V = ReasonV;

    open spec fn view(&self) -> ReasonV {
        match self {
            Reason::MismatchingVersion { server_version } => ReasonV::MismatchingVersion {
                server_version: server_version@,
            },
            Reason::NameInUse { name } => ReasonV::NameInUse { name: name@ },
            Reason::HandshakeMismatch { expected, got } => ReasonV::HandshakeMismatch {
                expected: expected@,
                got: got@,
            },
            Reason::NoMessageFromServer => ReasonV::NoMessageFromServer,
            Reason::RendezvousTimeout => ReasonV::RendezvousTimeout,
            Reason::Stopped { text } => ReasonV::Stopped { text: text@ },
        }
    }
}

/// A terminal or progress event surfaced to the application loop.
#[derive(Clone, PartialEq, Eq, Debug)]
pub enum Event {
    /// The handshake completed; the session is live.
    ConnectionEstablished,
    /// Hole punching gave up after the retry budget was spent.
    UnablePunchthrough,
    /// The session ended for the given reason.
    ConnectionLost { reason: Reason },
}

pub enum EventV {
    ConnectionEstablished,
    UnablePunchthrough,
    ConnectionLost { reason: ReasonV },
}

impl View for Event {
    type V = EventV;

    open spec fn view(&self) -> EventV {
        match self {
            Event::ConnectionEstablished => EventV::ConnectionEstablished,
            Event::UnablePunchthrough => EventV::UnablePunchthrough,
            Event::ConnectionLost { reason } => EventV::ConnectionLost { reason: reason@ },
        }
    }
}

/// One thing the worker loop must do after a step.
#[derive(Clone, PartialEq, Eq, Debug)]
pub enum Action {
    /// Put this message on the wire, addressed to `to`.
    Send { to: PeerAddress, payload: Payloads },
    /// Surface this event on the inbound queue.
    Emit { event: Event },
    /// Hand this inbound payload to the application queue.
    Deliver { payload: Payloads },
}

pub enum ActionV {
    Send { to: PeerAddress, msg: MsgV },
    Emit { event: EventV },
    Deliver { msg: MsgV },
}

impl View for Action {
    type V = ActionV;

    open spec fn view(&self) -> ActionV {
        match self {
            Action::Send { to, payload } => ActionV::Send { to: *to, msg: payload@ },
            Action::Emit { event } => ActionV::Emit { event: event@ },
            Action::Deliver { payload } => ActionV::Deliver { msg: payload@ },
        }
    }
}

pub open spec fn acts_of(v: Vec<Action>) -> Seq<ActionV> {
    v@.map_values(|a: Action| a@)
}

/// The per-connection session state. Time is data: callers pass a
/// monotonic millisecond clock into the timed steps.
pub struct Session {
    /// Our player name, sent in the init handshake.
    pub name: Vec<u8>,
    /// Our protocol version, sent in the init handshake.
    pub version: Vec<u8>,
    /// The rendezvous correlation token; empty for a direct connection.
    pub session_id: Vec<u8>,
    /// Whether the handshake has completed.
    pub connected: bool,
    /// The resolved peer address, if known yet.
    pub received_address: Option<PeerAddress>,
    /// The rendezvous server's address, if hole punching is in use.
    pub rendezvous: Option<PeerAddress>,
    /// Handshake attempts made so far.
    pub retries: u8,
    /// When the last handshake attempt was sent.
    pub last_retry_ms: Option<u64>,
    /// When the session started waiting for the rendezvous answer.
    pub start_ms: u64,
    /// How long to wait for the rendezvous answer.
    pub timeout_ms: u64,
    /// Terminal flag; set once and never cleared.
    pub stopped: bool,
}

/// The model of a session.
pub struct SessionV {
    pub name: Seq<u8>,
    pub version: Seq<u8>,
    pub session_id: Seq<u8>,
    pub connected: bool,
    pub received_address: Option<PeerAddress>,
    pub rendezvous: Option<PeerAddress>,
    pub retries: u8,
    pub last_retry_ms: Option<u64>,
    pub start_ms: u64,
    pub timeout_ms: u64,
    pub stopped: bool,
}

impl View for Session {
    type V = SessionV;

    open spec fn view(&self) -> SessionV {
        SessionV {
            name: self.name@,
            version: self.version@,
            session_id: self.session_id@,
            connected: self.connected,
            received_address: self.received_address,
            rendezvous: self.rendezvous,
            retries: self.retries,
            last_retry_ms: self.last_retry_ms,
            start_ms: self.start_ms,
            timeout_ms: self.timeout_ms,
            stopped: self.stopped,
        }
    }
}

/// The session's internal invariant: the retry counter never passes its
/// budget, and a spent budget means the session has stopped.
pub open spec fn session_wf(s: SessionV) -> bool {
    s.retries <= MAX_PUNCH_RETRIES && (s.retries == MAX_PUNCH_RETRIES ==> s.stopped)
}

// ---------------------------------------------------------------------
// Specification-level transitions
// ---------------------------------------------------------------------

/// Stopping: set the terminal flag and surface the reason. The flag is
/// monotonic; every step of a stopped session is a no-op.
pub open spec fn spec_stop(s: SessionV, reason: ReasonV) -> (SessionV, Seq<ActionV>) {
    (
        SessionV { stopped: true, ..s },
        seq![ActionV::Emit { event: EventV::ConnectionLost { reason } }],
    )
}

/// Effect of one inbound wire message, as the dispatch table gives it.
/// Every message is delivered onward to the application queue, with
/// two exceptions: a handshake reply received while connected is
/// ignored outright (the tie-break rule), and a handshake reply with
/// the wrong session id stops the session, naming both ids — neither
/// reaches the queue.
pub open spec fn step_message(s: SessionV, addr: PeerAddress, m: MsgV) -> (SessionV, Seq<ActionV>) {
    if s.stopped {
        (s, Seq::<ActionV>::empty())
    } else {
        match m {
            MsgV::InvalidVersion { server_version } => {
                let (s1, acts) = spec_stop(s, ReasonV::MismatchingVersion { server_version });
                (s1, acts.push(ActionV::Deliver { msg: m }))
            },
            MsgV::InvalidName => {
                let (s1, acts) = spec_stop(s, ReasonV::NameInUse { name: s.name });
                (s1, acts.push(ActionV::Deliver { msg: m }))
            },
            MsgV::Handshake { session_id } => {
                if s.connected {
                    (s, Seq::<ActionV>::empty())
                } else if session_id != s.session_id {
                    spec_stop(
                        s,
                        ReasonV::HandshakeMismatch { expected: s.session_id, got: session_id },
                    )
                } else {
                    (
                        SessionV { connected: true, ..s },
                        seq![
                            ActionV::Send {
                                to: addr,
                                msg: MsgV::InitHandshake { name: s.name, version: s.version },
                            },
                            ActionV::Emit { event: EventV::ConnectionEstablished },
                            ActionV::Deliver { msg: m },
                        ],
                    )
                }
            },
            MsgV::AttemptConnection { peer } => (
                SessionV { received_address: Some(peer), ..s },
                seq![ActionV::Deliver { msg: m }],
            ),
            _ => (s, seq![ActionV::Deliver { msg: m }]),
        }
    }
}

/// A handshake attempt is due when none was sent yet or the retry
/// interval has elapsed.
pub open spec fn retry_due(s: SessionV, now_ms: u64) -> bool {
    match s.last_retry_ms {
        Some(t) => now_ms >= t + RETRY_INTERVAL_MS,
        None => true,
    }
}

/// The handshake retry step: while unconnected and a peer address is
/// known, send one handshake per interval; after the last attempt of
/// the budget, stop and surface exactly one punchthrough failure.
pub open spec fn step_retry(s: SessionV, now_ms: u64) -> (SessionV, Seq<ActionV>) {
    if s.stopped || s.connected || !retry_due(s, now_ms) {
        (s, Seq::<ActionV>::empty())
    } else {
        match s.received_address {
            Some(addr) => {
                let r = (s.retries + 1) as u8;
                let s1 = SessionV { retries: r, last_retry_ms: Some(now_ms), ..s };
                let send = ActionV::Send {
                    to: addr,
                    msg: MsgV::Handshake { session_id: s.session_id },
                };
                if r == MAX_PUNCH_RETRIES {
                    (
                        SessionV { stopped: true, ..s1 },
                        seq![send, ActionV::Emit { event: EventV::UnablePunchthrough }],
                    )
                } else {
                    (s1, seq![send])
                }
            },
            None => (s, Seq::<ActionV>::empty()),
        }
    }
}

/// Effect of the transport reporting a closed connection: fatal unless
/// it was the rendezvous server's connection.
pub open spec fn step_closed(s: SessionV, addr: PeerAddress) -> (SessionV, Seq<ActionV>) {
    if s.stopped {
        (s, Seq::<ActionV>::empty())
    } else {
        match s.rendezvous {
            Some(r) => if r == addr {
                (s, Seq::<ActionV>::empty())
            } else {
                spec_stop(s, ReasonV::NoMessageFromServer)
            },
            None => spec_stop(s, ReasonV::NoMessageFromServer),
        }
    }
}

/// The rendezvous wait is overdue when hole punching is in use, no peer
/// address has been resolved, and the configured wait has elapsed.
pub open spec fn rendezvous_overdue(s: SessionV, now_ms: u64) -> bool {
    s.received_address is None && s.rendezvous is Some && now_ms >= s.start_ms + s.timeout_ms
}

pub open spec fn step_rendezvous_timeout(s: SessionV, now_ms: u64) -> (SessionV, Seq<ActionV>) {
    if s.stopped || !rendezvous_overdue(s, now_ms) {
        (s, Seq::<ActionV>::empty())
    } else {
        spec_stop(s, ReasonV::RendezvousTimeout)
    }
}

/// Where an outbound application payload goes: to the resolved peer, or
/// nowhere (dropped) while unresolved or stopped.
pub open spec fn outbound_target(s: SessionV) -> Option<PeerAddress> {
    if s.stopped {
        None
    } else {
        s.received_address
    }
}

/// The starting state of a direct connection: peer known up front, an
/// empty session id signalling "no rendezvous, confirm directly".
pub open spec fn direct_init(
    name: Seq<u8>,
    version: Seq<u8>,
    target: PeerAddress,
    now_ms: u64,
    timeout_ms: u64,
) -> SessionV {
    SessionV {
        name,
        version,
        session_id: Seq::<u8>::empty(),
        connected: false,
        received_address: Some(target),
        rendezvous: None,
        retries: 0,
        last_retry_ms: None,
        start_ms: now_ms,
        timeout_ms,
        stopped: false,
    }
}

/// The starting state of a rendezvous hole punch: no peer address yet,
/// the session id correlating the attempt end-to-end.
pub open spec fn hole_punch_init(
    name: Seq<u8>,
    version: Seq<u8>,
    session_id: Seq<u8>,
    rendezvous: PeerAddress,
    now_ms: u64,
    timeout_ms: u64,
) -> SessionV {
    SessionV {
        name,
        version,
        session_id,
        connected: false,
        received_address: None,
        rendezvous: Some(rendezvous),
        retries: 0,
        last_retry_ms: None,
        start_ms: now_ms,
        timeout_ms,
        stopped: false,
    }
}

// ---------------------------------------------------------------------
// Session laws
// ---------------------------------------------------------------------

/// One input the worker loop can feed a session.
pub enum SessionInput {
    Message { addr: PeerAddress, msg: MsgV },
    RetryTick { now_ms: u64 },
    Closed { addr: PeerAddress },
    TimeoutCheck { now_ms: u64 },
}

pub open spec fn step_input(s: SessionV, inp: SessionInput) -> (SessionV, Seq<ActionV>) {
    match inp {
        SessionInput::Message { addr, msg } => step_message(s, addr, msg),
        SessionInput::RetryTick { now_ms } => step_retry(s, now_ms),
        SessionInput::Closed { addr } => step_closed(s, addr),
        SessionInput::TimeoutCheck { now_ms } => step_rendezvous_timeout(s, now_ms),
    }
}

pub open spec fn run_inputs(s: SessionV, inputs: Seq<SessionInput>) -> (SessionV, Seq<ActionV>)
    decreases inputs.len(),
{
    if inputs.len() == 0 {
        (s, Seq::<ActionV>::empty())
    } else {
        let (s1, a1) = step_input(s, inputs[0]);
        let (s2, a2) = run_inputs(s1, inputs.drop_first());
        (s2, a1 + a2)
    }
}

/// A stopped session is terminal: whatever inputs arrive afterwards,
/// the state never changes and no action — no send, no event, no
/// delivery — is produced.
pub proof fn lemma_stopped_is_terminal(s: SessionV, inputs: Seq<SessionInput>)
    requires
        s.stopped,
    ensures
        run_inputs(s, inputs) == (s, Seq::<ActionV>::empty()),
    decreases inputs.len(),
{
    if inputs.len() > 0 {
        lemma_stopped_is_terminal(s, inputs.drop_first());
        assert(run_inputs(s, inputs).1 =~= Seq::<ActionV>::empty());
    }
}

/// Direct connection: from the direct starting state, a handshake
/// echoed back by the target with the same (empty) session id at once
/// yields `connected`, one init handshake to the peer, and one
/// established event. The first handshake goes out at construction, so
/// this completes within one retry interval of a reachable peer.
pub proof fn lemma_direct_echo_connects(
    name: Seq<u8>,
    version: Seq<u8>,
    target: PeerAddress,
    now_ms: u64,
    timeout_ms: u64,
)
    ensures
        ({
            let s0 = direct_init(name, version, target, now_ms, timeout_ms);
            let echo = MsgV::Handshake { session_id: Seq::<u8>::empty() };
            let (s1, acts) = step_message(s0, target, echo);
            &&& s1.connected
            &&& !s1.stopped
            &&& acts =~= seq![
                ActionV::Send { to: target, msg: MsgV::InitHandshake { name, version } },
                ActionV::Emit { event: EventV::ConnectionEstablished },
                ActionV::Deliver { msg: echo },
            ]
        }),
{
}

/// Hole punch gives up: the attempt that spends the retry budget with
/// no handshake reply sends its last handshake, surfaces exactly one
/// punchthrough failure, and stops — and afterwards nothing more is
/// sent or surfaced, whatever else arrives.
pub proof fn lemma_punchthrough_exhaustion(s: SessionV, now_ms: u64, later: Seq<SessionInput>)
    requires
        session_wf(s),
        !s.stopped,
        !s.connected,
        s.received_address is Some,
        retry_due(s, now_ms),
        s.retries == MAX_PUNCH_RETRIES - 1,
    ensures
        ({
            let (s1, acts) = step_retry(s, now_ms);
            &&& s1.stopped
            &&& acts =~= seq![
                ActionV::Send {
                    to: s.received_address->Some_0,
                    msg: MsgV::Handshake { session_id: s.session_id },
                },
                ActionV::Emit { event: EventV::UnablePunchthrough },
            ]
            &&& run_inputs(s1, later) == (s1, Seq::<ActionV>::empty())
        }),
{
    let (s1, acts) = step_retry(s, now_ms);
    lemma_stopped_is_terminal(s1, later);
}

/// Tie-break: a handshake received after the connection is established
/// is ignored outright — no state change, nothing sent, nothing
/// forwarded to the application queue.
pub proof fn lemma_connected_handshake_ignored(s: SessionV, addr: PeerAddress, sid: Seq<u8>)
    requires
        !s.stopped,
        s.connected,
    ensures
        step_message(s, addr, MsgV::Handshake { session_id: sid }) == (
            s,
            Seq::<ActionV>::empty(),
        ),
{
}

/// Session-id mismatch: a handshake reply carrying a different session
/// id than requested never turns `connected` on; a live, unconnected
/// session stops with a reason carrying both the expected and the
/// received id, and the rejected reply is not forwarded to the
/// application queue.
pub proof fn lemma_mismatched_session_id_rejected(s: SessionV, addr: PeerAddress, sid: Seq<u8>)
    requires
        sid != s.session_id,
    ensures
        ({
            let (s1, acts) = step_message(s, addr, MsgV::Handshake { session_id: sid });
            &&& s1.connected == s.connected
            &&& (!s.stopped && !s.connected) ==> {
                &&& s1.stopped
                &&& acts =~= seq![
                    ActionV::Emit {
                        event: EventV::ConnectionLost {
                            reason: ReasonV::HandshakeMismatch {
                                expected: s.session_id,
                                got: sid,
                            },
                        },
                    },
                ]
            }
        }),
{
}

// ---------------------------------------------------------------------
// Executable session
// ---------------------------------------------------------------------

impl Session {
    /// Start a direct connection: the peer address is known up front,
    /// and one handshake with the empty session id goes out at once.
    pub fn new_direct(
        name: Vec<u8>,
        version: Vec<u8>,
        target: PeerAddress,
        now_ms: u64,
        timeout_ms: u64,
    ) -> (r: (Session, Vec<Action>))
        ensures
            r.0@ == direct_init(name@, version@, target, now_ms, timeout_ms),
            session_wf(r.0@),
            acts_of(r.1) == seq![
                ActionV::Send { to: target, msg: MsgV::Handshake { session_id: Seq::<u8>::empty() } },
            ],
    {
        let s = Session {
            name,
            version,
            session_id: Vec::new(),
            connected: false,
            received_address: Some(target),
            rendezvous: None,
            retries: 0,
            last_retry_ms: None,
            start_ms: now_ms,
            timeout_ms,
            stopped: false,
        };
        let mut acts: Vec<Action> = Vec::new();
        acts.push(
            Action::Send { to: target, payload: Payloads::Handshake { session_id: Vec::new() } },
        );
        proof {
            assert(acts_of(acts) =~= seq![
                ActionV::Send {
                    to: target,
                    msg: MsgV::Handshake { session_id: Seq::<u8>::empty() },
                },
            ]);
        }
        (s, acts)
    }

    /// Start a rendezvous hole punch: ask the rendezvous server for the
    /// session's peer by sending it the correlating handshake.
    pub fn new_hole_punch(
        name: Vec<u8>,
        version: Vec<u8>,
        session_id: Vec<u8>,
        rendezvous: PeerAddress,
        now_ms: u64,
        timeout_ms: u64,
    ) -> (r: (Session, Vec<Action>))
        ensures
            r.0@ == hole_punch_init(name@, version@, session_id@, rendezvous, now_ms, timeout_ms),
            session_wf(r.0@),
            acts_of(r.1) == seq![
                ActionV::Send { to: rendezvous, msg: MsgV::Handshake { session_id: session_id@ } },
            ],
    {
        let sid_copy = copy_bytes(&session_id);
        let s = Session {
            name,
            version,
            session_id,
            connected: false,
            received_address: None,
            rendezvous: Some(rendezvous),
            retries: 0,
            last_retry_ms: None,
            start_ms: now_ms,
            timeout_ms,
            stopped: false,
        };
        let mut acts: Vec<Action> = Vec::new();
        acts.push(
            Action::Send { to: rendezvous, payload: Payloads::Handshake { session_id: sid_copy } },
        );
        proof {
            assert(acts_of(acts) =~= seq![
                ActionV::Send { to: rendezvous, msg: MsgV::Handshake { session_id: s.session_id@ } },
            ]);
        }
        (s, acts)
    }

    /// Whether the worker loop should exit.
    pub fn should_stop(&self) -> (r: bool)
        ensures
            r == self@.stopped,
    {
        self.stopped
    }

    /// Whether the handshake has completed.
    pub fn is_connected(&self) -> (r: bool)
        ensures
            r == self@.connected,
    {
        self.connected
    }

    /// The session id this session correlates on.
    pub fn get_session_id(&self) -> (r: Vec<u8>)
        ensures
            r@ == self@.session_id,
    {
        copy_bytes(&self.session_id)
    }

    /// Stop deliberately, surfacing the reason. Idempotent: a stopped
    /// session stays stopped and emits nothing further.
    pub fn stop(&mut self, reason: Reason) -> (acts: Vec<Action>)
        ensures
            old(self)@.stopped ==> final(self)@ == old(self)@ && acts_of(acts)
                == Seq::<ActionV>::empty(),
            !old(self)@.stopped ==> (final(self)@, acts_of(acts)) == spec_stop(
                old(self)@,
                reason@,
            ),
            session_wf(old(self)@) ==> session_wf(final(self)@),
    {
        let mut acts: Vec<Action> = Vec::new();
        if self.stopped {
            proof {
                assert(acts_of(acts) =~= Seq::<ActionV>::empty());
            }
            return acts;
        }
        self.stopped = true;
        acts.push(Action::Emit { event: Event::ConnectionLost { reason } });
        proof {
            assert(acts_of(acts) =~= spec_stop(old(self)@, reason@).1);
        }
        acts
    }

    /// Dispatch one decoded inbound message: the client side's table of
    /// effects, one row per variant.
    pub fn handle_message(&mut self, addr: PeerAddress, payload: Payloads) -> (acts: Vec<Action>)
        ensures
            final(self)@ == step_message(old(self)@, addr, payload@).0,
            acts_of(acts) == step_message(old(self)@, addr, payload@).1,
            session_wf(old(self)@) ==> session_wf(final(self)@),
    {
        let mut acts: Vec<Action> = Vec::new();
        if self.stopped {
            proof {
                assert(acts_of(acts) =~= Seq::<ActionV>::empty());
            }
            return acts;
        }
        match &payload {
            Payloads::InvalidVersion { server_version } => {
                let reason = Reason::MismatchingVersion {
                    server_version: copy_bytes(server_version),
                };
                self.stopped = true;
                acts.push(Action::Emit { event: Event::ConnectionLost { reason } });
            },
            Payloads::InvalidName => {
                let reason = Reason::NameInUse { name: copy_bytes(&self.name) };
                self.stopped = true;
                acts.push(Action::Emit { event: Event::ConnectionLost { reason } });
            },
            Payloads::Handshake { session_id } => {
                if self.connected {
                    // Already established: ignored outright, not even
                    // forwarded to the application queue.
                    proof {
                        assert(acts_of(acts) =~= Seq::<ActionV>::empty());
                    }
                    return acts;
                } else if !(*session_id == self.session_id) {
                    proof {
                        if session_id@ == self.session_id@ {
                            assert(false);
                        }
                    }
                    let reason = Reason::HandshakeMismatch {
                        expected: copy_bytes(&self.session_id),
                        got: copy_bytes(session_id),
                    };
                    self.stopped = true;
                    acts.push(Action::Emit { event: Event::ConnectionLost { reason } });
                    proof {
                        assert(acts_of(acts) =~= step_message(old(self)@, addr, payload@).1);
                    }
                    return acts;
                } else {
                    proof {
                        assert(session_id@ =~= self.session_id@);
                    }
                    self.connected = true;
                    acts.push(
                        Action::Send {
                            to: addr,
                            payload: Payloads::InitHandshake {
                                name: copy_bytes(&self.name),
                                version: copy_bytes(&self.version),
                            },
                        },
                    );
                    acts.push(Action::Emit { event: Event::ConnectionEstablished });
                }
            },
            Payloads::AttemptConnection { peer } => {
                self.received_address = Some(*peer);
            },
            _ => {},
        }
        let ghost expected = step_message(old(self)@, addr, payload@);
        acts.push(Action::Deliver { payload });
        proof {
            assert(acts_of(acts) =~= expected.1);
        }
        acts
    }

    /// The timed handshake retry step (one attempt per interval, up to
    /// the budget).
    pub fn handle_handshake(&mut self, now_ms: u64) -> (acts: Vec<Action>)
        requires
            session_wf(old(self)@),
        ensures
            final(self)@ == step_retry(old(self)@, now_ms).0,
            acts_of(acts) == step_retry(old(self)@, now_ms).1,
            session_wf(final(self)@),
    {
        let mut acts: Vec<Action> = Vec::new();
        if self.stopped || self.connected {
            proof {
                assert(acts_of(acts) =~= Seq::<ActionV>::empty());
            }
            return acts;
        }
        let due = match self.last_retry_ms {
            Some(t) => now_ms >= t && now_ms - t >= RETRY_INTERVAL_MS,
            None => true,
        };
        if !due {
            proof {
                assert(acts_of(acts) =~= Seq::<ActionV>::empty());
            }
            return acts;
        }
        match self.received_address {
            Some(addr) => {
                self.retries = self.retries + 1;
                self.last_retry_ms = Some(now_ms);
                acts.push(
                    Action::Send {
                        to: addr,
                        payload: Payloads::Handshake {
                            session_id: copy_bytes(&self.session_id),
                        },
                    },
                );
                if self.retries == MAX_PUNCH_RETRIES {
                    self.stopped = true;
                    acts.push(Action::Emit { event: Event::UnablePunchthrough });
                }
                proof {
                    assert(acts_of(acts) =~= step_retry(old(self)@, now_ms).1);
                }
            },
            None => {
                proof {
                    assert(acts_of(acts) =~= Seq::<ActionV>::empty());
                }
            },
        }
        acts
    }

    /// The transport reported a closed connection from `addr`.
    pub fn handle_connection_closed(&mut self, addr: PeerAddress) -> (acts: Vec<Action>)
        ensures
            final(self)@ == step_closed(old(self)@, addr).0,
            acts_of(acts) == step_closed(old(self)@, addr).1,
            session_wf(old(self)@) ==> session_wf(final(self)@),
    {
        let mut acts: Vec<Action> = Vec::new();
        let fatal = if self.stopped {
            false
        } else {
            match self.rendezvous {
                Some(r) => !(r == addr),
                None => true,
            }
        };
        if fatal {
            self.stopped = true;
            acts.push(
                Action::Emit {
                    event: Event::ConnectionLost { reason: Reason::NoMessageFromServer },
                },
            );
        }
        proof {
            assert(acts_of(acts) =~= step_closed(old(self)@, addr).1);
        }
        acts
    }

    /// The timed rendezvous bound: with hole punching in use and no
    /// peer address resolved within the configured wait, the session is
    /// lost.
    pub fn check_rendezvous_timeout(&mut self, now_ms: u64) -> (acts: Vec<Action>)
        ensures
            final(self)@ == step_rendezvous_timeout(old(self)@, now_ms).0,
            acts_of(acts) == step_rendezvous_timeout(old(self)@, now_ms).1,
            session_wf(old(self)@) ==> session_wf(final(self)@),
    {
        let mut acts: Vec<Action> = Vec::new();
        let overdue = !self.stopped && self.received_address.is_none() && self.rendezvous.is_some()
            && now_ms >= self.start_ms && now_ms - self.start_ms >= self.timeout_ms;
        if overdue {
            self.stopped = true;
            acts.push(
                Action::Emit {
                    event: Event::ConnectionLost { reason: Reason::RendezvousTimeout },
                },
            );
        }
        proof {
            assert(acts_of(acts) =~= step_rendezvous_timeout(old(self)@, now_ms).1);
        }
        acts
    }

    /// Route one outbound application payload: to the resolved peer, or
    /// dropped (`None`) while no peer address is known. At-most-once; no
    /// buffering across the unresolved period.
    pub fn route_outbound(&self, payload: Payloads) -> (r: Option<Action>)
        ensures
            match r {
                Some(a) => outbound_target(self@) is Some && a@ == (ActionV::Send {
                    to: outbound_target(self@)->Some_0,
                    msg: payload@,
                }),
                None => outbound_target(self@) is None,
            },
    {
        if self.stopped {
            return None;
        }
        match self.received_address {
            Some(addr) => Some(Action::Send { to: addr, payload }),
            None => None,
        }
    }
}

} // verus!
