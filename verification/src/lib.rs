//! Session-transport core for a shared-cockpit flight-simulator network:
//! the wire message protocol, the connection-establishment state machine
//! (direct and rendezvous hole-punch), and the client registry with
//! exclusive-control arbitration.
pub mod codec;
pub mod dispatch;
pub mod host;
pub mod messages;
pub mod registry;
pub mod session;

use vstd::prelude::*;

verus! {

/// Retry cadence for hole-punch handshakes: one attempt per second.
pub const RETRY_INTERVAL_MS: u64 = 1000;

/// Hard cap on handshake attempts before the session gives up.
pub const MAX_PUNCH_RETRIES: u8 = 5;

/// Main loop sleep, bounding CPU use of a session worker.
pub const LOOP_SLEEP_TIME_MS: u64 = 10;

/// How long after receiving the aircraft definition a session waits
/// before exchanging live state.
pub const READY_DELAY_MS: u64 = 3000;

} // verus!
