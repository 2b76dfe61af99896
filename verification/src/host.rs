//! The hosting side of peer admission: a joining peer is validated
//! against the host's protocol version and the uniqueness of its name
//! before it enters the registry and is announced to the others.
use vstd::prelude::*;

use crate::messages::MsgV;
use crate::messages::Payloads;
use crate::messages::copy_bytes;
use crate::registry::ClientManager;
use crate::registry::InfoV;
use crate::registry::add_entry;
use crate::registry::has_name;

verus! {

/// The host's verdict on a joining peer.
#[derive(Clone, PartialEq, Eq, Debug)]
pub enum JoinOutcome {
    /// The peer was registered; broadcast this announcement to every
    /// already-connected peer (the joiner also gets the current
    /// aircraft definition before live state flows).
    Accepted { announce: Payloads },
    /// Protocol versions differ; send this reply and close only that
    /// peer's handshake.
    RejectedVersion { reply: Payloads },
    /// The name is already taken; send this reply and close only that
    /// peer's handshake.
    RejectedName { reply: Payloads },
}

impl ClientManager {
    /// Admit or reject a peer announcing itself with `name` and
    /// `version`. A version mismatch or a name already present rejects
    /// the peer and leaves the registry exactly as it was: no duplicate
    /// entry is ever added. Otherwise the peer is registered, not in
    /// control and not observing.
    pub fn host_accept_peer(&mut self, name: Vec<u8>, version: &Vec<u8>, host_version: &Vec<u8>) -> (r:
        JoinOutcome)
        requires
            old(self).wf(),
        ensures
            final(self).wf(),
            version@ != host_version@ ==> final(self)@ == old(self)@ && (r matches
                JoinOutcome::RejectedVersion { reply } && reply@ == (MsgV::InvalidVersion {
                server_version: host_version@,
            })),
            version@ == host_version@ && has_name(old(self)@, name@) ==> final(self)@ == old(
                self,
            )@ && (r matches JoinOutcome::RejectedName { reply } && reply@ == MsgV::InvalidName),
            version@ == host_version@ && !has_name(old(self)@, name@) ==> final(self)@ == old(
                self,
            )@.push(
                InfoV { name: name@, is_server: false, is_observer: false, in_control: false },
            ) && (r matches JoinOutcome::Accepted { announce } && announce@
                == (MsgV::PlayerJoined {
                name: name@,
                in_control: false,
                is_observer: false,
                is_server: false,
            })),
            final(self)@ == (if version@ == host_version@ {
                add_entry(old(self)@, name@)
            } else {
                old(self)@
            }),
    {
        if !(*version == *host_version) {
            proof {
                if version@ == host_version@ {
                    assert(false);
                }
            }
            return JoinOutcome::RejectedVersion {
                reply: Payloads::InvalidVersion { server_version: copy_bytes(host_version) },
            };
        }
        proof {
            assert(version@ =~= host_version@);
        }
        if self.contains(&name) {
            return JoinOutcome::RejectedName { reply: Payloads::InvalidName };
        }
        let announce = Payloads::PlayerJoined {
            name: copy_bytes(&name),
            in_control: false,
            is_observer: false,
            is_server: false,
        };
        self.add_client(name);
        JoinOutcome::Accepted { announce }
    }
}

} // verus!
