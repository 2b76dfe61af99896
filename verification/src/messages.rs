//! The wire message protocol: a closed set of self-describing message
//! variants exchanged between peers. Names, versions, session ids and
//! state blobs travel as opaque byte strings, compared byte-for-byte.
use vstd::prelude::*;
use vstd::slice::slice_to_vec;

verus! {

/// An exact copy of a byte string.
pub fn copy_bytes(v: &Vec<u8>) -> (r: Vec<u8>)
    ensures
        r@ == v@,
{
    slice_to_vec(v.as_slice())
}

/// A resolved peer endpoint: an IP address (IPv4 addresses are carried
/// zero-extended in the low octets) together with a UDP port.
#[derive(Clone, Copy, PartialEq, Eq, Structural, Debug)]
pub struct PeerAddress {
    pub is_v6: bool,
    pub ip: u128,
    pub port: u16,
}

/// A wire message. Every variant is self-describing: no external context
/// is needed to interpret it, and each round-trips losslessly through
/// the codec.
#[derive(Clone, PartialEq, Eq, Debug)]
pub enum Payloads {
    Handshake { session_id: Vec<u8> },
    InitHandshake { name: Vec<u8>, version: Vec<u8> },
    AttemptConnection { peer: PeerAddress },
    PeerEstablished,
    InvalidVersion { server_version: Vec<u8> },
    InvalidName,
    RequestHosting,
    HostingReceived { session_id: Vec<u8> },
    PlayerJoined { name: Vec<u8>, in_control: bool, is_observer: bool, is_server: bool },
    PlayerLeft { name: Vec<u8> },
    Update { data: Vec<u8>, from: Vec<u8>, is_unreliable: bool, time: u64 },
    TransferControl { from: Vec<u8>, to: Vec<u8> },
    SetObserver { from: Vec<u8>, to: Vec<u8>, is_observer: bool },
    SetHost,
    AircraftDefinition { bytes: Vec<u8> },
    Ready,
    Heartbeat,
}

/// The mathematical model of a wire message: the same variants over
/// byte sequences.
pub enum MsgV {
    Handshake { session_id: Seq<u8> },
    InitHandshake { name: Seq<u8>, version: Seq<u8> },
    AttemptConnection { peer: PeerAddress },
    PeerEstablished,
    InvalidVersion { server_version: Seq<u8> },
    InvalidName,
    RequestHosting,
    HostingReceived { session_id: Seq<u8> },
    PlayerJoined { name: Seq<u8>, in_control: bool, is_observer: bool, is_server: bool },
    PlayerLeft { name: Seq<u8> },
    Update { data: Seq<u8>, from: Seq<u8>, is_unreliable: bool, time: u64 },
    TransferControl { from: Seq<u8>, to: Seq<u8> },
    SetObserver { from: Seq<u8>, to: Seq<u8>, is_observer: bool },
    SetHost,
    AircraftDefinition { bytes: Seq<u8> },
    Ready,
    Heartbeat,
}

impl View for Payloads {
    type V = MsgV;

    open spec fn view(&self) -> MsgV {
        match self {
            Payloads::Handshake { session_id } => MsgV::Handshake { session_id: session_id@ },
            Payloads::InitHandshake { name, version } => MsgV::InitHandshake {
                name: name@,
                version: version@,
            },
            Payloads::AttemptConnection { peer } => MsgV::AttemptConnection { peer: *peer },
            Payloads::PeerEstablished => MsgV::PeerEstablished,
            Payloads::InvalidVersion { server_version } => MsgV::InvalidVersion {
                server_version: server_version@,
            },
            Payloads::InvalidName => MsgV::InvalidName,
            Payloads::RequestHosting => MsgV::RequestHosting,
            Payloads::HostingReceived { session_id } => MsgV::HostingReceived {
                session_id: session_id@,
            },
            Payloads::PlayerJoined { name, in_control, is_observer, is_server } => {
                MsgV::PlayerJoined {
                    name: name@,
                    in_control: *in_control,
                    is_observer: *is_observer,
                    is_server: *is_server,
                }
            },
            Payloads::PlayerLeft { name } => MsgV::PlayerLeft { name: name@ },
            Payloads::Update { data, from, is_unreliable, time } => MsgV::Update {
                data: data@,
                from: from@,
                is_unreliable: *is_unreliable,
                time: *time,
            },
            Payloads::TransferControl { from, to } => MsgV::TransferControl {
                from: from@,
                to: to@,
            },
            Payloads::SetObserver { from, to, is_observer } => MsgV::SetObserver {
                from: from@,
                to: to@,
                is_observer: *is_observer,
            },
            Payloads::SetHost => MsgV::SetHost,
            Payloads::AircraftDefinition { bytes } => MsgV::AircraftDefinition { bytes: bytes@ },
            Payloads::Ready => MsgV::Ready,
            Payloads::Heartbeat => MsgV::Heartbeat,
        }
    }
}

} // verus!
