//! The wire codec: one message per datagram, encoded as a tag byte
//! followed by the variant's fields. Byte-string fields carry a
//! little-endian 64-bit length prefix; booleans are a single 0/1 byte;
//! integers are little-endian fixed width. The encoding is canonical:
//! decoding is the exact inverse of encoding, in both directions. A
//! new variant is a new tag: the encodings of the existing variants
//! never change, so older payloads in the same session keep decoding.
use vstd::bytes::lemma_auto_spec_u16_to_from_le_bytes;
use vstd::bytes::lemma_auto_spec_u64_to_from_le_bytes;
use vstd::bytes::lemma_auto_spec_u128_to_from_le_bytes;
use vstd::bytes::spec_u16_from_le_bytes;
use vstd::bytes::spec_u16_to_le_bytes;
use vstd::bytes::spec_u64_from_le_bytes;
use vstd::bytes::spec_u64_to_le_bytes;
use vstd::bytes::spec_u128_from_le_bytes;
use vstd::bytes::spec_u128_to_le_bytes;
use vstd::bytes::u16_from_le_bytes;
use vstd::bytes::u16_to_le_bytes;
use vstd::bytes::u64_from_le_bytes;
use vstd::bytes::u64_to_le_bytes;
use vstd::bytes::u128_from_le_bytes;
use vstd::bytes::u128_to_le_bytes;
use vstd::prelude::*;
use vstd::slice::slice_index_get;
use vstd::slice::slice_subrange;
use vstd::slice::slice_to_vec;

use crate::messages::MsgV;
use crate::messages::Payloads;
use crate::messages::PeerAddress;

verus! {

pub const TAG_HANDSHAKE: u8 = 1;

pub const TAG_INIT_HANDSHAKE: u8 = 2;

pub const TAG_ATTEMPT_CONNECTION: u8 = 3;

pub const TAG_PEER_ESTABLISHED: u8 = 4;

pub const TAG_INVALID_VERSION: u8 = 5;

pub const TAG_INVALID_NAME: u8 = 6;

pub const TAG_REQUEST_HOSTING: u8 = 7;

pub const TAG_HOSTING_RECEIVED: u8 = 8;

pub const TAG_PLAYER_JOINED: u8 = 9;

pub const TAG_PLAYER_LEFT: u8 = 10;

pub const TAG_UPDATE: u8 = 11;

pub const TAG_TRANSFER_CONTROL: u8 = 12;

pub const TAG_SET_OBSERVER: u8 = 13;

pub const TAG_SET_HOST: u8 = 14;

pub const TAG_AIRCRAFT_DEFINITION: u8 = 15;

pub const TAG_READY: u8 = 16;

pub const TAG_HEARTBEAT: u8 = 17;

/// Decoding failed: unknown tag, truncated field, trailing bytes, or a
/// malformed boolean byte.
#[derive(Clone, Copy, PartialEq, Eq, Structural, Debug)]
pub struct DecodeError;

// ---------------------------------------------------------------------
// Specification-level encoding
// ---------------------------------------------------------------------

/// A byte-string field: 8-byte little-endian length, then the bytes.
pub open spec fn enc_bytes(s: Seq<u8>) -> Seq<u8> {
    spec_u64_to_le_bytes(s.len() as u64) + s
}

pub open spec fn bool_byte(b: bool) -> u8 {
    if b {
        1
    } else {
        0
    }
}

pub open spec fn enc_bool(b: bool) -> Seq<u8> {
    seq![bool_byte(b)]
}

/// An address field: flag byte, 16 ip bytes, 2 port bytes.
pub open spec fn enc_addr(a: PeerAddress) -> Seq<u8> {
    enc_bool(a.is_v6) + spec_u128_to_le_bytes(a.ip) + spec_u16_to_le_bytes(a.port)
}

/// Every byte-string field of the message fits its 64-bit length
/// prefix. Every message built from in-memory vectors satisfies this.
pub open spec fn msg_wf(m: MsgV) -> bool {
    match m {
        MsgV::Handshake { session_id } => session_id.len() <= u64::MAX,
        MsgV::InitHandshake { name, version } => name.len() <= u64::MAX && version.len()
            <= u64::MAX,
        MsgV::AttemptConnection { .. } => true,
        MsgV::PeerEstablished => true,
        MsgV::InvalidVersion { server_version } => server_version.len() <= u64::MAX,
        MsgV::InvalidName => true,
        MsgV::RequestHosting => true,
        MsgV::HostingReceived { session_id } => session_id.len() <= u64::MAX,
        MsgV::PlayerJoined { name, .. } => name.len() <= u64::MAX,
        MsgV::PlayerLeft { name } => name.len() <= u64::MAX,
        MsgV::Update { data, from, .. } => data.len() <= u64::MAX && from.len() <= u64::MAX,
        MsgV::TransferControl { from, to } => from.len() <= u64::MAX && to.len() <= u64::MAX,
        MsgV::SetObserver { from, to, .. } => from.len() <= u64::MAX && to.len() <= u64::MAX,
        MsgV::SetHost => true,
        MsgV::AircraftDefinition { bytes } => bytes.len() <= u64::MAX,
        MsgV::Ready => true,
        MsgV::Heartbeat => true,
    }
}

pub open spec fn spec_encode(m: MsgV) -> Seq<u8> {
    match m {
        MsgV::Handshake { session_id } => seq![TAG_HANDSHAKE] + enc_bytes(session_id),
        MsgV::InitHandshake { name, version } => seq![TAG_INIT_HANDSHAKE] + enc_bytes(name)
            + enc_bytes(version),
        MsgV::AttemptConnection { peer } => seq![TAG_ATTEMPT_CONNECTION] + enc_addr(peer),
        MsgV::PeerEstablished => seq![TAG_PEER_ESTABLISHED],
        MsgV::InvalidVersion { server_version } => seq![TAG_INVALID_VERSION] + enc_bytes(
            server_version,
        ),
        MsgV::InvalidName => seq![TAG_INVALID_NAME],
        MsgV::RequestHosting => seq![TAG_REQUEST_HOSTING],
        MsgV::HostingReceived { session_id } => seq![TAG_HOSTING_RECEIVED] + enc_bytes(session_id),
        MsgV::PlayerJoined { name, in_control, is_observer, is_server } => seq![TAG_PLAYER_JOINED]
            + enc_bytes(name) + enc_bool(in_control) + enc_bool(is_observer) + enc_bool(is_server),
        MsgV::PlayerLeft { name } => seq![TAG_PLAYER_LEFT] + enc_bytes(name),
        MsgV::Update { data, from, is_unreliable, time } => seq![TAG_UPDATE] + enc_bytes(data)
            + enc_bytes(from) + enc_bool(is_unreliable) + spec_u64_to_le_bytes(time),
        MsgV::TransferControl { from, to } => seq![TAG_TRANSFER_CONTROL] + enc_bytes(from)
            + enc_bytes(to),
        MsgV::SetObserver { from, to, is_observer } => seq![TAG_SET_OBSERVER] + enc_bytes(from)
            + enc_bytes(to) + enc_bool(is_observer),
        MsgV::SetHost => seq![TAG_SET_HOST],
        MsgV::AircraftDefinition { bytes } => seq![TAG_AIRCRAFT_DEFINITION] + enc_bytes(bytes),
        MsgV::Ready => seq![TAG_READY],
        MsgV::Heartbeat => seq![TAG_HEARTBEAT],
    }
}

// ---------------------------------------------------------------------
// Specification-level decoding: cursor-style field parsers
// ---------------------------------------------------------------------

/// Parse a length-prefixed byte-string field at index `i`; on success
/// the contents and the index one past the field.
pub open spec fn dec_bytes(b: Seq<u8>, i: int) -> Option<(Seq<u8>, int)> {
    if i + 8 <= b.len() {
        let n = spec_u64_from_le_bytes(b.subrange(i, i + 8)) as int;
        if i + 8 + n <= b.len() {
            Some((b.subrange(i + 8, i + 8 + n), i + 8 + n))
        } else {
            None
        }
    } else {
        None
    }
}

pub open spec fn dec_bool(b: Seq<u8>, i: int) -> Option<(bool, int)> {
    if i + 1 <= b.len() && (b[i] == 0u8 || b[i] == 1u8) {
        Some((b[i] == 1u8, i + 1))
    } else {
        None
    }
}

pub open spec fn dec_u64(b: Seq<u8>, i: int) -> Option<(u64, int)> {
    if i + 8 <= b.len() {
        Some((spec_u64_from_le_bytes(b.subrange(i, i + 8)), i + 8))
    } else {
        None
    }
}

pub open spec fn dec_u128(b: Seq<u8>, i: int) -> Option<(u128, int)> {
    if i + 16 <= b.len() {
        Some((spec_u128_from_le_bytes(b.subrange(i, i + 16)), i + 16))
    } else {
        None
    }
}

pub open spec fn dec_u16(b: Seq<u8>, i: int) -> Option<(u16, int)> {
    if i + 2 <= b.len() {
        Some((spec_u16_from_le_bytes(b.subrange(i, i + 2)), i + 2))
    } else {
        None
    }
}

pub open spec fn dec_addr(b: Seq<u8>, i: int) -> Option<(PeerAddress, int)> {
    match dec_bool(b, i) {
        Some((is_v6, i1)) => match dec_u128(b, i1) {
            Some((ip, i2)) => match dec_u16(b, i2) {
                Some((port, i3)) => Some((PeerAddress { is_v6, ip, port }, i3)),
                None => None,
            },
            None => None,
        },
        None => None,
    }
}

/// The complete message at `b`, or `None` where `b` is not exactly one
/// well-formed encoded message.
pub open spec fn spec_decode(b: Seq<u8>) -> Option<MsgV> {
    if b.len() < 1 {
        None
    } else {
        let tag = b[0];
        if tag == TAG_HANDSHAKE {
            match dec_bytes(b, 1) {
                Some((session_id, i)) => if i == b.len() {
                    Some(MsgV::Handshake { session_id })
                } else {
                    None
                },
                None => None,
            }
        } else if tag == TAG_INIT_HANDSHAKE {
            match dec_bytes(b, 1) {
                Some((name, i1)) => match dec_bytes(b, i1) {
                    Some((version, i2)) => if i2 == b.len() {
                        Some(MsgV::InitHandshake { name, version })
                    } else {
                        None
                    },
                    None => None,
                },
                None => None,
            }
        } else if tag == TAG_ATTEMPT_CONNECTION {
            match dec_addr(b, 1) {
                Some((peer, i)) => if i == b.len() {
                    Some(MsgV::AttemptConnection { peer })
                } else {
                    None
                },
                None => None,
            }
        } else if tag == TAG_PEER_ESTABLISHED {
            if b.len() == 1 {
                Some(MsgV::PeerEstablished)
            } else {
                None
            }
        } else if tag == TAG_INVALID_VERSION {
            match dec_bytes(b, 1) {
                Some((server_version, i)) => if i == b.len() {
                    Some(MsgV::InvalidVersion { server_version })
                } else {
                    None
                },
                None => None,
            }
        } else if tag == TAG_INVALID_NAME {
            if b.len() == 1 {
                Some(MsgV::InvalidName)
            } else {
                None
            }
        } else if tag == TAG_REQUEST_HOSTING {
            if b.len() == 1 {
                Some(MsgV::RequestHosting)
            } else {
                None
            }
        } else if tag == TAG_HOSTING_RECEIVED {
            match dec_bytes(b, 1) {
                Some((session_id, i)) => if i == b.len() {
                    Some(MsgV::HostingReceived { session_id })
                } else {
                    None
                },
                None => None,
            }
        } else if tag == TAG_PLAYER_JOINED {
            match dec_bytes(b, 1) {
                Some((name, i1)) => match dec_bool(b, i1) {
                    Some((in_control, i2)) => match dec_bool(b, i2) {
                        Some((is_observer, i3)) => match dec_bool(b, i3) {
                            Some((is_server, i4)) => if i4 == b.len() {
                                Some(
                                    MsgV::PlayerJoined {
                                        name,
                                        in_control,
                                        is_observer,
                                        is_server,
                                    },
                                )
                            } else {
                                None
                            },
                            None => None,
                        },
                        None => None,
                    },
                    None => None,
                },
                None => None,
            }
        } else if tag == TAG_PLAYER_LEFT {
            match dec_bytes(b, 1) {
                Some((name, i)) => if i == b.len() {
                    Some(MsgV::PlayerLeft { name })
                } else {
                    None
                },
                None => None,
            }
        } else if tag == TAG_UPDATE {
            match dec_bytes(b, 1) {
                Some((data, i1)) => match dec_bytes(b, i1) {
                    Some((from, i2)) => match dec_bool(b, i2) {
                        Some((is_unreliable, i3)) => match dec_u64(b, i3) {
                            Some((time, i4)) => if i4 == b.len() {
                                Some(MsgV::Update { data, from, is_unreliable, time })
                            } else {
                                None
                            },
                            None => None,
                        },
                        None => None,
                    },
                    None => None,
                },
                None => None,
            }
        } else if tag == TAG_TRANSFER_CONTROL {
            match dec_bytes(b, 1) {
                Some((from, i1)) => match dec_bytes(b, i1) {
                    Some((to, i2)) => if i2 == b.len() {
                        Some(MsgV::TransferControl { from, to })
                    } else {
                        None
                    },
                    None => None,
                },
                None => None,
            }
        } else if tag == TAG_SET_OBSERVER {
            match dec_bytes(b, 1) {
                Some((from, i1)) => match dec_bytes(b, i1) {
                    Some((to, i2)) => match dec_bool(b, i2) {
                        Some((is_observer, i3)) => if i3 == b.len() {
                            Some(MsgV::SetObserver { from, to, is_observer })
                        } else {
                            None
                        },
                        None => None,
                    },
                    None => None,
                },
                None => None,
            }
        } else if tag == TAG_SET_HOST {
            if b.len() == 1 {
                Some(MsgV::SetHost)
            } else {
                None
            }
        } else if tag == TAG_AIRCRAFT_DEFINITION {
            match dec_bytes(b, 1) {
                Some((bytes, i)) => if i == b.len() {
                    Some(MsgV::AircraftDefinition { bytes })
                } else {
                    None
                },
                None => None,
            }
        } else if tag == TAG_READY {
            if b.len() == 1 {
                Some(MsgV::Ready)
            } else {
                None
            }
        } else if tag == TAG_HEARTBEAT {
            if b.len() == 1 {
                Some(MsgV::Heartbeat)
            } else {
                None
            }
        } else {
            None
        }
    }
}

// ---------------------------------------------------------------------
// Executable encoding
// ---------------------------------------------------------------------

fn push_bytes_field(out: &mut Vec<u8>, data: &Vec<u8>)
    ensures
        final(out)@ == old(out)@ + enc_bytes(data@),
{
    let mut lb = u64_to_le_bytes(data.len() as u64);
    out.append(&mut lb);
    let mut d = slice_to_vec(data.as_slice());
    out.append(&mut d);
}

fn push_bool(out: &mut Vec<u8>, b: bool)
    ensures
        final(out)@ == old(out)@ + enc_bool(b),
{
    out.push(if b { 1 } else { 0 });
    assert(final(out)@ =~= old(out)@ + enc_bool(b));
}

fn push_u64(out: &mut Vec<u8>, x: u64)
    ensures
        final(out)@ == old(out)@ + spec_u64_to_le_bytes(x),
{
    let mut lb = u64_to_le_bytes(x);
    out.append(&mut lb);
}

fn push_addr(out: &mut Vec<u8>, a: &PeerAddress)
    ensures
        final(out)@ == old(out)@ + enc_addr(*a),
{
    push_bool(out, a.is_v6);
    let mut ip = u128_to_le_bytes(a.ip);
    out.append(&mut ip);
    let mut port = u16_to_le_bytes(a.port);
    out.append(&mut port);
    assert(final(out)@ =~= old(out)@ + enc_addr(*a));
}

/// Encode a message for the wire. The result is exactly the canonical
/// encoding of the message's model.
pub fn encode(p: &Payloads) -> (r: Vec<u8>)
    ensures
        r@ == spec_encode(p@),
{
    let mut out: Vec<u8> = Vec::new();
    match p {
        Payloads::Handshake { session_id } => {
            out.push(TAG_HANDSHAKE);
            push_bytes_field(&mut out, session_id);
        },
        Payloads::InitHandshake { name, version } => {
            out.push(TAG_INIT_HANDSHAKE);
            push_bytes_field(&mut out, name);
            push_bytes_field(&mut out, version);
        },
        Payloads::AttemptConnection { peer } => {
            out.push(TAG_ATTEMPT_CONNECTION);
            push_addr(&mut out, peer);
        },
        Payloads::PeerEstablished => {
            out.push(TAG_PEER_ESTABLISHED);
        },
        Payloads::InvalidVersion { server_version } => {
            out.push(TAG_INVALID_VERSION);
            push_bytes_field(&mut out, server_version);
        },
        Payloads::InvalidName => {
            out.push(TAG_INVALID_NAME);
        },
        Payloads::RequestHosting => {
            out.push(TAG_REQUEST_HOSTING);
        },
        Payloads::HostingReceived { session_id } => {
            out.push(TAG_HOSTING_RECEIVED);
            push_bytes_field(&mut out, session_id);
        },
        Payloads::PlayerJoined { name, in_control, is_observer, is_server } => {
            out.push(TAG_PLAYER_JOINED);
            push_bytes_field(&mut out, name);
            push_bool(&mut out, *in_control);
            push_bool(&mut out, *is_observer);
            push_bool(&mut out, *is_server);
        },
        Payloads::PlayerLeft { name } => {
            out.push(TAG_PLAYER_LEFT);
            push_bytes_field(&mut out, name);
        },
        Payloads::Update { data, from, is_unreliable, time } => {
            out.push(TAG_UPDATE);
            push_bytes_field(&mut out, data);
            push_bytes_field(&mut out, from);
            push_bool(&mut out, *is_unreliable);
            push_u64(&mut out, *time);
        },
        Payloads::TransferControl { from, to } => {
            out.push(TAG_TRANSFER_CONTROL);
            push_bytes_field(&mut out, from);
            push_bytes_field(&mut out, to);
        },
        Payloads::SetObserver { from, to, is_observer } => {
            out.push(TAG_SET_OBSERVER);
            push_bytes_field(&mut out, from);
            push_bytes_field(&mut out, to);
            push_bool(&mut out, *is_observer);
        },
        Payloads::SetHost => {
            out.push(TAG_SET_HOST);
        },
        Payloads::AircraftDefinition { bytes } => {
            out.push(TAG_AIRCRAFT_DEFINITION);
            push_bytes_field(&mut out, bytes);
        },
        Payloads::Ready => {
            out.push(TAG_READY);
        },
        Payloads::Heartbeat => {
            out.push(TAG_HEARTBEAT);
        },
    }
    assert(out@ =~= spec_encode(p@));
    out
}

// ---------------------------------------------------------------------
// Executable decoding
// ---------------------------------------------------------------------

fn read_bytes_field(b: &[u8], i: usize) -> (r: Option<(Vec<u8>, usize)>)
    requires
        i <= b@.len(),
    ensures
        match r {
            Some(p) => dec_bytes(b@, i as int) == Some((p.0@, p.1 as int)) && i < p.1 && p.1
                <= b@.len(),
            None => dec_bytes(b@, i as int) is None,
        },
{
    if b.len() - i < 8 {
        return None;
    }
    let len_slice = slice_subrange(b, i, i + 8);
    let n = u64_from_le_bytes(len_slice);
    let rem = b.len() - (i + 8);
    if n > rem as u64 {
        return None;
    }
    let n_us = n as usize;
    let data_slice = slice_subrange(b, i + 8, i + 8 + n_us);
    let v = slice_to_vec(data_slice);
    Some((v, i + 8 + n_us))
}

fn read_bool(b: &[u8], i: usize) -> (r: Option<(bool, usize)>)
    requires
        i <= b@.len(),
    ensures
        match r {
            Some(p) => dec_bool(b@, i as int) == Some((p.0, p.1 as int)) && i < p.1 && p.1
                <= b@.len(),
            None => dec_bool(b@, i as int) is None,
        },
{
    if b.len() - i < 1 {
        return None;
    }
    let byte = *slice_index_get(b, i);
    if byte == 0 {
        Some((false, i + 1))
    } else if byte == 1 {
        Some((true, i + 1))
    } else {
        None
    }
}

fn read_u64_field(b: &[u8], i: usize) -> (r: Option<(u64, usize)>)
    requires
        i <= b@.len(),
    ensures
        match r {
            Some(p) => dec_u64(b@, i as int) == Some((p.0, p.1 as int)) && i < p.1 && p.1
                <= b@.len(),
            None => dec_u64(b@, i as int) is None,
        },
{
    if b.len() - i < 8 {
        return None;
    }
    let x = u64_from_le_bytes(slice_subrange(b, i, i + 8));
    Some((x, i + 8))
}

fn read_u128_field(b: &[u8], i: usize) -> (r: Option<(u128, usize)>)
    requires
        i <= b@.len(),
    ensures
        match r {
            Some(p) => dec_u128(b@, i as int) == Some((p.0, p.1 as int)) && i < p.1 && p.1
                <= b@.len(),
            None => dec_u128(b@, i as int) is None,
        },
{
    if b.len() - i < 16 {
        return None;
    }
    let x = u128_from_le_bytes(slice_subrange(b, i, i + 16));
    Some((x, i + 16))
}

fn read_u16_field(b: &[u8], i: usize) -> (r: Option<(u16, usize)>)
    requires
        i <= b@.len(),
    ensures
        match r {
            Some(p) => dec_u16(b@, i as int) == Some((p.0, p.1 as int)) && i < p.1 && p.1
                <= b@.len(),
            None => dec_u16(b@, i as int) is None,
        },
{
    if b.len() - i < 2 {
        return None;
    }
    let x = u16_from_le_bytes(slice_subrange(b, i, i + 2));
    Some((x, i + 2))
}

fn read_addr(b: &[u8], i: usize) -> (r: Option<(PeerAddress, usize)>)
    requires
        i <= b@.len(),
    ensures
        match r {
            Some(p) => dec_addr(b@, i as int) == Some((p.0, p.1 as int)) && i < p.1 && p.1
                <= b@.len(),
            None => dec_addr(b@, i as int) is None,
        },
{
    match read_bool(b, i) {
        Some((is_v6, i1)) => match read_u128_field(b, i1) {
            Some((ip, i2)) => match read_u16_field(b, i2) {
                Some((port, i3)) => Some((PeerAddress { is_v6, ip, port }, i3)),
                None => None,
            },
            None => None,
        },
        None => None,
    }
}

/// Decode one datagram into a message, or report the malformation.
/// Succeeds exactly on the byte strings that are a canonical encoding.
pub fn decode(b: &[u8]) -> (r: Result<Payloads, DecodeError>)
    ensures
        match r {
            Ok(p) => spec_decode(b@) == Some(p@),
            Err(_) => spec_decode(b@) is None,
        },
{
    if b.len() == 0 {
        return Err(DecodeError);
    }
    let tag = *slice_index_get(b, 0);
    if tag == TAG_HANDSHAKE {
        match read_bytes_field(b, 1) {
            Some((session_id, i)) => if i == b.len() {
                Ok(Payloads::Handshake { session_id })
            } else {
                Err(DecodeError)
            },
            None => Err(DecodeError),
        }
    } else if tag == TAG_INIT_HANDSHAKE {
        match read_bytes_field(b, 1) {
            Some((name, i1)) => match read_bytes_field(b, i1) {
                Some((version, i2)) => if i2 == b.len() {
                    Ok(Payloads::InitHandshake { name, version })
                } else {
                    Err(DecodeError)
                },
                None => Err(DecodeError),
            },
            None => Err(DecodeError),
        }
    } else if tag == TAG_ATTEMPT_CONNECTION {
        match read_addr(b, 1) {
            Some((peer, i)) => if i == b.len() {
                Ok(Payloads::AttemptConnection { peer })
            } else {
                Err(DecodeError)
            },
            None => Err(DecodeError),
        }
    } else if tag == TAG_PEER_ESTABLISHED {
        if b.len() == 1 {
            Ok(Payloads::PeerEstablished)
        } else {
            Err(DecodeError)
        }
    } else if tag == TAG_INVALID_VERSION {
        match read_bytes_field(b, 1) {
            Some((server_version, i)) => if i == b.len() {
                Ok(Payloads::InvalidVersion { server_version })
            } else {
                Err(DecodeError)
            },
            None => Err(DecodeError),
        }
    } else if tag == TAG_INVALID_NAME {
        if b.len() == 1 {
            Ok(Payloads::InvalidName)
        } else {
            Err(DecodeError)
        }
    } else if tag == TAG_REQUEST_HOSTING {
        if b.len() == 1 {
            Ok(Payloads::RequestHosting)
        } else {
            Err(DecodeError)
        }
    } else if tag == TAG_HOSTING_RECEIVED {
        match read_bytes_field(b, 1) {
            Some((session_id, i)) => if i == b.len() {
                Ok(Payloads::HostingReceived { session_id })
            } else {
                Err(DecodeError)
            },
            None => Err(DecodeError),
        }
    } else if tag == TAG_PLAYER_JOINED {
        match read_bytes_field(b, 1) {
            Some((name, i1)) => match read_bool(b, i1) {
                Some((in_control, i2)) => match read_bool(b, i2) {
                    Some((is_observer, i3)) => match read_bool(b, i3) {
                        Some((is_server, i4)) => if i4 == b.len() {
                            Ok(Payloads::PlayerJoined { name, in_control, is_observer, is_server })
                        } else {
                            Err(DecodeError)
                        },
                        None => Err(DecodeError),
                    },
                    None => Err(DecodeError),
                },
                None => Err(DecodeError),
            },
            None => Err(DecodeError),
        }
    } else if tag == TAG_PLAYER_LEFT {
        match read_bytes_field(b, 1) {
            Some((name, i)) => if i == b.len() {
                Ok(Payloads::PlayerLeft { name })
            } else {
                Err(DecodeError)
            },
            None => Err(DecodeError),
        }
    } else if tag == TAG_UPDATE {
        match read_bytes_field(b, 1) {
            Some((data, i1)) => match read_bytes_field(b, i1) {
                Some((from, i2)) => match read_bool(b, i2) {
                    Some((is_unreliable, i3)) => match read_u64_field(b, i3) {
                        Some((time, i4)) => if i4 == b.len() {
                            Ok(Payloads::Update { data, from, is_unreliable, time })
                        } else {
                            Err(DecodeError)
                        },
                        None => Err(DecodeError),
                    },
                    None => Err(DecodeError),
                },
                None => Err(DecodeError),
            },
            None => Err(DecodeError),
        }
    } else if tag == TAG_TRANSFER_CONTROL {
        match read_bytes_field(b, 1) {
            Some((from, i1)) => match read_bytes_field(b, i1) {
                Some((to, i2)) => if i2 == b.len() {
                    Ok(Payloads::TransferControl { from, to })
                } else {
                    Err(DecodeError)
                },
                None => Err(DecodeError),
            },
            None => Err(DecodeError),
        }
    } else if tag == TAG_SET_OBSERVER {
        match read_bytes_field(b, 1) {
            Some((from, i1)) => match read_bytes_field(b, i1) {
                Some((to, i2)) => match read_bool(b, i2) {
                    Some((is_observer, i3)) => if i3 == b.len() {
                        Ok(Payloads::SetObserver { from, to, is_observer })
                    } else {
                        Err(DecodeError)
                    },
                    None => Err(DecodeError),
                },
                None => Err(DecodeError),
            },
            None => Err(DecodeError),
        }
    } else if tag == TAG_SET_HOST {
        if b.len() == 1 {
            Ok(Payloads::SetHost)
        } else {
            Err(DecodeError)
        }
    } else if tag == TAG_AIRCRAFT_DEFINITION {
        match read_bytes_field(b, 1) {
            Some((bytes, i)) => if i == b.len() {
                Ok(Payloads::AircraftDefinition { bytes })
            } else {
                Err(DecodeError)
            },
            None => Err(DecodeError),
        }
    } else if tag == TAG_READY {
        if b.len() == 1 {
            Ok(Payloads::Ready)
        } else {
            Err(DecodeError)
        }
    } else if tag == TAG_HEARTBEAT {
        if b.len() == 1 {
            Ok(Payloads::Heartbeat)
        } else {
            Err(DecodeError)
        }
    } else {
        Err(DecodeError)
    }
}

// ---------------------------------------------------------------------
// Round-trip lemmas, field by field
// ---------------------------------------------------------------------

proof fn lemma_dec_bytes_of_enc(b: Seq<u8>, i: int, s: Seq<u8>)
    requires
        0 <= i,
        s.len() <= u64::MAX,
        i + 8 + s.len() <= b.len(),
        b.subrange(i, i + 8 + s.len()) == enc_bytes(s),
    ensures
        dec_bytes(b, i) == Some((s, i + 8 + s.len() as int)),
{
    lemma_auto_spec_u64_to_from_le_bytes();
    let e = enc_bytes(s);
    let n = s.len() as u64;
    assert(spec_u64_to_le_bytes(n).len() == 8);
    assert(b.subrange(i, i + 8) =~= spec_u64_to_le_bytes(n)) by {
        assert forall|k: int| 0 <= k < 8 implies b.subrange(i, i + 8)[k] == spec_u64_to_le_bytes(
            n,
        )[k] by {
            assert(b.subrange(i, i + 8)[k] == b.subrange(i, i + 8 + s.len())[k]);
        }
    }
    assert(spec_u64_from_le_bytes(b.subrange(i, i + 8)) == n);
    assert(b.subrange(i + 8, i + 8 + s.len()) =~= s) by {
        assert forall|k: int| 0 <= k < s.len() implies b.subrange(i + 8, i + 8 + s.len())[k]
            == s[k] by {
            assert(b.subrange(i + 8, i + 8 + s.len())[k] == b.subrange(i, i + 8 + s.len())[8 + k]);
        }
    }
}

proof fn lemma_enc_of_dec_bytes(b: Seq<u8>, i: int, s: Seq<u8>, j: int)
    requires
        0 <= i <= b.len(),
        dec_bytes(b, i) == Some((s, j)),
    ensures
        i + 8 <= j <= b.len(),
        s.len() == j - (i + 8),
        s.len() <= u64::MAX,
        b.subrange(i, j) == enc_bytes(s),
{
    lemma_auto_spec_u64_to_from_le_bytes();
    let n = spec_u64_from_le_bytes(b.subrange(i, i + 8));
    assert(spec_u64_to_le_bytes(n) == b.subrange(i, i + 8));
    assert(s.len() as u64 == n);
    assert(b.subrange(i, j) =~= spec_u64_to_le_bytes(n) + s) by {
        assert forall|k: int| 0 <= k < j - i implies b.subrange(i, j)[k] == (spec_u64_to_le_bytes(n)
            + s)[k] by {
            if k < 8 {
                assert(b.subrange(i, j)[k] == b.subrange(i, i + 8)[k]);
            } else {
                assert(b.subrange(i, j)[k] == b.subrange(i + 8, j)[k - 8]);
            }
        }
    }
}

proof fn lemma_dec_bool_of_enc(b: Seq<u8>, i: int, v: bool)
    requires
        0 <= i,
        i + 1 <= b.len(),
        b[i] == bool_byte(v),
    ensures
        dec_bool(b, i) == Some((v, i + 1)),
{
}

proof fn lemma_enc_of_dec_bool(b: Seq<u8>, i: int, v: bool, j: int)
    requires
        0 <= i <= b.len(),
        dec_bool(b, i) == Some((v, j)),
    ensures
        j == i + 1 <= b.len(),
        b.subrange(i, j) == enc_bool(v),
{
    assert(b.subrange(i, j) =~= enc_bool(v));
}

proof fn lemma_dec_u64_of_enc(b: Seq<u8>, i: int, x: u64)
    requires
        0 <= i,
        i + 8 <= b.len(),
        b.subrange(i, i + 8) == spec_u64_to_le_bytes(x),
    ensures
        dec_u64(b, i) == Some((x, i + 8)),
{
    lemma_auto_spec_u64_to_from_le_bytes();
}

proof fn lemma_enc_of_dec_u64(b: Seq<u8>, i: int, x: u64, j: int)
    requires
        0 <= i <= b.len(),
        dec_u64(b, i) == Some((x, j)),
    ensures
        j == i + 8 <= b.len(),
        b.subrange(i, j) == spec_u64_to_le_bytes(x),
{
    lemma_auto_spec_u64_to_from_le_bytes();
}

proof fn lemma_dec_addr_of_enc(b: Seq<u8>, i: int, a: PeerAddress)
    requires
        0 <= i,
        i + 19 <= b.len(),
        b.subrange(i, i + 19) == enc_addr(a),
    ensures
        dec_addr(b, i) == Some((a, i + 19)),
{
    lemma_auto_spec_u128_to_from_le_bytes();
    lemma_auto_spec_u16_to_from_le_bytes();
    assert(spec_u128_to_le_bytes(a.ip).len() == 16);
    assert(spec_u16_to_le_bytes(a.port).len() == 2);
    assert(b[i] == bool_byte(a.is_v6)) by {
        assert(b.subrange(i, i + 19)[0] == enc_addr(a)[0]);
    }
    lemma_dec_bool_of_enc(b, i, a.is_v6);
    assert(b.subrange(i + 1, i + 17) =~= spec_u128_to_le_bytes(a.ip)) by {
        assert forall|k: int| 0 <= k < 16 implies b.subrange(i + 1, i + 17)[k]
            == spec_u128_to_le_bytes(a.ip)[k] by {
            assert(b.subrange(i + 1, i + 17)[k] == b.subrange(i, i + 19)[1 + k]);
        }
    }
    assert(spec_u128_from_le_bytes(b.subrange(i + 1, i + 17)) == a.ip);
    assert(b.subrange(i + 17, i + 19) =~= spec_u16_to_le_bytes(a.port)) by {
        assert forall|k: int| 0 <= k < 2 implies b.subrange(i + 17, i + 19)[k]
            == spec_u16_to_le_bytes(a.port)[k] by {
            assert(b.subrange(i + 17, i + 19)[k] == b.subrange(i, i + 19)[17 + k]);
        }
    }
    assert(spec_u16_from_le_bytes(b.subrange(i + 17, i + 19)) == a.port);
}

proof fn lemma_enc_of_dec_addr(b: Seq<u8>, i: int, a: PeerAddress, j: int)
    requires
        0 <= i <= b.len(),
        dec_addr(b, i) == Some((a, j)),
    ensures
        j == i + 19 <= b.len(),
        b.subrange(i, j) == enc_addr(a),
{
    lemma_auto_spec_u128_to_from_le_bytes();
    lemma_auto_spec_u16_to_from_le_bytes();
    assert(b[i] == bool_byte(a.is_v6));
    assert(spec_u128_to_le_bytes(a.ip) == b.subrange(i + 1, i + 17));
    assert(spec_u16_to_le_bytes(a.port) == b.subrange(i + 17, i + 19));
    assert(b.subrange(i, j) =~= enc_addr(a)) by {
        assert forall|k: int| 0 <= k < 19 implies b.subrange(i, j)[k] == enc_addr(a)[k] by {
            if k == 0 {
            } else if k < 17 {
                assert(b.subrange(i + 1, i + 17)[k - 1] == b[i + k]);
            } else {
                assert(b.subrange(i + 17, i + 19)[k - 17] == b[i + k]);
            }
        }
    }
}

proof fn lemma_subrange_merge(b: Seq<u8>, p: int, q: int, r: int)
    requires
        0 <= p <= q <= r <= b.len(),
    ensures
        b.subrange(p, r) == b.subrange(p, q) + b.subrange(q, r),
{
    assert(b.subrange(p, r) =~= b.subrange(p, q) + b.subrange(q, r));
}

proof fn lemma_round_bytes1(tag: u8, s: Seq<u8>)
    requires
        s.len() <= u64::MAX,
    ensures
        ({
            let b = seq![tag] + enc_bytes(s);
            b.len() == 9 + s.len() && b[0] == tag && dec_bytes(b, 1) == Some((s, b.len() as int))
        }),
{
    lemma_auto_spec_u64_to_from_le_bytes();
    let b = seq![tag] + enc_bytes(s);
    assert(b.subrange(1, 1 + 8 + s.len() as int) =~= enc_bytes(s));
    lemma_dec_bytes_of_enc(b, 1, s);
}

/// Round trip, one way: decoding the encoding of any well-formed
/// message yields that message back, exactly.
pub proof fn lemma_decode_encode(m: MsgV)
    requires
        msg_wf(m),
    ensures
        spec_decode(spec_encode(m)) == Some(m),
{
    lemma_auto_spec_u64_to_from_le_bytes();
    let b = spec_encode(m);
    match m {
        MsgV::Handshake { session_id } => {
            lemma_round_bytes1(TAG_HANDSHAKE, session_id);
        },
        MsgV::InitHandshake { name, version } => {
            let j1 = 1 + 8 + name.len() as int;
            let j2 = j1 + 8 + version.len() as int;
            assert(b.subrange(1, j1) =~= enc_bytes(name));
            lemma_dec_bytes_of_enc(b, 1, name);
            assert(b.subrange(j1, j2) =~= enc_bytes(version));
            lemma_dec_bytes_of_enc(b, j1, version);
        },
        MsgV::AttemptConnection { peer } => {
            lemma_auto_spec_u128_to_from_le_bytes();
            lemma_auto_spec_u16_to_from_le_bytes();
            assert(b.subrange(1, 20) =~= enc_addr(peer));
            lemma_dec_addr_of_enc(b, 1, peer);
        },
        MsgV::PeerEstablished => {
        },
        MsgV::InvalidVersion { server_version } => {
            lemma_round_bytes1(TAG_INVALID_VERSION, server_version);
        },
        MsgV::InvalidName => {
        },
        MsgV::RequestHosting => {
        },
        MsgV::HostingReceived { session_id } => {
            lemma_round_bytes1(TAG_HOSTING_RECEIVED, session_id);
        },
        MsgV::PlayerJoined { name, in_control, is_observer, is_server } => {
            let j1 = 1 + 8 + name.len() as int;
            assert(b.subrange(1, j1) =~= enc_bytes(name));
            lemma_dec_bytes_of_enc(b, 1, name);
            assert(b[j1] == bool_byte(in_control));
            lemma_dec_bool_of_enc(b, j1, in_control);
            assert(b[j1 + 1] == bool_byte(is_observer));
            lemma_dec_bool_of_enc(b, j1 + 1, is_observer);
            assert(b[j1 + 2] == bool_byte(is_server));
            lemma_dec_bool_of_enc(b, j1 + 2, is_server);
        },
        MsgV::PlayerLeft { name } => {
            lemma_round_bytes1(TAG_PLAYER_LEFT, name);
        },
        MsgV::Update { data, from, is_unreliable, time } => {
            let j1 = 1 + 8 + data.len() as int;
            let j2 = j1 + 8 + from.len() as int;
            assert(b.subrange(1, j1) =~= enc_bytes(data));
            lemma_dec_bytes_of_enc(b, 1, data);
            assert(b.subrange(j1, j2) =~= enc_bytes(from));
            lemma_dec_bytes_of_enc(b, j1, from);
            assert(b[j2] == bool_byte(is_unreliable));
            lemma_dec_bool_of_enc(b, j2, is_unreliable);
            assert(b.subrange(j2 + 1, j2 + 9) =~= spec_u64_to_le_bytes(time));
            lemma_dec_u64_of_enc(b, j2 + 1, time);
        },
        MsgV::TransferControl { from, to } => {
            let j1 = 1 + 8 + from.len() as int;
            let j2 = j1 + 8 + to.len() as int;
            assert(b.subrange(1, j1) =~= enc_bytes(from));
            lemma_dec_bytes_of_enc(b, 1, from);
            assert(b.subrange(j1, j2) =~= enc_bytes(to));
            lemma_dec_bytes_of_enc(b, j1, to);
        },
        MsgV::SetObserver { from, to, is_observer } => {
            let j1 = 1 + 8 + from.len() as int;
            let j2 = j1 + 8 + to.len() as int;
            assert(b.subrange(1, j1) =~= enc_bytes(from));
            lemma_dec_bytes_of_enc(b, 1, from);
            assert(b.subrange(j1, j2) =~= enc_bytes(to));
            lemma_dec_bytes_of_enc(b, j1, to);
            assert(b[j2] == bool_byte(is_observer));
            lemma_dec_bool_of_enc(b, j2, is_observer);
        },
        MsgV::SetHost => {
        },
        MsgV::AircraftDefinition { bytes } => {
            lemma_round_bytes1(TAG_AIRCRAFT_DEFINITION, bytes);
        },
        MsgV::Ready => {
        },
        MsgV::Heartbeat => {
        },
    }
}

/// Round trip, the other way: a byte string that decodes successfully
/// is exactly the canonical encoding of the decoded message. Decoding
/// accepts no second spelling of any message.
#[verifier::rlimit(100)]
#[verifier::spinoff_prover]
pub proof fn lemma_encode_decode(b: Seq<u8>, m: MsgV)
    requires
        spec_decode(b) == Some(m),
    ensures
        msg_wf(m),
        spec_encode(m) == b,
{
    lemma_auto_spec_u64_to_from_le_bytes();
    let tag = b[0];
    assert(b.subrange(0, 1) =~= seq![tag]);
    assert(b.subrange(0, b.len() as int) =~= b);
    if tag == TAG_HANDSHAKE || tag == TAG_INVALID_VERSION || tag == TAG_HOSTING_RECEIVED || tag
        == TAG_PLAYER_LEFT || tag == TAG_AIRCRAFT_DEFINITION {
        let (s, i) = dec_bytes(b, 1)->Some_0;
        lemma_enc_of_dec_bytes(b, 1, s, i);
        lemma_subrange_merge(b, 0, 1, i);
    } else if tag == TAG_INIT_HANDSHAKE || tag == TAG_TRANSFER_CONTROL {
        let (s1, i1) = dec_bytes(b, 1)->Some_0;
        lemma_enc_of_dec_bytes(b, 1, s1, i1);
        let (s2, i2) = dec_bytes(b, i1)->Some_0;
        lemma_enc_of_dec_bytes(b, i1, s2, i2);
        lemma_subrange_merge(b, 0, 1, i1);
        lemma_subrange_merge(b, 0, i1, i2);
    } else if tag == TAG_ATTEMPT_CONNECTION {
        let (peer, i) = dec_addr(b, 1)->Some_0;
        lemma_enc_of_dec_addr(b, 1, peer, i);
        lemma_subrange_merge(b, 0, 1, i);
    } else if tag == TAG_PLAYER_JOINED {
        let (s1, i1) = dec_bytes(b, 1)->Some_0;
        lemma_enc_of_dec_bytes(b, 1, s1, i1);
        let (v1, i2) = dec_bool(b, i1)->Some_0;
        lemma_enc_of_dec_bool(b, i1, v1, i2);
        let (v2, i3) = dec_bool(b, i2)->Some_0;
        lemma_enc_of_dec_bool(b, i2, v2, i3);
        let (v3, i4) = dec_bool(b, i3)->Some_0;
        lemma_enc_of_dec_bool(b, i3, v3, i4);
        lemma_subrange_merge(b, 0, 1, i1);
        lemma_subrange_merge(b, 0, i1, i2);
        lemma_subrange_merge(b, 0, i2, i3);
        lemma_subrange_merge(b, 0, i3, i4);
    } else if tag == TAG_UPDATE {
        let (s1, i1) = dec_bytes(b, 1)->Some_0;
        lemma_enc_of_dec_bytes(b, 1, s1, i1);
        let (s2, i2) = dec_bytes(b, i1)->Some_0;
        lemma_enc_of_dec_bytes(b, i1, s2, i2);
        let (v1, i3) = dec_bool(b, i2)->Some_0;
        lemma_enc_of_dec_bool(b, i2, v1, i3);
        let (t, i4) = dec_u64(b, i3)->Some_0;
        lemma_enc_of_dec_u64(b, i3, t, i4);
        lemma_subrange_merge(b, 0, 1, i1);
        lemma_subrange_merge(b, 0, i1, i2);
        lemma_subrange_merge(b, 0, i2, i3);
        lemma_subrange_merge(b, 0, i3, i4);
    } else if tag == TAG_SET_OBSERVER {
        let (s1, i1) = dec_bytes(b, 1)->Some_0;
        lemma_enc_of_dec_bytes(b, 1, s1, i1);
        let (s2, i2) = dec_bytes(b, i1)->Some_0;
        lemma_enc_of_dec_bytes(b, i1, s2, i2);
        let (v1, i3) = dec_bool(b, i2)->Some_0;
        lemma_enc_of_dec_bool(b, i2, v1, i3);
        lemma_subrange_merge(b, 0, 1, i1);
        lemma_subrange_merge(b, 0, i1, i2);
        lemma_subrange_merge(b, 0, i2, i3);
    } else {
        assert(b =~= seq![tag]);
    }
}

} // verus!
