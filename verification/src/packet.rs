//! Typed packets and the fixed per-version schema keyed by
//! (protocol state, direction, numeric id). `encode_packet` lays a packet out
//! as its id varint followed by its fields; `decode_packet` is its inverse
//! and fails with `UnknownPacketId` exactly when no schema entry exists for
//! the key. Textual fields are carried as their UTF-8 bytes; the join-game
//! body is an opaque blob supplied by a collaborator.

use vstd::prelude::*;
use crate::error::ProtocolError;
use crate::varint::{lemma_varint_bytes_size, varint_bytes, varint_size};
use crate::wire::{
    be_bytes,
    bytes_field,
    copy_range,
    dec_be_at,
    dec_bytes_at,
    dec_varint_at,
    lemma_dec_be_at,
    lemma_dec_bytes_at,
    lemma_dec_varint_at,
    lemma_pow256_values,
    read_be_field,
    read_bytes_field,
    read_varint_field,
    write_be,
    write_bytes_field,
    write_varint,
};

verus! {

/// The four protocol states that govern which packet types are valid.
#[derive(Clone, Copy, Debug, PartialEq, Eq, Structural)]
pub enum ProtocolState {
    Handshake,
    Status,
    Login,
    Play,
}

/// Who sent a packet: serverbound packets come from the client.
#[derive(Clone, Copy, Debug, PartialEq, Eq, Structural)]
pub enum Direction {
    Serverbound,
    Clientbound,
}

/// A decoded packet. Never mutated after decode.
#[derive(Clone, Debug, PartialEq, Eq)]
pub enum Packet {
    Handshake { protocol_version: u32, server_address: Vec<u8>, server_port: u16, next_state: u32 },
    StatusRequest,
    StatusPing { payload: u64 },
    StatusResponse { json: Vec<u8> },
    StatusPong { payload: u64 },
    LoginStart { name: Vec<u8> },
    EncryptionResponse { shared_secret: Vec<u8>, verify_token: Vec<u8> },
    LoginDisconnect { reason: Vec<u8> },
    EncryptionRequest { server_id: Vec<u8>, public_key: Vec<u8>, verify_token: Vec<u8> },
    LoginSuccess { uuid: u128, username: Vec<u8> },
    SetCompression { threshold: u32 },
    PlayClientChatMessage { message: Vec<u8> },
    PlayServerChatMessage { message: Vec<u8>, position: u8, sender: u128 },
    PlayDisconnect { reason: Vec<u8> },
    PlayJoinGame { body: Vec<u8> },
}

/// The mathematical shadow of `Packet`: byte fields as sequences.
pub enum PacketView {
    Handshake { protocol_version: u32, server_address: Seq<u8>, server_port: u16, next_state: u32 },
    StatusRequest,
    StatusPing { payload: u64 },
    StatusResponse { json: Seq<u8> },
    StatusPong { payload: u64 },
    LoginStart { name: Seq<u8> },
    EncryptionResponse { shared_secret: Seq<u8>, verify_token: Seq<u8> },
    LoginDisconnect { reason: Seq<u8> },
    EncryptionRequest { server_id: Seq<u8>, public_key: Seq<u8>, verify_token: Seq<u8> },
    LoginSuccess { uuid: u128, username: Seq<u8> },
    SetCompression { threshold: u32 },
    PlayClientChatMessage { message: Seq<u8> },
    PlayServerChatMessage { message: Seq<u8>, position: u8, sender: u128 },
    PlayDisconnect { reason: Seq<u8> },
    PlayJoinGame { body: Seq<u8> },
}

impl View for Packet {
    type V = PacketView;

    open spec fn view(&self) -> PacketView {
        match self {
            Packet::Handshake { protocol_version, server_address, server_port, next_state } => {
                PacketView::Handshake {
                    protocol_version: *protocol_version,
                    server_address: server_address@,
                    server_port: *server_port,
                    next_state: *next_state,
                }
            },
            Packet::StatusRequest => PacketView::StatusRequest,
            Packet::StatusPing { payload } => PacketView::StatusPing { payload: *payload },
            Packet::StatusResponse { json } => PacketView::StatusResponse { json: json@ },
            Packet::StatusPong { payload } => PacketView::StatusPong { payload: *payload },
            Packet::LoginStart { name } => PacketView::LoginStart { name: name@ },
            Packet::EncryptionResponse { shared_secret, verify_token } => {
                PacketView::EncryptionResponse {
                    shared_secret: shared_secret@,
                    verify_token: verify_token@,
                }
            },
            Packet::LoginDisconnect { reason } => PacketView::LoginDisconnect { reason: reason@ },
            Packet::EncryptionRequest { server_id, public_key, verify_token } => {
                PacketView::EncryptionRequest {
                    server_id: server_id@,
                    public_key: public_key@,
                    verify_token: verify_token@,
                }
            },
            Packet::LoginSuccess { uuid, username } => {
                PacketView::LoginSuccess { uuid: *uuid, username: username@ }
            },
            Packet::SetCompression { threshold } => {
                PacketView::SetCompression { threshold: *threshold }
            },
            Packet::PlayClientChatMessage { message } => {
                PacketView::PlayClientChatMessage { message: message@ }
            },
            Packet::PlayServerChatMessage { message, position, sender } => {
                PacketView::PlayServerChatMessage {
                    message: message@,
                    position: *position,
                    sender: *sender,
                }
            },
            Packet::PlayDisconnect { reason } => PacketView::PlayDisconnect { reason: reason@ },
            Packet::PlayJoinGame { body } => PacketView::PlayJoinGame { body: body@ },
        }
    }
}

/// The protocol state whose schema the packet belongs to.
pub open spec fn packet_state(p: PacketView) -> ProtocolState {
    match p {
        PacketView::Handshake { .. } => ProtocolState::Handshake,
        PacketView::StatusRequest => ProtocolState::Status,
        PacketView::StatusPing { .. } => ProtocolState::Status,
        PacketView::StatusResponse { .. } => ProtocolState::Status,
        PacketView::StatusPong { .. } => ProtocolState::Status,
        PacketView::LoginStart { .. } => ProtocolState::Login,
        PacketView::EncryptionResponse { .. } => ProtocolState::Login,
        PacketView::LoginDisconnect { .. } => ProtocolState::Login,
        PacketView::EncryptionRequest { .. } => ProtocolState::Login,
        PacketView::LoginSuccess { .. } => ProtocolState::Login,
        PacketView::SetCompression { .. } => ProtocolState::Login,
        PacketView::PlayClientChatMessage { .. } => ProtocolState::Play,
        PacketView::PlayServerChatMessage { .. } => ProtocolState::Play,
        PacketView::PlayDisconnect { .. } => ProtocolState::Play,
        PacketView::PlayJoinGame { .. } => ProtocolState::Play,
    }
}

/// The direction the packet travels in.
pub open spec fn packet_direction(p: PacketView) -> Direction {
    match p {
        PacketView::Handshake { .. } => Direction::Serverbound,
        PacketView::StatusRequest => Direction::Serverbound,
        PacketView::StatusPing { .. } => Direction::Serverbound,
        PacketView::StatusResponse { .. } => Direction::Clientbound,
        PacketView::StatusPong { .. } => Direction::Clientbound,
        PacketView::LoginStart { .. } => Direction::Serverbound,
        PacketView::EncryptionResponse { .. } => Direction::Serverbound,
        PacketView::LoginDisconnect { .. } => Direction::Clientbound,
        PacketView::EncryptionRequest { .. } => Direction::Clientbound,
        PacketView::LoginSuccess { .. } => Direction::Clientbound,
        PacketView::SetCompression { .. } => Direction::Clientbound,
        PacketView::PlayClientChatMessage { .. } => Direction::Serverbound,
        PacketView::PlayServerChatMessage { .. } => Direction::Clientbound,
        PacketView::PlayDisconnect { .. } => Direction::Clientbound,
        PacketView::PlayJoinGame { .. } => Direction::Clientbound,
    }
}

/// The packet's numeric id within its (state, direction) table.
pub open spec fn packet_id(p: PacketView) -> u32 {
    match p {
        PacketView::Handshake { .. } => 0x00,
        PacketView::StatusRequest => 0x00,
        PacketView::StatusPing { .. } => 0x01,
        PacketView::StatusResponse { .. } => 0x00,
        PacketView::StatusPong { .. } => 0x01,
        PacketView::LoginStart { .. } => 0x00,
        PacketView::EncryptionResponse { .. } => 0x01,
        PacketView::LoginDisconnect { .. } => 0x00,
        PacketView::EncryptionRequest { .. } => 0x01,
        PacketView::LoginSuccess { .. } => 0x02,
        PacketView::SetCompression { .. } => 0x03,
        PacketView::PlayClientChatMessage { .. } => 0x03,
        PacketView::PlayServerChatMessage { .. } => 0x0E,
        PacketView::PlayDisconnect { .. } => 0x19,
        PacketView::PlayJoinGame { .. } => 0x24,
    }
}

/// Well-formed: every variable-length field's byte length fits the 32-bit
/// length prefix the wire format gives it.
pub open spec fn wf_packet(p: PacketView) -> bool {
    match p {
        PacketView::Handshake { server_address, .. } => server_address.len() < 0x1_0000_0000,
        PacketView::StatusRequest => true,
        PacketView::StatusPing { .. } => true,
        PacketView::StatusResponse { json } => json.len() < 0x1_0000_0000,
        PacketView::StatusPong { .. } => true,
        PacketView::LoginStart { name } => name.len() < 0x1_0000_0000,
        PacketView::EncryptionResponse { shared_secret, verify_token } => {
            shared_secret.len() < 0x1_0000_0000 && verify_token.len() < 0x1_0000_0000
        },
        PacketView::LoginDisconnect { reason } => reason.len() < 0x1_0000_0000,
        PacketView::EncryptionRequest { server_id, public_key, verify_token } => {
            server_id.len() < 0x1_0000_0000 && public_key.len() < 0x1_0000_0000
                && verify_token.len() < 0x1_0000_0000
        },
        PacketView::LoginSuccess { username, .. } => username.len() < 0x1_0000_0000,
        PacketView::SetCompression { .. } => true,
        PacketView::PlayClientChatMessage { message } => message.len() < 0x1_0000_0000,
        PacketView::PlayServerChatMessage { message, .. } => message.len() < 0x1_0000_0000,
        PacketView::PlayDisconnect { reason } => reason.len() < 0x1_0000_0000,
        PacketView::PlayJoinGame { body } => body.len() < 0x1_0000_0000,
    }
}

/// The body bytes of a packet: its fields in schema order, without the id.
pub open spec fn encode_body(p: PacketView) -> Seq<u8> {
    match p {
        PacketView::Handshake { protocol_version, server_address, server_port, next_state } => {
            varint_bytes(protocol_version) + bytes_field(server_address) + be_bytes(
                server_port as int,
                2,
            ) + varint_bytes(next_state)
        },
        PacketView::StatusRequest => Seq::empty(),
        PacketView::StatusPing { payload } => be_bytes(payload as int, 8),
        PacketView::StatusResponse { json } => bytes_field(json),
        PacketView::StatusPong { payload } => be_bytes(payload as int, 8),
        PacketView::LoginStart { name } => bytes_field(name),
        PacketView::EncryptionResponse { shared_secret, verify_token } => {
            bytes_field(shared_secret) + bytes_field(verify_token)
        },
        PacketView::LoginDisconnect { reason } => bytes_field(reason),
        PacketView::EncryptionRequest { server_id, public_key, verify_token } => {
            bytes_field(server_id) + bytes_field(public_key) + bytes_field(verify_token)
        },
        PacketView::LoginSuccess { uuid, username } => {
            be_bytes(uuid as int, 16) + bytes_field(username)
        },
        PacketView::SetCompression { threshold } => varint_bytes(threshold),
        PacketView::PlayClientChatMessage { message } => bytes_field(message),
        PacketView::PlayServerChatMessage { message, position, sender } => {
            bytes_field(message) + be_bytes(position as int, 1) + be_bytes(sender as int, 16)
        },
        PacketView::PlayDisconnect { reason } => bytes_field(reason),
        PacketView::PlayJoinGame { body } => body,
    }
}

/// A packet's full wire form: its id as a varint, then its body.
pub open spec fn encode_packet_bytes(p: PacketView) -> Seq<u8> {
    varint_bytes(packet_id(p)) + encode_body(p)
}

/// Decode a body that is a single length-prefixed byte string and nothing
/// after it.
pub open spec fn dec_bytes_exact(s: Seq<u8>, i: int) -> Result<Seq<u8>, ProtocolError> {
    match dec_bytes_at(s, i) {
        None => Err(ProtocolError::MalformedPacket),
        Some((b, j)) => if j == s.len() {
            Ok(b)
        } else {
            Err(ProtocolError::MalformedPacket)
        },
    }
}

pub open spec fn dec_handshake(s: Seq<u8>, i: int) -> Result<PacketView, ProtocolError> {
    match dec_varint_at(s, i) {
        None => Err(ProtocolError::MalformedVarInt),
        Some((pv, i1)) => match dec_bytes_at(s, i1) {
            None => Err(ProtocolError::MalformedPacket),
            Some((addr, i2)) => match dec_be_at(s, i2, 2) {
                None => Err(ProtocolError::MalformedPacket),
                Some((port, i3)) => match dec_varint_at(s, i3) {
                    None => Err(ProtocolError::MalformedVarInt),
                    Some((ns, i4)) => if i4 == s.len() {
                        Ok(
                            PacketView::Handshake {
                                protocol_version: pv,
                                server_address: addr,
                                server_port: port as u16,
                                next_state: ns,
                            },
                        )
                    } else {
                        Err(ProtocolError::MalformedPacket)
                    },
                },
            },
        },
    }
}

pub open spec fn dec_status_ping(s: Seq<u8>, i: int, dir: Direction) -> Result<
    PacketView,
    ProtocolError,
> {
    match dec_be_at(s, i, 8) {
        None => Err(ProtocolError::MalformedPacket),
        Some((x, j)) => if j == s.len() {
            if dir is Serverbound {
                Ok(PacketView::StatusPing { payload: x as u64 })
            } else {
                Ok(PacketView::StatusPong { payload: x as u64 })
            }
        } else {
            Err(ProtocolError::MalformedPacket)
        },
    }
}

pub open spec fn dec_encryption_response(s: Seq<u8>, i: int) -> Result<PacketView, ProtocolError> {
    match dec_bytes_at(s, i) {
        None => Err(ProtocolError::MalformedPacket),
        Some((secret, i1)) => match dec_bytes_at(s, i1) {
            None => Err(ProtocolError::MalformedPacket),
            Some((token, i2)) => if i2 == s.len() {
                Ok(PacketView::EncryptionResponse { shared_secret: secret, verify_token: token })
            } else {
                Err(ProtocolError::MalformedPacket)
            },
        },
    }
}

pub open spec fn dec_encryption_request(s: Seq<u8>, i: int) -> Result<PacketView, ProtocolError> {
    match dec_bytes_at(s, i) {
        None => Err(ProtocolError::MalformedPacket),
        Some((server_id, i1)) => match dec_bytes_at(s, i1) {
            None => Err(ProtocolError::MalformedPacket),
            Some((key, i2)) => match dec_bytes_at(s, i2) {
                None => Err(ProtocolError::MalformedPacket),
                Some((token, i3)) => if i3 == s.len() {
                    Ok(
                        PacketView::EncryptionRequest {
                            server_id: server_id,
                            public_key: key,
                            verify_token: token,
                        },
                    )
                } else {
                    Err(ProtocolError::MalformedPacket)
                },
            },
        },
    }
}

pub open spec fn dec_login_success(s: Seq<u8>, i: int) -> Result<PacketView, ProtocolError> {
    match dec_be_at(s, i, 16) {
        None => Err(ProtocolError::MalformedPacket),
        Some((uuid, i1)) => match dec_bytes_at(s, i1) {
            None => Err(ProtocolError::MalformedPacket),
            Some((name, i2)) => if i2 == s.len() {
                Ok(PacketView::LoginSuccess { uuid: uuid as u128, username: name })
            } else {
                Err(ProtocolError::MalformedPacket)
            },
        },
    }
}

pub open spec fn dec_set_compression(s: Seq<u8>, i: int) -> Result<PacketView, ProtocolError> {
    match dec_varint_at(s, i) {
        None => Err(ProtocolError::MalformedVarInt),
        Some((t, j)) => if j == s.len() {
            Ok(PacketView::SetCompression { threshold: t })
        } else {
            Err(ProtocolError::MalformedPacket)
        },
    }
}

pub open spec fn dec_play_server_chat(s: Seq<u8>, i: int) -> Result<PacketView, ProtocolError> {
    match dec_bytes_at(s, i) {
        None => Err(ProtocolError::MalformedPacket),
        Some((msg, i1)) => match dec_be_at(s, i1, 1) {
            None => Err(ProtocolError::MalformedPacket),
            Some((position, i2)) => match dec_be_at(s, i2, 16) {
                None => Err(ProtocolError::MalformedPacket),
                Some((sender, i3)) => if i3 == s.len() {
                    Ok(
                        PacketView::PlayServerChatMessage {
                            message: msg,
                            position: position as u8,
                            sender: sender as u128,
                        },
                    )
                } else {
                    Err(ProtocolError::MalformedPacket)
                },
            },
        },
    }
}

/// The schema table: which (state, direction, id) keys decode, and how.
pub open spec fn decode_body_spec(
    state: ProtocolState,
    dir: Direction,
    id: u32,
    s: Seq<u8>,
    i: int,
) -> Result<PacketView, ProtocolError> {
    match (state, dir) {
        (ProtocolState::Handshake, Direction::Serverbound) => {
            if id == 0x00 {
                dec_handshake(s, i)
            } else {
                Err(ProtocolError::UnknownPacketId)
            }
        },
        (ProtocolState::Status, Direction::Serverbound) => {
            if id == 0x00 {
                if i == s.len() {
                    Ok(PacketView::StatusRequest)
                } else {
                    Err(ProtocolError::MalformedPacket)
                }
            } else if id == 0x01 {
                dec_status_ping(s, i, dir)
            } else {
                Err(ProtocolError::UnknownPacketId)
            }
        },
        (ProtocolState::Status, Direction::Clientbound) => {
            if id == 0x00 {
                match dec_bytes_exact(s, i) {
                    Ok(b) => Ok(PacketView::StatusResponse { json: b }),
                    Err(e) => Err(e),
                }
            } else if id == 0x01 {
                dec_status_ping(s, i, dir)
            } else {
                Err(ProtocolError::UnknownPacketId)
            }
        },
        (ProtocolState::Login, Direction::Serverbound) => {
            if id == 0x00 {
                match dec_bytes_exact(s, i) {
                    Ok(b) => Ok(PacketView::LoginStart { name: b }),
                    Err(e) => Err(e),
                }
            } else if id == 0x01 {
                dec_encryption_response(s, i)
            } else {
                Err(ProtocolError::UnknownPacketId)
            }
        },
        (ProtocolState::Login, Direction::Clientbound) => {
            if id == 0x00 {
                match dec_bytes_exact(s, i) {
                    Ok(b) => Ok(PacketView::LoginDisconnect { reason: b }),
                    Err(e) => Err(e),
                }
            } else if id == 0x01 {
                dec_encryption_request(s, i)
            } else if id == 0x02 {
                dec_login_success(s, i)
            } else if id == 0x03 {
                dec_set_compression(s, i)
            } else {
                Err(ProtocolError::UnknownPacketId)
            }
        },
        (ProtocolState::Play, Direction::Serverbound) => {
            if id == 0x03 {
                match dec_bytes_exact(s, i) {
                    Ok(b) => Ok(PacketView::PlayClientChatMessage { message: b }),
                    Err(e) => Err(e),
                }
            } else {
                Err(ProtocolError::UnknownPacketId)
            }
        },
        (ProtocolState::Play, Direction::Clientbound) => {
            if id == 0x0E {
                dec_play_server_chat(s, i)
            } else if id == 0x19 {
                match dec_bytes_exact(s, i) {
                    Ok(b) => Ok(PacketView::PlayDisconnect { reason: b }),
                    Err(e) => Err(e),
                }
            } else if id == 0x24 {
                Ok(PacketView::PlayJoinGame { body: s.skip(i) })
            } else {
                Err(ProtocolError::UnknownPacketId)
            }
        },
        (ProtocolState::Handshake, Direction::Clientbound) => Err(ProtocolError::UnknownPacketId),
    }
}

/// What decoding `s` under (state, dir) yields: the id varint, then the body
/// per the schema entry.
pub open spec fn decode_packet_spec(state: ProtocolState, dir: Direction, s: Seq<u8>) -> Result<
    PacketView,
    ProtocolError,
> {
    match dec_varint_at(s, 0) {
        None => Err(ProtocolError::MalformedVarInt),
        Some((id, i)) => decode_body_spec(state, dir, id, s, i),
    }
}

/// The view of a decode result.
pub open spec fn decoded_view(r: Result<Packet, ProtocolError>) -> Result<
    PacketView,
    ProtocolError,
> {
    match r {
        Ok(p) => Ok(p@),
        Err(e) => Err(e),
    }
}

impl Packet {
    /// The protocol state this packet belongs to.
    pub fn state_of(&self) -> (r: ProtocolState)
        ensures
            r == packet_state(self@),
    {
        match self {
            Packet::Handshake { .. } => ProtocolState::Handshake,
            Packet::StatusRequest => ProtocolState::Status,
            Packet::StatusPing { .. } => ProtocolState::Status,
            Packet::StatusResponse { .. } => ProtocolState::Status,
            Packet::StatusPong { .. } => ProtocolState::Status,
            Packet::LoginStart { .. } => ProtocolState::Login,
            Packet::EncryptionResponse { .. } => ProtocolState::Login,
            Packet::LoginDisconnect { .. } => ProtocolState::Login,
            Packet::EncryptionRequest { .. } => ProtocolState::Login,
            Packet::LoginSuccess { .. } => ProtocolState::Login,
            Packet::SetCompression { .. } => ProtocolState::Login,
            Packet::PlayClientChatMessage { .. } => ProtocolState::Play,
            Packet::PlayServerChatMessage { .. } => ProtocolState::Play,
            Packet::PlayDisconnect { .. } => ProtocolState::Play,
            Packet::PlayJoinGame { .. } => ProtocolState::Play,
        }
    }

    /// The direction this packet travels in.
    pub fn direction_of(&self) -> (r: Direction)
        ensures
            r == packet_direction(self@),
    {
        match self {
            Packet::Handshake { .. } => Direction::Serverbound,
            Packet::StatusRequest => Direction::Serverbound,
            Packet::StatusPing { .. } => Direction::Serverbound,
            Packet::StatusResponse { .. } => Direction::Clientbound,
            Packet::StatusPong { .. } => Direction::Clientbound,
            Packet::LoginStart { .. } => Direction::Serverbound,
            Packet::EncryptionResponse { .. } => Direction::Serverbound,
            Packet::LoginDisconnect { .. } => Direction::Clientbound,
            Packet::EncryptionRequest { .. } => Direction::Clientbound,
            Packet::LoginSuccess { .. } => Direction::Clientbound,
            Packet::SetCompression { .. } => Direction::Clientbound,
            Packet::PlayClientChatMessage { .. } => Direction::Serverbound,
            Packet::PlayServerChatMessage { .. } => Direction::Clientbound,
            Packet::PlayDisconnect { .. } => Direction::Clientbound,
            Packet::PlayJoinGame { .. } => Direction::Clientbound,
        }
    }

    /// Whether this packet can be laid out on the wire: every
    /// variable-length field fits its 32-bit length prefix. Unverified
    /// callers check this before asking for an encoding.
    pub fn is_wf(&self) -> (r: bool)
        ensures
            r == wf_packet(self@),
    {
        let fits = |v: &Vec<u8>| -> (rr: bool)
            ensures
                rr == (v@.len() < 0x1_0000_0000),
            { (v.len() as u64) < 0x1_0000_0000u64 };
        match self {
            Packet::Handshake { server_address, .. } => fits(server_address),
            Packet::StatusRequest => true,
            Packet::StatusPing { .. } => true,
            Packet::StatusResponse { json } => fits(json),
            Packet::StatusPong { .. } => true,
            Packet::LoginStart { name } => fits(name),
            Packet::EncryptionResponse { shared_secret, verify_token } => {
                fits(shared_secret) && fits(verify_token)
            },
            Packet::LoginDisconnect { reason } => fits(reason),
            Packet::EncryptionRequest { server_id, public_key, verify_token } => {
                fits(server_id) && fits(public_key) && fits(verify_token)
            },
            Packet::LoginSuccess { username, .. } => fits(username),
            Packet::SetCompression { .. } => true,
            Packet::PlayClientChatMessage { message } => fits(message),
            Packet::PlayServerChatMessage { message, .. } => fits(message),
            Packet::PlayDisconnect { reason } => fits(reason),
            Packet::PlayJoinGame { body } => fits(body),
        }
    }

    /// The packet's numeric id within its (state, direction) table.
    pub fn id_of(&self) -> (r: u32)
        ensures
            r == packet_id(self@),
    {
        match self {
            Packet::Handshake { .. } => 0x00,
            Packet::StatusRequest => 0x00,
            Packet::StatusPing { .. } => 0x01,
            Packet::StatusResponse { .. } => 0x00,
            Packet::StatusPong { .. } => 0x01,
            Packet::LoginStart { .. } => 0x00,
            Packet::EncryptionResponse { .. } => 0x01,
            Packet::LoginDisconnect { .. } => 0x00,
            Packet::EncryptionRequest { .. } => 0x01,
            Packet::LoginSuccess { .. } => 0x02,
            Packet::SetCompression { .. } => 0x03,
            Packet::PlayClientChatMessage { .. } => 0x03,
            Packet::PlayServerChatMessage { .. } => 0x0E,
            Packet::PlayDisconnect { .. } => 0x19,
            Packet::PlayJoinGame { .. } => 0x24,
        }
    }
}

/// Encodes a packet as its id varint followed by its fields.
pub fn encode_packet(p: &Packet) -> (r: Vec<u8>)
    requires
        wf_packet(p@),
    ensures
        r@ == encode_packet_bytes(p@),
{
    let mut out: Vec<u8> = Vec::new();
    let id = p.id_of();
    write_varint(&mut out, id);
    match p {
        Packet::Handshake { protocol_version, server_address, server_port, next_state } => {
            write_varint(&mut out, *protocol_version);
            write_bytes_field(&mut out, server_address);
            write_be(&mut out, *server_port as u128, 2);
            write_varint(&mut out, *next_state);
        },
        Packet::StatusRequest => {},
        Packet::StatusPing { payload } => {
            write_be(&mut out, *payload as u128, 8);
        },
        Packet::StatusResponse { json } => {
            write_bytes_field(&mut out, json);
        },
        Packet::StatusPong { payload } => {
            write_be(&mut out, *payload as u128, 8);
        },
        Packet::LoginStart { name } => {
            write_bytes_field(&mut out, name);
        },
        Packet::EncryptionResponse { shared_secret, verify_token } => {
            write_bytes_field(&mut out, shared_secret);
            write_bytes_field(&mut out, verify_token);
        },
        Packet::LoginDisconnect { reason } => {
            write_bytes_field(&mut out, reason);
        },
        Packet::EncryptionRequest { server_id, public_key, verify_token } => {
            write_bytes_field(&mut out, server_id);
            write_bytes_field(&mut out, public_key);
            write_bytes_field(&mut out, verify_token);
        },
        Packet::LoginSuccess { uuid, username } => {
            write_be(&mut out, *uuid, 16);
            write_bytes_field(&mut out, username);
        },
        Packet::SetCompression { threshold } => {
            write_varint(&mut out, *threshold);
        },
        Packet::PlayClientChatMessage { message } => {
            write_bytes_field(&mut out, message);
        },
        Packet::PlayServerChatMessage { message, position, sender } => {
            write_bytes_field(&mut out, message);
            write_be(&mut out, *position as u128, 1);
            write_be(&mut out, *sender, 16);
        },
        Packet::PlayDisconnect { reason } => {
            write_bytes_field(&mut out, reason);
        },
        Packet::PlayJoinGame { body } => {
            crate::wire::push_bytes(&mut out, body);
        },
    }
    proof {
        assert(out@ =~= encode_packet_bytes(p@));
    }
    out
}

fn decode_handshake_body(bytes: &Vec<u8>, i: usize) -> (r: Result<Packet, ProtocolError>)
    requires
        i <= bytes@.len(),
    ensures
        decoded_view(r) == dec_handshake(bytes@, i as int),
{
    let (pv, i1) = match read_varint_field(bytes, i) {
        Ok(x) => x,
        Err(e) => {
            return Err(e);
        },
    };
    let (addr, i2) = match read_bytes_field(bytes, i1) {
        Ok(x) => x,
        Err(e) => {
            return Err(e);
        },
    };
    let (port, i3) = match read_be_field(bytes, i2, 2) {
        Ok(x) => x,
        Err(e) => {
            return Err(e);
        },
    };
    let (ns, i4) = match read_varint_field(bytes, i3) {
        Ok(x) => x,
        Err(e) => {
            return Err(e);
        },
    };
    if i4 != bytes.len() {
        return Err(ProtocolError::MalformedPacket);
    }
    proof {
        lemma_pow256_values();
    }
    Ok(
        Packet::Handshake {
            protocol_version: pv,
            server_address: addr,
            server_port: port as u16,
            next_state: ns,
        },
    )
}

fn decode_bytes_exact(bytes: &Vec<u8>, i: usize) -> (r: Result<Vec<u8>, ProtocolError>)
    requires
        i <= bytes@.len(),
    ensures
        match r {
            Ok(b) => dec_bytes_exact(bytes@, i as int) == Ok::<Seq<u8>, ProtocolError>(b@),
            Err(e) => dec_bytes_exact(bytes@, i as int) == Err::<Seq<u8>, ProtocolError>(e),
        },
{
    let (b, j) = match read_bytes_field(bytes, i) {
        Ok(x) => x,
        Err(e) => {
            return Err(e);
        },
    };
    if j != bytes.len() {
        return Err(ProtocolError::MalformedPacket);
    }
    Ok(b)
}

fn decode_status_ping_body(bytes: &Vec<u8>, i: usize, dir: Direction) -> (r: Result<
    Packet,
    ProtocolError,
>)
    requires
        i <= bytes@.len(),
    ensures
        decoded_view(r) == dec_status_ping(bytes@, i as int, dir),
{
    let (x, j) = match read_be_field(bytes, i, 8) {
        Ok(x) => x,
        Err(e) => {
            return Err(e);
        },
    };
    if j != bytes.len() {
        return Err(ProtocolError::MalformedPacket);
    }
    proof {
        lemma_pow256_values();
    }
    match dir {
        Direction::Serverbound => Ok(Packet::StatusPing { payload: x as u64 }),
        Direction::Clientbound => Ok(Packet::StatusPong { payload: x as u64 }),
    }
}

fn decode_encryption_response_body(bytes: &Vec<u8>, i: usize) -> (r: Result<Packet, ProtocolError>)
    requires
        i <= bytes@.len(),
    ensures
        decoded_view(r) == dec_encryption_response(bytes@, i as int),
{
    let (secret, i1) = match read_bytes_field(bytes, i) {
        Ok(x) => x,
        Err(e) => {
            return Err(e);
        },
    };
    let (token, i2) = match read_bytes_field(bytes, i1) {
        Ok(x) => x,
        Err(e) => {
            return Err(e);
        },
    };
    if i2 != bytes.len() {
        return Err(ProtocolError::MalformedPacket);
    }
    Ok(Packet::EncryptionResponse { shared_secret: secret, verify_token: token })
}

fn decode_encryption_request_body(bytes: &Vec<u8>, i: usize) -> (r: Result<Packet, ProtocolError>)
    requires
        i <= bytes@.len(),
    ensures
        decoded_view(r) == dec_encryption_request(bytes@, i as int),
{
    let (server_id, i1) = match read_bytes_field(bytes, i) {
        Ok(x) => x,
        Err(e) => {
            return Err(e);
        },
    };
    let (key, i2) = match read_bytes_field(bytes, i1) {
        Ok(x) => x,
        Err(e) => {
            return Err(e);
        },
    };
    let (token, i3) = match read_bytes_field(bytes, i2) {
        Ok(x) => x,
        Err(e) => {
            return Err(e);
        },
    };
    if i3 != bytes.len() {
        return Err(ProtocolError::MalformedPacket);
    }
    Ok(Packet::EncryptionRequest { server_id, public_key: key, verify_token: token })
}

fn decode_login_success_body(bytes: &Vec<u8>, i: usize) -> (r: Result<Packet, ProtocolError>)
    requires
        i <= bytes@.len(),
    ensures
        decoded_view(r) == dec_login_success(bytes@, i as int),
{
    let (uuid, i1) = match read_be_field(bytes, i, 16) {
        Ok(x) => x,
        Err(e) => {
            return Err(e);
        },
    };
    let (name, i2) = match read_bytes_field(bytes, i1) {
        Ok(x) => x,
        Err(e) => {
            return Err(e);
        },
    };
    if i2 != bytes.len() {
        return Err(ProtocolError::MalformedPacket);
    }
    Ok(Packet::LoginSuccess { uuid, username: name })
}

fn decode_set_compression_body(bytes: &Vec<u8>, i: usize) -> (r: Result<Packet, ProtocolError>)
    requires
        i <= bytes@.len(),
    ensures
        decoded_view(r) == dec_set_compression(bytes@, i as int),
{
    let (t, j) = match read_varint_field(bytes, i) {
        Ok(x) => x,
        Err(e) => {
            return Err(e);
        },
    };
    if j != bytes.len() {
        return Err(ProtocolError::MalformedPacket);
    }
    Ok(Packet::SetCompression { threshold: t })
}

fn decode_play_server_chat_body(bytes: &Vec<u8>, i: usize) -> (r: Result<Packet, ProtocolError>)
    requires
        i <= bytes@.len(),
    ensures
        decoded_view(r) == dec_play_server_chat(bytes@, i as int),
{
    let (msg, i1) = match read_bytes_field(bytes, i) {
        Ok(x) => x,
        Err(e) => {
            return Err(e);
        },
    };
    let (position, i2) = match read_be_field(bytes, i1, 1) {
        Ok(x) => x,
        Err(e) => {
            return Err(e);
        },
    };
    let (sender, i3) = match read_be_field(bytes, i2, 16) {
        Ok(x) => x,
        Err(e) => {
            return Err(e);
        },
    };
    if i3 != bytes.len() {
        return Err(ProtocolError::MalformedPacket);
    }
    proof {
        lemma_pow256_values();
    }
    Ok(Packet::PlayServerChatMessage { message: msg, position: position as u8, sender })
}

/// Decodes one packet body under the schema for (state, dir). The first
/// varint is the packet id; the rest decodes per the schema entry.
/// `UnknownPacketId` exactly when no entry exists for (state, dir, id).
pub fn decode_packet(state: ProtocolState, dir: Direction, bytes: &Vec<u8>) -> (r: Result<
    Packet,
    ProtocolError,
>)
    ensures
        decoded_view(r) == decode_packet_spec(state, dir, bytes@),
{
    let (id, i) = match read_varint_field(bytes, 0) {
        Ok(x) => x,
        Err(e) => {
            return Err(e);
        },
    };
    match (state, dir) {
        (ProtocolState::Handshake, Direction::Serverbound) => {
            if id == 0x00 {
                decode_handshake_body(bytes, i)
            } else {
                Err(ProtocolError::UnknownPacketId)
            }
        },
        (ProtocolState::Status, Direction::Serverbound) => {
            if id == 0x00 {
                if i == bytes.len() {
                    Ok(Packet::StatusRequest)
                } else {
                    Err(ProtocolError::MalformedPacket)
                }
            } else if id == 0x01 {
                decode_status_ping_body(bytes, i, dir)
            } else {
                Err(ProtocolError::UnknownPacketId)
            }
        },
        (ProtocolState::Status, Direction::Clientbound) => {
            if id == 0x00 {
                match decode_bytes_exact(bytes, i) {
                    Ok(b) => Ok(Packet::StatusResponse { json: b }),
                    Err(e) => Err(e),
                }
            } else if id == 0x01 {
                decode_status_ping_body(bytes, i, dir)
            } else {
                Err(ProtocolError::UnknownPacketId)
            }
        },
        (ProtocolState::Login, Direction::Serverbound) => {
            if id == 0x00 {
                match decode_bytes_exact(bytes, i) {
                    Ok(b) => Ok(Packet::LoginStart { name: b }),
                    Err(e) => Err(e),
                }
            } else if id == 0x01 {
                decode_encryption_response_body(bytes, i)
            } else {
                Err(ProtocolError::UnknownPacketId)
            }
        },
        (ProtocolState::Login, Direction::Clientbound) => {
            if id == 0x00 {
                match decode_bytes_exact(bytes, i) {
                    Ok(b) => Ok(Packet::LoginDisconnect { reason: b }),
                    Err(e) => Err(e),
                }
            } else if id == 0x01 {
                decode_encryption_request_body(bytes, i)
            } else if id == 0x02 {
                decode_login_success_body(bytes, i)
            } else if id == 0x03 {
                decode_set_compression_body(bytes, i)
            } else {
                Err(ProtocolError::UnknownPacketId)
            }
        },
        (ProtocolState::Play, Direction::Serverbound) => {
            if id == 0x03 {
                match decode_bytes_exact(bytes, i) {
                    Ok(b) => Ok(Packet::PlayClientChatMessage { message: b }),
                    Err(e) => Err(e),
                }
            } else {
                Err(ProtocolError::UnknownPacketId)
            }
        },
        (ProtocolState::Play, Direction::Clientbound) => {
            if id == 0x0E {
                decode_play_server_chat_body(bytes, i)
            } else if id == 0x19 {
                match decode_bytes_exact(bytes, i) {
                    Ok(b) => Ok(Packet::PlayDisconnect { reason: b }),
                    Err(e) => Err(e),
                }
            } else if id == 0x24 {
                let body = copy_range(bytes, i, bytes.len());
                assert(bytes@.subrange(i as int, bytes@.len() as int) =~= bytes@.skip(i as int));
                Ok(Packet::PlayJoinGame { body })
            } else {
                Err(ProtocolError::UnknownPacketId)
            }
        },
        (ProtocolState::Handshake, Direction::Clientbound) => Err(ProtocolError::UnknownPacketId),
    }
}

/// Law: every packet of the schema table round-trips. Decoding the encoding
/// of a well-formed packet, under its own state and direction, yields the
/// packet back.
#[verifier::rlimit(60)]
#[verifier::spinoff_prover]
pub proof fn lemma_packet_round_trip(p: PacketView)
    requires
        wf_packet(p),
    ensures
        decode_packet_spec(packet_state(p), packet_direction(p), encode_packet_bytes(p)) == Ok::<
            PacketView,
            ProtocolError,
        >(p),
{
    let s = encode_packet_bytes(p);
    let id = packet_id(p);
    let body = encode_body(p);
    lemma_varint_bytes_size(id);
    lemma_pow256_values();
    assert(s.skip(0) =~= varint_bytes(id) + body);
    lemma_dec_varint_at(s, 0, id, body);
    let i = varint_size(id);
    let empty = Seq::<u8>::empty();
    match p {
        PacketView::Handshake { protocol_version, server_address, server_port, next_state } => {
            let f2 = bytes_field(server_address);
            let f3 = be_bytes(server_port as int, 2);
            let f4 = varint_bytes(next_state);
            assert(s.skip(i) =~= varint_bytes(protocol_version) + (f2 + (f3 + f4)));
            lemma_dec_varint_at(s, i, protocol_version, f2 + (f3 + f4));
            let i1 = i + varint_size(protocol_version);
            assert(s.skip(i1) =~= f2 + (f3 + f4));
            lemma_dec_bytes_at(s, i1, server_address, f3 + f4);
            let i2 = i1 + f2.len() as int;
            assert(s.skip(i2) =~= f3 + f4);
            lemma_dec_be_at(s, i2, server_port as int, 2, f4);
            let i3 = i2 + 2;
            assert(s.skip(i3) =~= f4 + empty);
            lemma_dec_varint_at(s, i3, next_state, empty);
            assert(i3 + varint_size(next_state) == s.len());
        },
        PacketView::StatusRequest => {
            assert(s.skip(i) =~= empty);
            assert(i == s.len());
        },
        PacketView::StatusPing { payload } => {
            assert(s.skip(i) =~= be_bytes(payload as int, 8) + empty);
            lemma_dec_be_at(s, i, payload as int, 8, empty);
            assert(i + 8 == s.len());
        },
        PacketView::StatusResponse { json } => {
            assert(s.skip(i) =~= bytes_field(json) + empty);
            lemma_dec_bytes_at(s, i, json, empty);
            assert(i + bytes_field(json).len() == s.len());
        },
        PacketView::StatusPong { payload } => {
            assert(s.skip(i) =~= be_bytes(payload as int, 8) + empty);
            lemma_dec_be_at(s, i, payload as int, 8, empty);
            assert(i + 8 == s.len());
        },
        PacketView::LoginStart { name } => {
            assert(s.skip(i) =~= bytes_field(name) + empty);
            lemma_dec_bytes_at(s, i, name, empty);
            assert(i + bytes_field(name).len() == s.len());
        },
        PacketView::EncryptionResponse { shared_secret, verify_token } => {
            let f2 = bytes_field(verify_token);
            assert(s.skip(i) =~= bytes_field(shared_secret) + f2);
            lemma_dec_bytes_at(s, i, shared_secret, f2);
            let i1 = i + bytes_field(shared_secret).len() as int;
            assert(s.skip(i1) =~= f2 + empty);
            lemma_dec_bytes_at(s, i1, verify_token, empty);
            assert(i1 + f2.len() == s.len());
        },
        PacketView::LoginDisconnect { reason } => {
            assert(s.skip(i) =~= bytes_field(reason) + empty);
            lemma_dec_bytes_at(s, i, reason, empty);
            assert(i + bytes_field(reason).len() == s.len());
        },
        PacketView::EncryptionRequest { server_id, public_key, verify_token } => {
            let f2 = bytes_field(public_key);
            let f3 = bytes_field(verify_token);
            assert(s.skip(i) =~= bytes_field(server_id) + (f2 + f3));
            lemma_dec_bytes_at(s, i, server_id, f2 + f3);
            let i1 = i + bytes_field(server_id).len() as int;
            assert(s.skip(i1) =~= f2 + f3);
            lemma_dec_bytes_at(s, i1, public_key, f3);
            let i2 = i1 + f2.len() as int;
            assert(s.skip(i2) =~= f3 + empty);
            lemma_dec_bytes_at(s, i2, verify_token, empty);
            assert(i2 + f3.len() == s.len());
        },
        PacketView::LoginSuccess { uuid, username } => {
            let f2 = bytes_field(username);
            assert(s.skip(i) =~= be_bytes(uuid as int, 16) + f2);
            lemma_dec_be_at(s, i, uuid as int, 16, f2);
            let i1 = i + 16;
            assert(s.skip(i1) =~= f2 + empty);
            lemma_dec_bytes_at(s, i1, username, empty);
            assert(i1 + f2.len() == s.len());
        },
        PacketView::SetCompression { threshold } => {
            assert(s.skip(i) =~= varint_bytes(threshold) + empty);
            lemma_dec_varint_at(s, i, threshold, empty);
            assert(i + varint_size(threshold) == s.len());
        },
        PacketView::PlayClientChatMessage { message } => {
            assert(s.skip(i) =~= bytes_field(message) + empty);
            lemma_dec_bytes_at(s, i, message, empty);
            assert(i + bytes_field(message).len() == s.len());
        },
        PacketView::PlayServerChatMessage { message, position, sender } => {
            let f2 = be_bytes(position as int, 1);
            let f3 = be_bytes(sender as int, 16);
            assert(s.skip(i) =~= bytes_field(message) + (f2 + f3));
            lemma_dec_bytes_at(s, i, message, f2 + f3);
            let i1 = i + bytes_field(message).len() as int;
            assert(s.skip(i1) =~= f2 + f3);
            lemma_dec_be_at(s, i1, position as int, 1, f3);
            let i2 = i1 + 1;
            assert(s.skip(i2) =~= f3 + empty);
            lemma_dec_be_at(s, i2, sender as int, 16, empty);
            assert(i2 + 16 == s.len());
        },
        PacketView::PlayDisconnect { reason } => {
            assert(s.skip(i) =~= bytes_field(reason) + empty);
            lemma_dec_bytes_at(s, i, reason, empty);
            assert(i + bytes_field(reason).len() == s.len());
        },
        PacketView::PlayJoinGame { body } => {
            assert(s.skip(i) == body);
        },
    }
}

} // verus!
