//! One connection's server-side state: the current protocol state and the
//! codec configuration (compression threshold and cipher, each set at most
//! once and never unset). The write path turns a packet into the exact bytes
//! to put on the socket; the read path turns received bytes into packets.
//! Socket I/O itself stays outside the library; callers feed bytes in and
//! carry bytes out.

use vstd::prelude::*;
use crate::cipher::{cfb8_decrypt_seq, cfb8_encrypt_seq, cfb8_shift, StreamCipher};
use crate::compress::{compress_body, compressed_body, decompress_body, decompressed_body};
use crate::error::ProtocolError;
use crate::frame::{encode_frame, frame_bytes, parse_frame, parse_frame_spec, MAX_FRAME_LEN};
use crate::packet::{
    decode_packet,
    decode_packet_spec,
    encode_packet,
    encode_packet_bytes,
    packet_direction,
    packet_state,
    wf_packet,
    Direction,
    Packet,
    PacketView,
    ProtocolState,
};
use crate::wire::copy_range;

verus! {

/// The frame body that carries `p` under the given compression
/// configuration.
pub open spec fn body_for(p: PacketView, compression: Option<u32>) -> Seq<u8> {
    match compression {
        None => encode_packet_bytes(p),
        Some(t) => compressed_body(encode_packet_bytes(p), t),
    }
}

/// The whole plaintext frame that carries `p`: length prefix and body.
pub open spec fn plain_frame_for(p: PacketView, compression: Option<u32>) -> Seq<u8> {
    frame_bytes(body_for(p, compression))
}

/// What decoding a received frame body yields under this state and
/// compression configuration.
pub open spec fn inbound_spec(
    state: ProtocolState,
    compression: Option<u32>,
    body: Seq<u8>,
) -> Result<PacketView, ProtocolError> {
    let plain = match compression {
        None => Ok(body),
        Some(_) => decompressed_body(body),
    };
    match plain {
        Err(e) => Err(e),
        Ok(pb) => decode_packet_spec(state, Direction::Serverbound, pb),
    }
}

/// One step of the read loop on a receive buffer: the next packet and the
/// bytes its frame consumed, nothing if no whole frame has arrived yet, or
/// the error that terminates the session.
pub open spec fn read_step_spec(
    state: ProtocolState,
    compression: Option<u32>,
    s: Seq<u8>,
) -> Result<Option<(PacketView, int)>, ProtocolError> {
    match parse_frame_spec(s) {
        Err(e) => Err(e),
        Ok(None) => Ok(None),
        Ok(Some((body, c))) => match inbound_spec(state, compression, body) {
            Ok(pv) => Ok(Some((pv, c))),
            Err(e) => Err(e),
        },
    }
}

/// A server-side connection: protocol state plus codec configuration.
/// State transitions are one-directional; the compression threshold and the
/// cipher pair are each set at most once, and nothing here can unset them.
pub struct Session {
    state: ProtocolState,
    compression: Option<u32>,
    read_cipher: Option<StreamCipher>,
    write_cipher: Option<StreamCipher>,
}

impl Session {
    /// Any cipher present is well formed.
    pub closed spec fn wf(&self) -> bool {
        &&& (self.read_cipher matches Some(c) ==> c.wf())
        &&& (self.write_cipher matches Some(c) ==> c.wf())
        &&& (self.read_cipher is Some <==> self.write_cipher is Some)
    }

    pub closed spec fn state_spec(&self) -> ProtocolState {
        self.state
    }

    pub closed spec fn compression_spec(&self) -> Option<u32> {
        self.compression
    }

    /// Whether the cipher pair has been enabled.
    pub closed spec fn encrypted(&self) -> bool {
        self.write_cipher is Some
    }

    pub closed spec fn write_key(&self) -> Seq<u8> {
        match self.write_cipher {
            Some(c) => c.key_spec(),
            None => Seq::empty(),
        }
    }

    pub closed spec fn write_reg(&self) -> Seq<u8> {
        match self.write_cipher {
            Some(c) => c.reg_spec(),
            None => Seq::empty(),
        }
    }

    pub closed spec fn read_key(&self) -> Seq<u8> {
        match self.read_cipher {
            Some(c) => c.key_spec(),
            None => Seq::empty(),
        }
    }

    pub closed spec fn read_reg(&self) -> Seq<u8> {
        match self.read_cipher {
            Some(c) => c.reg_spec(),
            None => Seq::empty(),
        }
    }

    /// A fresh session: `Handshake` state, no compression, no cipher.
    pub fn new() -> (r: Session)
        ensures
            r.wf(),
            r.state_spec() == ProtocolState::Handshake,
            r.compression_spec() is None,
            !r.encrypted(),
    {
        Session { state: ProtocolState::Handshake, compression: None, read_cipher: None, write_cipher: None }
    }

    /// Moves the session forward to `state`: transitions are monotonic and
    /// one-directional, so a session never falls back toward `Handshake`.
    /// Codec configuration is untouched.
    pub fn set_state(&mut self, state: ProtocolState)
        requires
            old(self).wf(),
            state_rank(old(self).state_spec()) <= state_rank(state),
        ensures
            final(self).wf(),
            final(self).state_spec() == state,
            final(self).compression_spec() == old(self).compression_spec(),
            final(self).encrypted() == old(self).encrypted(),
            final(self).write_key() == old(self).write_key(),
            final(self).write_reg() == old(self).write_reg(),
            final(self).read_key() == old(self).read_key(),
            final(self).read_reg() == old(self).read_reg(),
    {
        self.state = state;
    }

    /// Handles the handshake packet of a fresh session: a "next state" of 1
    /// moves to `Status`, 2 to `Login`. Anything else — any other packet
    /// type, or another next-state value — is a `ProtocolViolation` and
    /// leaves the session unchanged.
    pub fn handshake(&mut self, p: &Packet) -> (r: Result<ProtocolState, ProtocolError>)
        requires
            old(self).wf(),
            old(self).state_spec() == ProtocolState::Handshake,
        ensures
            final(self).wf(),
            final(self).compression_spec() == old(self).compression_spec(),
            final(self).encrypted() == old(self).encrypted(),
            final(self).write_key() == old(self).write_key(),
            final(self).write_reg() == old(self).write_reg(),
            final(self).read_key() == old(self).read_key(),
            final(self).read_reg() == old(self).read_reg(),
            match r {
                Ok(s) => {
                    &&& final(self).state_spec() == s
                    &&& (p@ matches PacketView::Handshake { next_state, .. } && (next_state == 1
                        || next_state == 2))
                    &&& (p@ matches PacketView::Handshake { next_state, .. } ==> s == (
                    if next_state == 1 {
                        ProtocolState::Status
                    } else {
                        ProtocolState::Login
                    }))
                },
                Err(e) => {
                    &&& e == ProtocolError::ProtocolViolation
                    &&& final(self).state_spec() == old(self).state_spec()
                    &&& !(p@ matches PacketView::Handshake { next_state, .. } && (next_state == 1
                        || next_state == 2))
                },
            },
    {
        match p {
            Packet::Handshake { next_state, .. } => {
                if *next_state == 1 {
                    self.state = ProtocolState::Status;
                    Ok(ProtocolState::Status)
                } else if *next_state == 2 {
                    self.state = ProtocolState::Login;
                    Ok(ProtocolState::Login)
                } else {
                    Err(ProtocolError::ProtocolViolation)
                }
            },
            _ => Err(ProtocolError::ProtocolViolation),
        }
    }

    /// Configures the compression threshold, once. Frames written or read
    /// after this carry the compression layer.
    pub fn set_compression_threshold(&mut self, threshold: u32)
        requires
            old(self).wf(),
            old(self).compression_spec() is None,
        ensures
            final(self).wf(),
            final(self).compression_spec() == Some(threshold),
            final(self).state_spec() == old(self).state_spec(),
            final(self).encrypted() == old(self).encrypted(),
            final(self).write_key() == old(self).write_key(),
            final(self).write_reg() == old(self).write_reg(),
            final(self).read_key() == old(self).read_key(),
            final(self).read_reg() == old(self).read_reg(),
    {
        self.compression = Some(threshold);
    }

    /// Enables the cipher pair, once, on both directions; every byte
    /// written or read from here on passes through it, and nothing can
    /// disable it again.
    pub fn enable_encryption(&mut self, key: &Vec<u8>, iv: &Vec<u8>)
        requires
            old(self).wf(),
            !old(self).encrypted(),
            key@.len() == 16,
            iv@.len() == 16,
        ensures
            final(self).wf(),
            final(self).encrypted(),
            final(self).write_key() == key@,
            final(self).write_reg() == iv@,
            final(self).read_key() == key@,
            final(self).read_reg() == iv@,
            final(self).state_spec() == old(self).state_spec(),
            final(self).compression_spec() == old(self).compression_spec(),
    {
        let rk = copy_range(key, 0, key.len());
        let riv = copy_range(iv, 0, iv.len());
        let wk = copy_range(key, 0, key.len());
        let wiv = copy_range(iv, 0, iv.len());
        proof {
            assert(key@.subrange(0, key@.len() as int) =~= key@);
            assert(iv@.subrange(0, iv@.len() as int) =~= iv@);
        }
        self.read_cipher = Some(StreamCipher::new(rk, riv));
        self.write_cipher = Some(StreamCipher::new(wk, wiv));
    }

    /// Whether `p` is acceptable input in the current state: a serverbound
    /// packet of this state's schema. Anything else is a
    /// `ProtocolViolation`, on which the caller terminates the session.
    pub fn check_inbound(&self, p: &Packet) -> (r: Result<(), ProtocolError>)
        ensures
            r == accept_spec(self.state_spec(), p@),
    {
        let st = p.state_of();
        let dir = p.direction_of();
        if st == self.state && dir == Direction::Serverbound {
            Ok(())
        } else {
            Err(ProtocolError::ProtocolViolation)
        }
    }

    /// Builds the exact bytes that carry `p` to the peer: encode, apply the
    /// compression layer if configured, frame, and encrypt if the cipher is
    /// enabled. Fails only with `FrameTooLarge`, exactly when the frame
    /// body would exceed `MAX_FRAME_LEN` (or its length could not be
    /// expressed at all).
    pub fn write_packet(&mut self, p: &Packet) -> (r: Result<Vec<u8>, ProtocolError>)
        requires
            old(self).wf(),
            wf_packet(p@),
        ensures
            final(self).wf(),
            final(self).state_spec() == old(self).state_spec(),
            final(self).compression_spec() == old(self).compression_spec(),
            final(self).encrypted() == old(self).encrypted(),
            final(self).write_key() == old(self).write_key(),
            final(self).read_key() == old(self).read_key(),
            final(self).read_reg() == old(self).read_reg(),
            ({
                let raw = encode_packet_bytes(p@);
                let body = body_for(p@, old(self).compression_spec());
                if raw.len() >= 0x1_0000_0000 || body.len() > MAX_FRAME_LEN {
                    r == Err::<Vec<u8>, ProtocolError>(ProtocolError::FrameTooLarge)
                        && final(self).write_reg() == old(self).write_reg()
                } else {
                    r matches Ok(bytes) && (if old(self).encrypted() {
                        bytes@ == cfb8_encrypt_seq(
                            old(self).write_key(),
                            old(self).write_reg(),
                            plain_frame_for(p@, old(self).compression_spec()),
                        ) && final(self).write_reg() == cfb8_shift(old(self).write_reg(), bytes@)
                    } else {
                        bytes@ == plain_frame_for(p@, old(self).compression_spec())
                            && final(self).write_reg() == old(self).write_reg()
                    })
                }
            }),
    {
        let raw = encode_packet(p);
        if raw.len() as u64 >= 0x1_0000_0000u64 {
            return Err(ProtocolError::FrameTooLarge);
        }
        let body = match self.compression {
            None => raw,
            Some(t) => compress_body(&raw, t),
        };
        if body.len() > MAX_FRAME_LEN as usize {
            return Err(ProtocolError::FrameTooLarge);
        }
        let framed = encode_frame(&body);
        match &mut self.write_cipher {
            Some(c) => Ok(c.encrypt(&framed)),
            None => Ok(framed),
        }
    }

    /// Passes received socket bytes through the read cipher, if one is
    /// enabled; the result is what the framing layer parses.
    pub fn decrypt_inbound(&mut self, raw: &Vec<u8>) -> (r: Vec<u8>)
        requires
            old(self).wf(),
        ensures
            final(self).wf(),
            final(self).state_spec() == old(self).state_spec(),
            final(self).compression_spec() == old(self).compression_spec(),
            final(self).encrypted() == old(self).encrypted(),
            final(self).write_key() == old(self).write_key(),
            final(self).write_reg() == old(self).write_reg(),
            final(self).read_key() == old(self).read_key(),
            if old(self).encrypted() {
                r@ == cfb8_decrypt_seq(old(self).read_key(), old(self).read_reg(), raw@)
                    && final(self).read_reg() == cfb8_shift(old(self).read_reg(), raw@)
            } else {
                r@ == raw@ && final(self).read_reg() == old(self).read_reg()
            },
    {
        match &mut self.read_cipher {
            Some(c) => c.decrypt(raw),
            None => {
                let out = copy_range(raw, 0, raw.len());
                proof {
                    assert(raw@.subrange(0, raw@.len() as int) =~= raw@);
                }
                out
            },
        }
    }

    /// Reads the next packet out of the receive buffer of decrypted bytes:
    /// parses one frame, strips the compression layer if configured, and
    /// decodes under the current state. On success the frame's bytes are
    /// consumed from the buffer; `Ok(None)` leaves it untouched and means
    /// more input is needed; on an error the buffer is untouched and the
    /// session is to be terminated.
    pub fn read_next_packet(&self, buf: &mut Vec<u8>) -> (r: Result<Option<Packet>, ProtocolError>)
        ensures
            match r {
                Ok(Some(p)) => {
                    &&& read_step_spec(self.state_spec(), self.compression_spec(), old(buf)@)
                        matches Ok(o) && o matches Some((pv, c)) && p@ == pv && final(buf)@ == old(
                        buf,
                    )@.skip(c)
                },
                Ok(None) => {
                    &&& read_step_spec(self.state_spec(), self.compression_spec(), old(buf)@)
                        == Ok::<Option<(PacketView, int)>, ProtocolError>(None)
                    &&& final(buf)@ == old(buf)@
                },
                Err(e) => {
                    &&& read_step_spec(self.state_spec(), self.compression_spec(), old(buf)@)
                        == Err::<Option<(PacketView, int)>, ProtocolError>(e)
                    &&& final(buf)@ == old(buf)@
                },
            },
    {
        let (body, consumed) = match parse_frame(buf) {
            Ok(Some(x)) => x,
            Ok(None) => {
                return Ok(None);
            },
            Err(e) => {
                return Err(e);
            },
        };
        let plain = match self.compression {
            None => body,
            Some(_) => match decompress_body(&body) {
                Ok(d) => d,
                Err(e) => {
                    return Err(e);
                },
            },
        };
        let packet = match decode_packet(self.state, Direction::Serverbound, &plain) {
            Ok(p) => p,
            Err(e) => {
                return Err(e);
            },
        };
        let rest = copy_range(buf, consumed, buf.len());
        *buf = rest;
        Ok(Some(packet))
    }
}

/// Law: the read path inverts the write path. A receive buffer that starts
/// with the plaintext frame for a serverbound packet of the session's own
/// state, with no compression layer configured, reads back as exactly that
/// packet, consuming exactly the frame's bytes.
pub proof fn lemma_read_step_round_trip(p: PacketView, rest: Seq<u8>)
    requires
        wf_packet(p),
        packet_direction(p) == Direction::Serverbound,
        encode_packet_bytes(p).len() <= MAX_FRAME_LEN,
    ensures
        read_step_spec(packet_state(p), None, plain_frame_for(p, None) + rest) == Ok::<
            Option<(PacketView, int)>,
            ProtocolError,
        >(Some((p, frame_bytes(encode_packet_bytes(p)).len() as int))),
{
    crate::frame::lemma_frame_round_trip(encode_packet_bytes(p), rest);
    crate::packet::lemma_packet_round_trip(p);
}

/// The state a handshake packet's "next state" field selects.
#[derive(Clone, Copy, Debug, PartialEq, Eq, Structural)]
pub enum HandshakeNextState {
    Status,
    Login,
}

/// The protocol state a handshake's next-state choice moves the session to.
pub fn convert(handshake: HandshakeNextState) -> (r: ProtocolState)
    ensures
        r == (match handshake {
            HandshakeNextState::Status => ProtocolState::Status,
            HandshakeNextState::Login => ProtocolState::Login,
        }),
{
    match handshake {
        HandshakeNextState::Status => ProtocolState::Status,
        HandshakeNextState::Login => ProtocolState::Login,
    }
}

/// Where a state stands in the one-directional progression: the handshake
/// first, then the status or login sub-protocol, then play.
pub open spec fn state_rank(s: ProtocolState) -> int {
    match s {
        ProtocolState::Handshake => 0,
        ProtocolState::Status => 1,
        ProtocolState::Login => 1,
        ProtocolState::Play => 2,
    }
}

/// Whether a packet is valid input for a session in `state`: it must be a
/// serverbound packet of that state's schema; anything else is a
/// `ProtocolViolation`.
pub open spec fn accept_spec(state: ProtocolState, p: PacketView) -> Result<(), ProtocolError> {
    if packet_state(p) == state && packet_direction(p) == Direction::Serverbound {
        Ok(())
    } else {
        Err(ProtocolError::ProtocolViolation)
    }
}

/// Law: any Login-state packet offered to a session sitting in `Status` is a
/// `ProtocolViolation` — every login packet type, without exception.
pub proof fn lemma_login_packet_in_status_is_violation(p: PacketView)
    requires
        packet_state(p) == ProtocolState::Login,
    ensures
        accept_spec(ProtocolState::Status, p) == Err::<(), ProtocolError>(
            ProtocolError::ProtocolViolation,
        ),
{
}

} // verus!
