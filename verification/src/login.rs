//! The login negotiation, as decisions from state and event to next state
//! and output. The caller runs the I/O around it: it writes the bytes these
//! functions produce, performs the private-key decryption of the client's
//! encryption response, and asks the external authentication service for its
//! verdict; each result comes back here as a plain value, and every decision
//! taken on it is verified.

use vstd::prelude::*;
use crate::error::ProtocolError;
use crate::cipher::{cfb8_encrypt_seq, cfb8_shift, lemma_cfb8_encrypt_append, lemma_cfb8_shift_append};
use crate::frame::MAX_FRAME_LEN;
use crate::packet::{encode_packet_bytes, wf_packet, Packet, PacketView, ProtocolState};
use crate::registry::{contains_name, contains_uuid, registry_wf, EntryView, SessionRegistry};
use crate::session::{body_for, plain_frame_for, Session};
use crate::varint::lemma_varint_bytes_size;
use crate::wire::{bytes_eq, copy_range, push_bytes};

verus! {

/// Relies on rand::random::<[u8; 16]>: 16 bytes from the thread-local
/// generator. Nothing is promised of their values.
#[verifier::external_body]
fn random_bytes16() -> (r: Vec<u8>)
    ensures
        r@.len() == 16,
{
    rand::random::<[u8; 16]>().to_vec()
}

/// Relies on rand::random::<u128>: a random value; nothing is promised of it.
#[verifier::external_body]
fn random_u128() -> (r: u128)
{
    rand::random::<u128>()
}

/// What the first login step decided.
pub enum StartOutcome {
    /// Authentication is disabled: this identity is assigned outright.
    Offline { name: Vec<u8>, uuid: u128 },
    /// Authentication is enabled: send `request` and await the encryption
    /// response, whose decrypted verify token must equal `expect_token`.
    Online { request: Packet, expect_token: Vec<u8>, name: Vec<u8> },
}

/// Step one of a login: the packet after the handshake must be `LoginStart`,
/// anything else is a `ProtocolViolation`. Offline (authentication
/// disabled), the requested name is bound to a freshly generated UUID.
/// Online, an encryption request goes out, carrying a random 16-byte verify
/// token that the response must echo.
pub fn handle_login_start(online: bool, p: &Packet) -> (r: Result<StartOutcome, ProtocolError>)
    ensures
        match r {
            Ok(o) => p@ matches PacketView::LoginStart { name: n } && (match o {
                StartOutcome::Offline { name, uuid } => !online && name@ == n,
                StartOutcome::Online { request, expect_token, name } => {
                    &&& online
                    &&& name@ == n
                    &&& expect_token@.len() == 16
                    &&& wf_packet(request@)
                    &&& (request@ matches PacketView::EncryptionRequest {
                        server_id,
                        public_key,
                        verify_token,
                    } && verify_token == expect_token@ && public_key.len() == 16)
                },
            }),
            Err(e) => e == ProtocolError::ProtocolViolation && !(p@ is LoginStart),
        },
        r is Ok ==> ((r->Ok_0 is Offline) <==> !online),
{
    let name = match p {
        Packet::LoginStart { name } => copy_range(name, 0, name.len()),
        _ => {
            return Err(ProtocolError::ProtocolViolation);
        },
    };
    proof {
        assert(p@->LoginStart_name =~= name@);
    }
    if !online {
        let uuid = random_u128();
        Ok(StartOutcome::Offline { name, uuid })
    } else {
        let public_key = random_bytes16();
        let verify_token = random_bytes16();
        let expect_token = copy_range(&verify_token, 0, verify_token.len());
        proof {
            assert(expect_token@ =~= verify_token@);
        }
        let server_id = random_bytes16();
        let request = Packet::EncryptionRequest { server_id, public_key, verify_token };
        Ok(StartOutcome::Online { request, expect_token, name })
    }
}

/// Step two, online only: the reply to the encryption request must be an
/// `EncryptionResponse`; anything else is a `ProtocolViolation`. Yields the
/// two encrypted fields for the caller to decrypt with the server's private
/// key.
pub fn expect_encryption_response(p: &Packet) -> (r: Result<(Vec<u8>, Vec<u8>), ProtocolError>)
    ensures
        match r {
            Ok((secret, token)) => p@ matches PacketView::EncryptionResponse {
                shared_secret,
                verify_token,
            } && secret@ == shared_secret && token@ == verify_token,
            Err(e) => e == ProtocolError::ProtocolViolation && !(p@ is EncryptionResponse),
        },
{
    match p {
        Packet::EncryptionResponse { shared_secret, verify_token } => {
            let s = copy_range(shared_secret, 0, shared_secret.len());
            let t = copy_range(verify_token, 0, verify_token.len());
            proof {
                assert(s@ =~= p@->EncryptionResponse_shared_secret);
                assert(t@ =~= p@->EncryptionResponse_verify_token);
            }
            Ok((s, t))
        },
        _ => Err(ProtocolError::ProtocolViolation),
    }
}

/// Step two's check: the decrypted verify token must equal the one sent;
/// `VerifyTokenMismatch` aborts the login, and nothing is registered.
pub fn check_verify_token(expected: &Vec<u8>, received: &Vec<u8>) -> (r: Result<(), ProtocolError>)
    ensures
        r is Ok <==> expected@ == received@,
        r is Err ==> r == Err::<(), ProtocolError>(ProtocolError::VerifyTokenMismatch),
{
    if bytes_eq(expected, received) {
        Ok(())
    } else {
        Err(ProtocolError::VerifyTokenMismatch)
    }
}

/// Step three, online only: the external authentication service's verdict.
/// A confirmed name and UUID pass through; a refusal is an `AuthFailure`,
/// and nothing is registered.
pub fn handle_auth_result(verdict: Option<(Vec<u8>, u128)>) -> (r: Result<
    (Vec<u8>, u128),
    ProtocolError,
>)
    ensures
        match r {
            Ok(ok) => verdict == Some(ok),
            Err(e) => e == ProtocolError::AuthFailure && verdict is None,
        },
{
    match verdict {
        Some(x) => Ok(x),
        None => Err(ProtocolError::AuthFailure),
    }
}

/// The packet that configures the peer's compression threshold.
pub open spec fn setcomp_pkt(t: u32) -> PacketView {
    PacketView::SetCompression { threshold: t }
}

/// The packet that concludes a successful login.
pub open spec fn success_pkt(uuid: u128, name: Seq<u8>) -> PacketView {
    PacketView::LoginSuccess { uuid, username: name }
}

/// Builds the kick notification for a rejected login.
pub fn login_kick(reason: Vec<u8>) -> (r: Packet)
    ensures
        r@ == (PacketView::LoginDisconnect { reason: reason@ }),
        reason@.len() < 0x1_0000_0000 ==> wf_packet(r@),
{
    Packet::LoginDisconnect { reason }
}

/// Steps four and five of a login: register the identity, then produce the
/// exact bytes that carry the optional `SetCompression` (sent uncompressed,
/// strictly before `LoginSuccess`; compression takes effect right after it)
/// and the `LoginSuccess`, and promote the session to `Play`.
/// `DuplicateIdentity`, with nothing registered, nothing sent and the
/// session left out of `Play`, exactly when the name or UUID is already
/// registered — the caller then sends a kick instead.
pub fn finish_login(
    session: &mut Session,
    registry: &mut SessionRegistry,
    name: Vec<u8>,
    uuid: u128,
    entity_id: i32,
    threshold: Option<u32>,
) -> (r: Result<Vec<u8>, ProtocolError>)
    requires
        old(session).wf(),
        old(session).compression_spec() is None,
        registry_wf(old(registry)@),
        name@.len() < 0x1_0000_0000,
    ensures
        final(session).wf(),
        registry_wf(final(registry)@),
        final(session).encrypted() == old(session).encrypted(),
        final(session).write_key() == old(session).write_key(),
        final(session).read_key() == old(session).read_key(),
        final(session).read_reg() == old(session).read_reg(),
        ({
            let dup = contains_name(old(registry)@, name@) || contains_uuid(old(registry)@, uuid);
            let spkt = success_pkt(uuid, name@);
            let too_large = encode_packet_bytes(spkt).len() >= 0x1_0000_0000 || body_for(
                spkt,
                threshold,
            ).len() > MAX_FRAME_LEN;
            if dup {
                &&& r == Err::<Vec<u8>, ProtocolError>(ProtocolError::DuplicateIdentity)
                &&& final(registry)@ == old(registry)@
                &&& final(session).state_spec() == old(session).state_spec()
                &&& final(session).compression_spec() == old(session).compression_spec()
                &&& final(session).write_reg() == old(session).write_reg()
            } else if too_large {
                &&& r == Err::<Vec<u8>, ProtocolError>(ProtocolError::FrameTooLarge)
                &&& final(registry)@ == old(registry)@
                &&& final(session).state_spec() == old(session).state_spec()
                &&& final(session).compression_spec() == threshold
            } else {
                &&& final(registry)@ == old(registry)@.push(
                    EntryView { name: name@, uuid, entity_id },
                )
                &&& final(session).state_spec() == ProtocolState::Play
                &&& final(session).compression_spec() == threshold
                &&& (r matches Ok(bytes) && ({
                    let frames = match threshold {
                        None => plain_frame_for(spkt, None),
                        Some(t) => plain_frame_for(setcomp_pkt(t), None) + plain_frame_for(
                            spkt,
                            Some(t),
                        ),
                    };
                    if old(session).encrypted() {
                        bytes@ == cfb8_encrypt_seq(
                            old(session).write_key(),
                            old(session).write_reg(),
                            frames,
                        ) && final(session).write_reg() == cfb8_shift(
                            old(session).write_reg(),
                            bytes@,
                        )
                    } else {
                        bytes@ == frames && final(session).write_reg() == old(session).write_reg()
                    }
                }))
            }
        }),
{
    if registry.is_duplicate(&name, uuid) {
        return Err(ProtocolError::DuplicateIdentity);
    }
    let ghost key0 = session.write_key();
    let ghost reg0 = session.write_reg();
    let mut out: Vec<u8> = Vec::new();
    let ghost spkt = success_pkt(uuid, name@);
    match threshold {
        Some(t) => {
            let pkt = Packet::SetCompression { threshold: t };
            proof {
                lemma_varint_bytes_size(3);
                lemma_varint_bytes_size(t);
            }
            let b1 = match session.write_packet(&pkt) {
                Ok(b) => b,
                Err(e) => {
                    assert(false);
                    return Err(e);
                },
            };
            push_bytes(&mut out, &b1);
            session.set_compression_threshold(t);
        },
        None => {},
    }
    let username = copy_range(&name, 0, name.len());
    proof {
        assert(username@ =~= name@);
    }
    let success = Packet::LoginSuccess { uuid, username };
    let b2 = match session.write_packet(&success) {
        Ok(b) => b,
        Err(e) => {
            return Err(e);
        },
    };
    let ghost c1 = out@;
    push_bytes(&mut out, &b2);
    session.set_state(ProtocolState::Play);
    let r = registry.insert(name, uuid, entity_id);
    match r {
        Ok(()) => {
            proof {
                if old(session).encrypted() {
                    match threshold {
                        Some(t) => {
                            let f1 = plain_frame_for(setcomp_pkt(t), None);
                            let f2 = plain_frame_for(spkt, Some(t));
                            lemma_cfb8_encrypt_append(key0, reg0, f1, f2);
                            lemma_cfb8_shift_append(reg0, c1, b2@);
                            assert(out@ =~= c1 + b2@);
                            assert(out@ =~= cfb8_encrypt_seq(key0, reg0, f1 + f2));
                        },
                        None => {
                            assert(out@ =~= b2@);
                        },
                    }
                } else {
                    match threshold {
                        Some(t) => {
                            assert(out@ =~= plain_frame_for(setcomp_pkt(t), None)
                                + plain_frame_for(spkt, Some(t)));
                        },
                        None => {
                            assert(out@ =~= plain_frame_for(spkt, None));
                        },
                    }
                }
            }
            Ok(out)
        },
        Err(e) => {
            assert(false);
            Err(e)
        },
    }
}

} // verus!
