use endstone::dispatcher::{PacketBox, Server, ServerSettings};
use endstone::dispatcher::tick_sleep_budget;
use endstone::error::ProtocolError;
use endstone::frame::parse_frame;
use endstone::login::{
    check_verify_token,
    expect_encryption_response,
    finish_login,
    handle_auth_result,
    handle_login_start,
    login_kick,
    StartOutcome,
};
use endstone::packet::{decode_packet, Direction, Packet, ProtocolState};
use endstone::player::{Player, PlayerInventory, ServerClient, ServerStatus};
use endstone::registry::SessionRegistry;
use endstone::session::{convert, HandshakeNextState, Session};

#[test]
fn offline_login_start_assigns_the_requested_name() {
    let p = Packet::LoginStart { name: b"Steve".to_vec() };
    match handle_login_start(false, &p).unwrap() {
        StartOutcome::Offline { name, uuid: _ } => assert_eq!(name, b"Steve".to_vec()),
        StartOutcome::Online { .. } => panic!("offline mode must not negotiate encryption"),
    }
}

#[test]
fn online_login_start_requests_encryption() {
    let p = Packet::LoginStart { name: b"Alex".to_vec() };
    match handle_login_start(true, &p).unwrap() {
        StartOutcome::Online { request, expect_token, name } => {
            assert_eq!(name, b"Alex".to_vec());
            assert_eq!(expect_token.len(), 16);
            match request {
                Packet::EncryptionRequest { public_key, verify_token, .. } => {
                    assert_eq!(public_key.len(), 16);
                    assert_eq!(verify_token, expect_token);
                },
                _ => panic!("expected an encryption request"),
            }
        },
        StartOutcome::Offline { .. } => panic!("online mode must negotiate encryption"),
    }
}

#[test]
fn login_must_start_with_login_start() {
    let r = handle_login_start(false, &Packet::StatusRequest);
    assert_eq!(r.err(), Some(ProtocolError::ProtocolViolation));
}

#[test]
fn encryption_response_fields_are_extracted() {
    let p = Packet::EncryptionResponse { shared_secret: vec![3; 16], verify_token: vec![4; 16] };
    let (secret, token) = expect_encryption_response(&p).unwrap();
    assert_eq!(secret, vec![3; 16]);
    assert_eq!(token, vec![4; 16]);
    assert_eq!(
        expect_encryption_response(&Packet::StatusRequest).err(),
        Some(ProtocolError::ProtocolViolation)
    );
}

#[test]
fn verify_token_mismatch_aborts() {
    assert_eq!(check_verify_token(&vec![1, 2, 3], &vec![1, 2, 3]), Ok(()));
    assert_eq!(
        check_verify_token(&vec![1, 2, 3], &vec![1, 2, 4]),
        Err(ProtocolError::VerifyTokenMismatch)
    );
}

#[test]
fn auth_refusal_is_an_auth_failure() {
    assert_eq!(handle_auth_result(None).err(), Some(ProtocolError::AuthFailure));
    let ok = handle_auth_result(Some((b"Steve".to_vec(), 77))).unwrap();
    assert_eq!(ok, (b"Steve".to_vec(), 77));
}

#[test]
fn offline_login_steve_reaches_play_with_login_success() {
    // With authentication disabled, LoginStart{"Steve"} immediately yields
    // LoginSuccess{"Steve", <assigned uuid>} and a session in Play.
    let p = Packet::LoginStart { name: b"Steve".to_vec() };
    let (name, uuid) = match handle_login_start(false, &p).unwrap() {
        StartOutcome::Offline { name, uuid } => (name, uuid),
        StartOutcome::Online { .. } => panic!("offline mode must not negotiate encryption"),
    };
    let mut session = Session::new();
    session.set_state(ProtocolState::Login);
    let mut registry = SessionRegistry::new();
    let bytes = finish_login(&mut session, &mut registry, name, uuid, 1, None).unwrap();
    let (body, consumed) = parse_frame(&bytes).unwrap().unwrap();
    assert_eq!(consumed, bytes.len());
    let success = decode_packet(ProtocolState::Login, Direction::Clientbound, &body).unwrap();
    assert_eq!(success, Packet::LoginSuccess { uuid, username: b"Steve".to_vec() });
    assert_eq!(registry.len(), 1);
    assert_eq!(registry.get_client(uuid), Some(0));
}

#[test]
fn login_with_compression_sends_set_compression_first() {
    let mut session = Session::new();
    session.set_state(ProtocolState::Login);
    let mut registry = SessionRegistry::new();
    let bytes =
        finish_login(&mut session, &mut registry, b"Steve".to_vec(), 9, 1, Some(256)).unwrap();
    // First frame: SetCompression, sent uncompressed.
    let (body1, consumed1) = parse_frame(&bytes).unwrap().unwrap();
    let p1 = decode_packet(ProtocolState::Login, Direction::Clientbound, &body1).unwrap();
    assert_eq!(p1, Packet::SetCompression { threshold: 256 });
    // Second frame: LoginSuccess, already behind the compression layer.
    let rest: Vec<u8> = bytes[consumed1..].to_vec();
    let (body2, consumed2) = parse_frame(&rest).unwrap().unwrap();
    assert_eq!(consumed2, rest.len());
    let plain = endstone::compress::decompress_body(&body2).unwrap();
    let p2 = decode_packet(ProtocolState::Login, Direction::Clientbound, &plain).unwrap();
    assert_eq!(p2, Packet::LoginSuccess { uuid: 9, username: b"Steve".to_vec() });
}

#[test]
fn duplicate_name_admits_exactly_one() {
    // Two sessions completing login with the same requested name: one is
    // admitted, the other gets DuplicateIdentity and is not registered.
    let mut registry = SessionRegistry::new();
    assert_eq!(registry.insert(b"Steve".to_vec(), 1, 10), Ok(()));
    assert_eq!(
        registry.insert(b"Steve".to_vec(), 2, 11),
        Err(ProtocolError::DuplicateIdentity)
    );
    assert_eq!(registry.len(), 1);
    assert_eq!(registry.get_client(1), Some(0));
    assert_eq!(registry.get_client(2), None);
}

#[test]
fn duplicate_uuid_is_rejected_too() {
    let mut registry = SessionRegistry::new();
    assert_eq!(registry.insert(b"Steve".to_vec(), 1, 10), Ok(()));
    assert_eq!(registry.insert(b"Alex".to_vec(), 1, 11), Err(ProtocolError::DuplicateIdentity));
    assert_eq!(registry.len(), 1);
}

#[test]
fn duplicate_login_does_not_reach_play() {
    let mut registry = SessionRegistry::new();
    registry.insert(b"Steve".to_vec(), 1, 10).unwrap();
    let mut session = Session::new();
    session.set_state(ProtocolState::Login);
    let r = finish_login(&mut session, &mut registry, b"Steve".to_vec(), 2, 11, None);
    assert_eq!(r.err(), Some(ProtocolError::DuplicateIdentity));
    assert_eq!(registry.len(), 1);
    // The rejected session may still be notified.
    let kick = login_kick(b"duplicate identity".to_vec());
    assert_eq!(kick, Packet::LoginDisconnect { reason: b"duplicate identity".to_vec() });
}

#[test]
fn registry_remove_frees_the_identity() {
    let mut registry = SessionRegistry::new();
    registry.insert(b"Steve".to_vec(), 1, 10).unwrap();
    assert!(registry.remove(1));
    assert!(!registry.remove(1));
    assert_eq!(registry.len(), 0);
    assert_eq!(registry.insert(b"Steve".to_vec(), 1, 10), Ok(()));
}

#[test]
fn next_entity_id_is_unused() {
    let mut registry = SessionRegistry::new();
    registry.insert(b"a".to_vec(), 1, 0).unwrap();
    registry.insert(b"b".to_vec(), 2, 5).unwrap();
    let id = registry.next_entity_id().unwrap();
    assert_eq!(id, 6);
}

#[test]
fn chat_is_broadcast_to_all_three_sessions() {
    // Three registered sessions A, B, C; a chat from A yields exactly three
    // outbound messages, each prefixed with A's name.
    let mut server = Server::new(b"{}".to_vec(), ServerSettings::new(10, 8));
    server.registry.insert(b"A".to_vec(), 1, 100).unwrap();
    server.registry.insert(b"B".to_vec(), 2, 101).unwrap();
    server.registry.insert(b"C".to_vec(), 3, 102).unwrap();
    server.submit(PacketBox::new(1, Packet::PlayClientChatMessage { message: b"hi".to_vec() }));
    let out = server.handle_packets();
    assert_eq!(out.len(), 3);
    let targets: Vec<u128> = out.iter().map(|o| o.target).collect();
    assert_eq!(targets, vec![1, 2, 3]);
    for o in &out {
        assert_eq!(
            o.packet,
            Packet::PlayServerChatMessage { message: b"<A> hi".to_vec(), position: 0, sender: 1 }
        );
    }
}

#[test]
fn chat_from_unregistered_session_is_ignored() {
    let mut server = Server::new(b"{}".to_vec(), ServerSettings::new(10, 8));
    server.registry.insert(b"A".to_vec(), 1, 100).unwrap();
    server.submit(PacketBox::new(99, Packet::PlayClientChatMessage { message: b"hi".to_vec() }));
    assert_eq!(server.handle_packets().len(), 0);
}

#[test]
fn status_request_and_ping_are_answered_inline() {
    let mut server = Server::new(b"{\"max\":7}".to_vec(), ServerSettings::new(7, 8));
    server.submit(PacketBox::new(50, Packet::StatusRequest));
    server.submit(PacketBox::new(50, Packet::StatusPing { payload: 424242 }));
    let out = server.handle_packets();
    assert_eq!(out.len(), 2);
    assert_eq!(out[0].target, 50);
    assert_eq!(out[0].packet, Packet::StatusResponse { json: b"{\"max\":7}".to_vec() });
    assert_eq!(out[1].target, 50);
    assert_eq!(out[1].packet, Packet::StatusPong { payload: 424242 });
    // The queue was drained.
    assert_eq!(server.handle_packets().len(), 0);
}

#[test]
fn unhandled_packets_are_silently_ignored() {
    let mut server = Server::new(b"{}".to_vec(), ServerSettings::new(7, 8));
    server.submit(PacketBox::new(1, Packet::StatusPong { payload: 1 }));
    server.submit(PacketBox::new(1, Packet::LoginStart { name: b"x".to_vec() }));
    assert_eq!(server.handle_packets().len(), 0);
}

#[test]
fn server_full_gates_on_max_players() {
    let mut server = Server::new(b"{}".to_vec(), ServerSettings::new(2, 8));
    assert!(!server.server_full());
    server.registry.insert(b"A".to_vec(), 1, 100).unwrap();
    server.registry.insert(b"B".to_vec(), 2, 101).unwrap();
    assert!(server.server_full());
}

#[test]
fn tick_budget_saturates() {
    assert_eq!(tick_sleep_budget(50, 20), 30);
    assert_eq!(tick_sleep_budget(50, 50), 0);
    assert_eq!(tick_sleep_budget(50, 80), 0);
}

#[test]
fn settings_hold_their_values() {
    let s = ServerSettings::new(250, 8);
    assert_eq!(s.max_players, 250);
    assert_eq!(s.view_distance, 8);
}

#[test]
fn handshake_next_state_converts() {
    assert_eq!(convert(HandshakeNextState::Status), ProtocolState::Status);
    assert_eq!(convert(HandshakeNextState::Login), ProtocolState::Login);
}

#[test]
fn fresh_player_defaults() {
    let p = Player::new(b"Steve".to_vec(), 7, 3);
    assert_eq!(p.name, b"Steve".to_vec());
    assert_eq!(p.uuid, 7);
    assert_eq!(p.entity_id, 3);
    assert_eq!(p.health.health, 20);
    assert_eq!(p.health.hunger, 20);
    assert_eq!(p.health.saturation, 20);
}

#[test]
fn inventory_sections_have_their_sizes() {
    let inv = PlayerInventory::new_empty();
    assert_eq!(inv.get_armor().len(), 4);
    assert_eq!(inv.get_inventory().len(), 27);
    assert_eq!(inv.get_hotbar().len(), 9);
    assert_eq!(inv.get_crafting_input().len(), 4);
    assert_eq!(inv.get_offhand(), None);
    assert_eq!(inv.get_crafting_output(), None);

    let mut items = vec![None; 46];
    items[0] = Some(5);
    items[45] = Some(9);
    items[5] = Some(1);
    let inv2 = PlayerInventory::new(items);
    assert_eq!(inv2.get_crafting_output(), Some(5));
    assert_eq!(inv2.get_offhand(), Some(9));
    assert_eq!(inv2.get_armor()[0], Some(1));
}

#[test]
fn server_client_builds_its_packets() {
    let c = ServerClient {
        name: b"A".to_vec(),
        uuid: 1,
        entity_id: 100,
        view_distance: 10,
        player: Player::new(b"A".to_vec(), 1, 100),
    };
    assert_eq!(
        c.send_message(b"hi".to_vec(), 0, Some(2)),
        Packet::PlayServerChatMessage { message: b"hi".to_vec(), position: 0, sender: 2 }
    );
    assert_eq!(
        c.send_message(b"hi".to_vec(), 1, None),
        Packet::PlayServerChatMessage { message: b"hi".to_vec(), position: 1, sender: 0 }
    );
    assert_eq!(c.kick(b"bye".to_vec()), Packet::PlayDisconnect { reason: b"bye".to_vec() });
}

#[test]
fn server_status_builds_the_response() {
    let status = ServerStatus { json: b"{\"version\":753}".to_vec() };
    assert_eq!(
        status.send_status(),
        Packet::StatusResponse { json: b"{\"version\":753}".to_vec() }
    );
}
