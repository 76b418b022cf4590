use endstone::error::ProtocolError;
use endstone::packet::{decode_packet, encode_packet, Direction, Packet, ProtocolState};
use endstone::varint::{decode_varint, encode_varint, varint_is_incomplete};

#[test]
fn varint_known_encodings() {
    assert_eq!(encode_varint(0), vec![0x00]);
    assert_eq!(encode_varint(1), vec![0x01]);
    assert_eq!(encode_varint(127), vec![0x7F]);
    assert_eq!(encode_varint(128), vec![0x80, 0x01]);
    assert_eq!(encode_varint(300), vec![0xAC, 0x02]);
    assert_eq!(encode_varint(u32::MAX), vec![0xFF, 0xFF, 0xFF, 0xFF, 0x0F]);
}

#[test]
fn varint_round_trips() {
    for v in [0u32, 1, 127, 128, 255, 300, 16383, 16384, 2097151, 2097152, u32::MAX] {
        let enc = encode_varint(v);
        let got = decode_varint(&enc, 0).unwrap();
        assert_eq!(got.0, v);
        assert_eq!(got.1, enc.len());
    }
}

#[test]
fn varint_round_trips_with_trailing_bytes() {
    let mut enc = encode_varint(300);
    let n = enc.len();
    enc.push(0xAB);
    enc.push(0xCD);
    let got = decode_varint(&enc, 0).unwrap();
    assert_eq!(got, (300, n));
}

#[test]
fn varint_sixth_continuation_byte_is_malformed() {
    let bad = vec![0xFF, 0xFF, 0xFF, 0xFF, 0xFF, 0x01];
    assert_eq!(decode_varint(&bad, 0), Err(ProtocolError::MalformedVarInt));
}

#[test]
fn varint_ending_mid_sequence_is_malformed() {
    let bad = vec![0x80, 0x80];
    assert_eq!(decode_varint(&bad, 0), Err(ProtocolError::MalformedVarInt));
    assert!(varint_is_incomplete(&bad, 0));
    let complete = vec![0x80, 0x01];
    assert!(!varint_is_incomplete(&complete, 0));
}

#[test]
fn varint_beyond_32_bits_is_malformed() {
    let bad = vec![0xFF, 0xFF, 0xFF, 0xFF, 0x10];
    assert_eq!(decode_varint(&bad, 0), Err(ProtocolError::MalformedVarInt));
}

fn round_trip(state: ProtocolState, dir: Direction, p: Packet) {
    let bytes = encode_packet(&p);
    let back = decode_packet(state, dir, &bytes).unwrap();
    assert_eq!(back, p);
}

#[test]
fn packet_round_trip_handshake() {
    round_trip(
        ProtocolState::Handshake,
        Direction::Serverbound,
        Packet::Handshake {
            protocol_version: 753,
            server_address: b"localhost".to_vec(),
            server_port: 25565,
            next_state: 2,
        },
    );
}

#[test]
fn packet_round_trip_status() {
    round_trip(ProtocolState::Status, Direction::Serverbound, Packet::StatusRequest);
    round_trip(ProtocolState::Status, Direction::Serverbound, Packet::StatusPing {
        payload: 0xDEAD_BEEF_1234_5678,
    });
    round_trip(ProtocolState::Status, Direction::Clientbound, Packet::StatusResponse {
        json: b"{\"description\":\"hi\"}".to_vec(),
    });
    round_trip(ProtocolState::Status, Direction::Clientbound, Packet::StatusPong { payload: 7 });
}

#[test]
fn packet_round_trip_login() {
    round_trip(ProtocolState::Login, Direction::Serverbound, Packet::LoginStart {
        name: b"Steve".to_vec(),
    });
    round_trip(ProtocolState::Login, Direction::Serverbound, Packet::EncryptionResponse {
        shared_secret: vec![9; 16],
        verify_token: vec![7; 16],
    });
    round_trip(ProtocolState::Login, Direction::Clientbound, Packet::LoginDisconnect {
        reason: b"nope".to_vec(),
    });
    round_trip(ProtocolState::Login, Direction::Clientbound, Packet::EncryptionRequest {
        server_id: b"0123456789abcdef".to_vec(),
        public_key: vec![1; 16],
        verify_token: vec![2; 16],
    });
    round_trip(ProtocolState::Login, Direction::Clientbound, Packet::LoginSuccess {
        uuid: 0x0123_4567_89AB_CDEF_0011_2233_4455_6677,
        username: b"Steve".to_vec(),
    });
    round_trip(ProtocolState::Login, Direction::Clientbound, Packet::SetCompression {
        threshold: 256,
    });
}

#[test]
fn packet_round_trip_play() {
    round_trip(ProtocolState::Play, Direction::Serverbound, Packet::PlayClientChatMessage {
        message: b"hello world".to_vec(),
    });
    round_trip(ProtocolState::Play, Direction::Clientbound, Packet::PlayServerChatMessage {
        message: b"<a> hi".to_vec(),
        position: 0,
        sender: 42,
    });
    round_trip(ProtocolState::Play, Direction::Clientbound, Packet::PlayDisconnect {
        reason: b"bye".to_vec(),
    });
    round_trip(ProtocolState::Play, Direction::Clientbound, Packet::PlayJoinGame {
        body: vec![1, 2, 3, 4, 5],
    });
}

#[test]
fn login_start_exact_bytes() {
    let p = Packet::LoginStart { name: b"Steve".to_vec() };
    assert_eq!(encode_packet(&p), vec![0x00, 0x05, b'S', b't', b'e', b'v', b'e']);
}

#[test]
fn handshake_exact_bytes() {
    let p = Packet::Handshake {
        protocol_version: 753,
        server_address: b"x".to_vec(),
        server_port: 25565,
        next_state: 2,
    };
    assert_eq!(encode_packet(&p), vec![0x00, 0xF1, 0x05, 0x01, b'x', 0x63, 0xDD, 0x02]);
}

#[test]
fn unknown_packet_id_is_rejected() {
    let bytes = vec![0x55];
    assert_eq!(
        decode_packet(ProtocolState::Status, Direction::Serverbound, &bytes),
        Err(ProtocolError::UnknownPacketId)
    );
    let bytes = vec![0x00];
    assert_eq!(
        decode_packet(ProtocolState::Handshake, Direction::Clientbound, &bytes),
        Err(ProtocolError::UnknownPacketId)
    );
}

#[test]
fn truncated_packet_is_malformed() {
    let bytes = vec![0x00, 0x05, b'S', b't'];
    assert_eq!(
        decode_packet(ProtocolState::Login, Direction::Serverbound, &bytes),
        Err(ProtocolError::MalformedPacket)
    );
}

#[test]
fn trailing_bytes_are_malformed() {
    let mut bytes = encode_packet(&Packet::StatusRequest);
    bytes.push(0x00);
    assert_eq!(
        decode_packet(ProtocolState::Status, Direction::Serverbound, &bytes),
        Err(ProtocolError::MalformedPacket)
    );
}

#[test]
fn bad_packet_id_varint_is_malformed() {
    let bytes = vec![0xFF, 0xFF, 0xFF, 0xFF, 0xFF];
    assert_eq!(
        decode_packet(ProtocolState::Status, Direction::Serverbound, &bytes),
        Err(ProtocolError::MalformedVarInt)
    );
}
