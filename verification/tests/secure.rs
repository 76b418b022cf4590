use endstone::cipher::StreamCipher;
use endstone::error::ProtocolError;
use endstone::frame::encode_frame;
use endstone::packet::{encode_packet, Packet, ProtocolState};
use endstone::session::Session;

fn nist_key() -> Vec<u8> {
    vec![
        0x2b, 0x7e, 0x15, 0x16, 0x28, 0xae, 0xd2, 0xa6, 0xab, 0xf7, 0x15, 0x88, 0x09, 0xcf, 0x4f,
        0x3c,
    ]
}

fn nist_iv() -> Vec<u8> {
    vec![
        0x00, 0x01, 0x02, 0x03, 0x04, 0x05, 0x06, 0x07, 0x08, 0x09, 0x0a, 0x0b, 0x0c, 0x0d, 0x0e,
        0x0f,
    ]
}

#[test]
fn cipher_matches_published_test_vector() {
    // The 8-bit feedback mode of AES-128, from the standard example vectors.
    let plain = vec![
        0x6b, 0xc1, 0xbe, 0xe2, 0x2e, 0x40, 0x9f, 0x96, 0xe9, 0x3d, 0x7e, 0x11, 0x73, 0x93, 0x17,
        0x2a, 0xae, 0x2d,
    ];
    let expect = vec![
        0x3b, 0x79, 0x42, 0x4c, 0x9c, 0x0d, 0xd4, 0x36, 0xba, 0xce, 0x9e, 0x0e, 0xd4, 0x58, 0x6a,
        0x4f, 0x32, 0xb9,
    ];
    let mut enc = StreamCipher::new(nist_key(), nist_iv());
    assert_eq!(enc.encrypt(&plain), expect);
    let mut dec = StreamCipher::new(nist_key(), nist_iv());
    assert_eq!(dec.decrypt(&expect), plain);
}

#[test]
fn cipher_round_trips_across_chunks() {
    // Encrypting piecewise equals encrypting the whole stream, and a
    // decryptor fed the same ciphertext tracks it chunk by chunk.
    let mut enc = StreamCipher::new(nist_key(), nist_iv());
    let mut dec = StreamCipher::new(nist_key(), nist_iv());
    let chunks: Vec<Vec<u8>> = vec![b"hello".to_vec(), b" ".to_vec(), b"world, again".to_vec()];
    for c in &chunks {
        let ct = enc.encrypt(c);
        assert_eq!(ct.len(), c.len());
        assert_eq!(&dec.decrypt(&ct), c);
    }

    let mut enc_whole = StreamCipher::new(nist_key(), nist_iv());
    let whole: Vec<u8> = chunks.iter().flatten().copied().collect();
    let mut enc_parts = StreamCipher::new(nist_key(), nist_iv());
    let mut piecewise: Vec<u8> = Vec::new();
    for c in &chunks {
        piecewise.extend_from_slice(&enc_parts.encrypt(c));
    }
    assert_eq!(enc_whole.encrypt(&whole), piecewise);
}

#[test]
fn plain_write_has_exact_frame_bytes() {
    let mut s = Session::new();
    s.set_state(ProtocolState::Status);
    let bytes = s.write_packet(&Packet::StatusRequest).unwrap();
    assert_eq!(bytes, vec![0x01, 0x00]);
}

#[test]
fn handshake_packet_drives_the_state_machine() {
    let mut s = Session::new();
    let p = Packet::Handshake {
        protocol_version: 753,
        server_address: b"localhost".to_vec(),
        server_port: 25565,
        next_state: 2,
    };
    assert_eq!(s.handshake(&p), Ok(ProtocolState::Login));

    let mut s2 = Session::new();
    let p1 = Packet::Handshake {
        protocol_version: 753,
        server_address: b"localhost".to_vec(),
        server_port: 25565,
        next_state: 1,
    };
    assert_eq!(s2.handshake(&p1), Ok(ProtocolState::Status));
}

#[test]
fn non_handshake_packet_is_a_violation() {
    let mut s = Session::new();
    assert_eq!(s.handshake(&Packet::StatusRequest), Err(ProtocolError::ProtocolViolation));
    let bad_next = Packet::Handshake {
        protocol_version: 753,
        server_address: b"x".to_vec(),
        server_port: 1,
        next_state: 9,
    };
    assert_eq!(s.handshake(&bad_next), Err(ProtocolError::ProtocolViolation));
}

#[test]
fn login_packets_in_status_state_are_violations() {
    // Every Login-state packet offered to a Status-state session.
    let mut s = Session::new();
    let hs = Packet::Handshake {
        protocol_version: 753,
        server_address: b"x".to_vec(),
        server_port: 1,
        next_state: 1,
    };
    s.handshake(&hs).unwrap();
    let login_packets = vec![
        Packet::LoginStart { name: b"Steve".to_vec() },
        Packet::EncryptionResponse { shared_secret: vec![0; 16], verify_token: vec![0; 16] },
        Packet::LoginDisconnect { reason: b"r".to_vec() },
        Packet::EncryptionRequest {
            server_id: b"s".to_vec(),
            public_key: vec![0; 16],
            verify_token: vec![0; 16],
        },
        Packet::LoginSuccess { uuid: 1, username: b"Steve".to_vec() },
        Packet::SetCompression { threshold: 64 },
    ];
    for p in &login_packets {
        assert_eq!(s.check_inbound(p), Err(ProtocolError::ProtocolViolation));
    }
    assert_eq!(s.check_inbound(&Packet::StatusRequest), Ok(()));
}

#[test]
fn read_loop_decodes_a_plain_frame() {
    let mut s = Session::new();
    s.set_state(ProtocolState::Login);
    let p = Packet::LoginStart { name: b"Steve".to_vec() };
    let mut buf = encode_frame(&encode_packet(&p));
    buf.extend_from_slice(&[0x99, 0x99]);
    let got = s.read_next_packet(&mut buf).unwrap().unwrap();
    assert_eq!(got, p);
    assert_eq!(buf, vec![0x99, 0x99]);
}

#[test]
fn read_loop_waits_for_a_whole_frame() {
    let s = Session::new();
    let mut buf = vec![0x05u8, 0x00];
    assert_eq!(s.read_next_packet(&mut buf), Ok(None));
    assert_eq!(buf, vec![0x05u8, 0x00]);
}

#[test]
fn read_loop_with_compression_round_trips() {
    let mut writer = Session::new();
    writer.set_state(ProtocolState::Play);
    writer.set_compression_threshold(4);
    let p = Packet::PlayClientChatMessage { message: b"a rather long chat line".to_vec() };
    let bytes = writer.write_packet(&p).unwrap();

    let mut reader = Session::new();
    reader.set_state(ProtocolState::Play);
    reader.set_compression_threshold(4);
    let mut buf = bytes;
    let got = reader.read_next_packet(&mut buf).unwrap().unwrap();
    assert_eq!(got, p);
    assert!(buf.is_empty());
}

#[test]
fn read_loop_with_encryption_round_trips() {
    let mut writer = Session::new();
    writer.set_state(ProtocolState::Play);
    writer.enable_encryption(&nist_key(), &nist_iv());
    let p1 = Packet::PlayClientChatMessage { message: b"first".to_vec() };
    let p2 = Packet::PlayClientChatMessage { message: b"second".to_vec() };
    let c1 = writer.write_packet(&p1).unwrap();
    let c2 = writer.write_packet(&p2).unwrap();
    // Once enabled, every outbound byte is transformed.
    assert!(c1 != encode_frame(&encode_packet(&p1)));

    let mut reader = Session::new();
    reader.set_state(ProtocolState::Play);
    reader.enable_encryption(&nist_key(), &nist_iv());
    let mut buf = reader.decrypt_inbound(&c1);
    let more = reader.decrypt_inbound(&c2);
    buf.extend_from_slice(&more);
    let got1 = reader.read_next_packet(&mut buf).unwrap().unwrap();
    let got2 = reader.read_next_packet(&mut buf).unwrap().unwrap();
    assert_eq!(got1, p1);
    assert_eq!(got2, p2);
    assert!(buf.is_empty());
}

#[test]
fn oversized_packet_write_is_rejected() {
    let mut s = Session::new();
    s.set_state(ProtocolState::Play);
    let p = Packet::PlayClientChatMessage { message: vec![b'a'; 0x20_0001] };
    assert_eq!(s.write_packet(&p), Err(ProtocolError::FrameTooLarge));
}
