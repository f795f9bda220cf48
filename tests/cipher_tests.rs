use vpnr::cipher::{CipherSession, CipherState, PreSharedKey};
use vpnr::crypt_writer::{CryptWriter, WRITE_BUFFER_SIZE};
use vpnr::keyfile::{key_file, parse_key_file, KeyParseError};
use vpnr::transport::{Error, HandshakeStep, Transport};

fn key(b: u8) -> PreSharedKey {
    PreSharedKey::new([b; 32])
}

#[test]
fn round_trip_same_key_and_nonce() {
    let k = key(7);
    let nonce = [3u8; 32];
    let msg: Vec<u8> = b"hello overlay, this is a message".to_vec();
    let mut enc = CipherState::new(&k, nonce);
    let mut dec = CipherState::new(&k, nonce);
    let mut buf = msg.clone();
    enc.apply_keystream(&mut buf);
    assert_ne!(buf, msg);
    dec.apply_keystream(&mut buf);
    assert_eq!(buf, msg);
    assert_eq!(enc.position(), msg.len() as u64);
    assert_eq!(dec.position(), msg.len() as u64);
}

#[test]
fn round_trip_in_pieces() {
    let k = key(9);
    let nonce = [5u8; 32];
    let msg: Vec<u8> = (0..200u8).collect();
    let mut whole = msg.clone();
    CipherState::new(&k, nonce).apply_keystream(&mut whole);
    let mut enc = CipherState::new(&k, nonce);
    let mut a = msg[..77].to_vec();
    let mut b = msg[77..].to_vec();
    enc.apply_keystream(&mut a);
    enc.apply_keystream(&mut b);
    a.extend_from_slice(&b);
    assert_eq!(a, whole);
}

#[test]
fn empty_message_round_trips() {
    let k = key(1);
    let mut st = CipherState::new(&k, [0u8; 32]);
    let mut buf: Vec<u8> = Vec::new();
    st.apply_keystream(&mut buf);
    assert!(buf.is_empty());
    assert_eq!(st.position(), 0);
}

#[test]
fn cross_nonce_garbles() {
    let k = key(7);
    let msg: Vec<u8> = vec![0x42; 64];
    let mut buf = msg.clone();
    CipherState::new(&k, [1u8; 32]).apply_keystream(&mut buf);
    CipherState::new(&k, [2u8; 32]).apply_keystream(&mut buf);
    assert_ne!(buf, msg);
}

#[test]
fn nonces_differing_only_past_cipher_part_share_a_stream() {
    let k = key(7);
    let mut a = [1u8; 32];
    let b = [1u8; 32];
    a[31] = 9;
    let mut x = vec![0u8; 16];
    let mut y = vec![0u8; 16];
    CipherState::new(&k, a).apply_keystream(&mut x);
    CipherState::new(&k, b).apply_keystream(&mut y);
    assert_eq!(x, y);
}

#[test]
fn fingerprint_is_deterministic_and_key_dependent() {
    let a1 = key(1).fingerprint().bytes();
    let a2 = key(1).fingerprint().bytes();
    let b = key(2).fingerprint().bytes();
    assert_eq!(a1, a2);
    assert_ne!(a1, b);
    assert_eq!(a1.len(), 16);
}

#[test]
fn key_bytes_round_trip() {
    let data = [0xabu8; 32];
    assert_eq!(PreSharedKey::new(data).bytes(), data);
}

#[test]
fn session_encrypt_then_peer_decrypts() {
    let k = key(4);
    let local = [10u8; 32];
    let remote = [20u8; 32];
    let mut alice = CipherSession::new(&k, local, remote);
    let mut bob = CipherSession::new(&k, remote, local);
    let msg: Vec<u8> = b"payload".to_vec();
    let mut buf = msg.clone();
    alice.encrypt(&mut buf);
    bob.decrypt(&mut buf);
    assert_eq!(buf, msg);
    let mut back = msg.clone();
    bob.encrypt(&mut back);
    alice.decrypt(&mut back);
    assert_eq!(back, msg);
}

fn exchange(ka: PreSharedKey, kb: PreSharedKey, payload: &[u8]) -> Vec<u8> {
    let ta = Transport::new(ka);
    let tb = Transport::new(kb);
    let ha = ta.start();
    let hb = tb.start();
    let na = ha.local_nonce();
    let nb = hb.local_nonce();
    let mut sa = ha.finish(&nb.to_vec()).expect("handshake a");
    let mut sb = hb.finish(&na.to_vec()).expect("handshake b");
    let mut wire = payload.to_vec();
    sa.encrypt(&mut wire);
    sb.decrypt(&mut wire);
    wire
}

#[test]
fn same_key_exchange_is_unmodified() {
    let payload: Vec<u8> = (0..=255u8).collect();
    assert_eq!(exchange(key(8), key(8), &payload), payload);
}

#[test]
fn mismatched_keys_garble_payload() {
    let payload: Vec<u8> = (0..=255u8).collect();
    assert_ne!(exchange(key(8), key(9), &payload), payload);
}

#[test]
fn truncated_remote_nonce_is_handshake_error() {
    let h = Transport::new(key(1)).start();
    assert!(matches!(h.finish(&vec![0u8; 31]), Err(Error::HandshakeError)));
}

#[test]
fn reflected_nonce_is_handshake_error() {
    let h = Transport::new(key(1)).start();
    let own = h.local_nonce().to_vec();
    assert!(matches!(h.finish(&own), Err(Error::HandshakeError)));
}

#[test]
fn fresh_nonces_differ() {
    let t = Transport::new(key(1));
    assert_ne!(t.start().local_nonce(), t.start().local_nonce());
}

#[test]
fn io_failures_map_to_errors() {
    assert_eq!(Error::from_io_failure(HandshakeStep::SendNonce), Error::HandshakeError);
    assert_eq!(Error::from_io_failure(HandshakeStep::ReceiveNonce), Error::HandshakeError);
    assert_eq!(Error::from_io_failure(HandshakeStep::Flush), Error::HandshakeError);
}

#[test]
fn writer_buffers_up_to_capacity() {
    let k = key(3);
    let nonce = [6u8; 32];
    let mut w = CryptWriter::with_capacity(WRITE_BUFFER_SIZE, CipherState::new(&k, nonce));
    let data = vec![0x11u8; 1500];
    let n = w.write(&data);
    assert_eq!(n, 1024);
    assert!(w.is_full());
    let mut expect = data[..1024].to_vec();
    CipherState::new(&k, nonce).apply_keystream(&mut expect);
    assert_eq!(w.pending_bytes(), &expect[..]);
    w.consume(1000);
    assert_eq!(w.pending_bytes().len(), 24);
    assert!(!w.is_full());
    let n2 = w.write(&data[1024..]);
    assert_eq!(n2, 476);
}

#[test]
fn writer_output_decrypts() {
    let k = key(3);
    let nonce = [6u8; 32];
    let mut w = CryptWriter::with_capacity(8, CipherState::new(&k, nonce));
    let msg = b"abcdefghijkl".to_vec();
    let mut wire: Vec<u8> = Vec::new();
    let mut off = 0;
    while off < msg.len() {
        if w.is_full() {
            wire.extend_from_slice(w.pending_bytes());
            let len = w.pending_bytes().len();
            w.consume(len);
        }
        off += w.write(&msg[off..]);
    }
    wire.extend_from_slice(w.pending_bytes());
    CipherState::new(&k, nonce).apply_keystream(&mut wire);
    assert_eq!(wire, msg);
}

#[test]
fn key_file_round_trip() {
    let k = PreSharedKey::new([0x5au8; 32]);
    let text = key_file(&k);
    let expected = format!("/key/swarm/psk/1.0.0/\n/base16/\n{}\n", "5a".repeat(32));
    assert_eq!(String::from_utf8(text.clone()).unwrap(), expected);
    assert_eq!(parse_key_file(&text).unwrap().bytes(), [0x5au8; 32]);
}

#[test]
fn key_file_errors() {
    let hex = "0123456789abcdefABCDEF0123456789abcdef0123456789abcdef0123456789";
    let ok = format!("/key/swarm/psk/1.0.0/\r\n/base16/\n{}  \nignored", hex);
    let k = parse_key_file(&ok.into_bytes()).unwrap().bytes();
    assert_eq!(k[0], 0x01);
    assert_eq!(k[8], 0xab);
    assert_eq!(k[10], 0xef);
    let err = |s: String| parse_key_file(&s.into_bytes()).err();
    assert_eq!(err("/key/swarm/psk/1.0.0/\n/base16/\n".to_string()), Some(KeyParseError::InvalidKeyFile));
    assert_eq!(err(format!("/key/other/\n/base16/\n{}", hex)), Some(KeyParseError::InvalidKeyType));
    assert_eq!(err(format!("/key/swarm/psk/1.0.0/\n/base64/\n{}", hex)), Some(KeyParseError::InvalidKeyEncoding));
    assert_eq!(err("/key/swarm/psk/1.0.0/\n/base16/\nabcd".to_string()), Some(KeyParseError::InvalidKeyLength));
    let bad = format!("{}g", &hex[..63]);
    assert_eq!(err(format!("/key/swarm/psk/1.0.0/\n/base16/\n{}", bad)), Some(KeyParseError::InvalidKeyChar));
}

#[test]
fn decrypt_in_other_pieces_than_encrypted() {
    let k = key(11);
    let nonce = [9u8; 32];
    let msg: Vec<u8> = (0..150u8).collect();
    let mut enc = CipherState::new(&k, nonce);
    let mut wire: Vec<u8> = Vec::new();
    for piece in [&msg[..10], &msg[10..99], &msg[99..]] {
        let mut p = piece.to_vec();
        enc.apply_keystream(&mut p);
        wire.extend_from_slice(&p);
    }
    let mut dec = CipherState::new(&k, nonce);
    let mut out: Vec<u8> = Vec::new();
    for piece in [&wire[..1], &wire[1..64], &wire[64..65], &wire[65..]] {
        let mut p = piece.to_vec();
        dec.apply_keystream(&mut p);
        out.extend_from_slice(&p);
    }
    assert_eq!(out, msg);
}
