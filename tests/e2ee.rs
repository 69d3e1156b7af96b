use gann_peer::e2ee::{
    decrypt_relay_payload, encrypt_relay_payload, encrypt_relay_payload_with_nonce,
    E2eeKeyPairHandle,
};
use gann_peer::error::PeerError;
use gann_peer::session::{check_shared_key, parse_session_id};

const SID: &str = "550e8400-e29b-41d4-a716-446655440000";
const SID2: &str = "6ba7b810-9dad-11d1-80b4-00c04fd430c8";

fn hex(s: &str) -> Vec<u8> {
    (0..s.len()).step_by(2).map(|i| u8::from_str_radix(&s[i..i + 2], 16).unwrap()).collect()
}

fn arr(v: Vec<u8>) -> [u8; 32] {
    let mut a = [0u8; 32];
    a.copy_from_slice(&v);
    a
}

fn alice() -> E2eeKeyPairHandle {
    E2eeKeyPairHandle::from_secret(arr(hex(
        "77076d0a7318a57d3c16c17251b26645df4c2f87ebc0992ab177fba51db92c2a",
    )))
}

fn bob() -> E2eeKeyPairHandle {
    E2eeKeyPairHandle::from_secret(arr(hex(
        "5dab087e624a8a4b79e17f8b83800ee66f3bb1292618b6fd1c2f8b27ff88e0eb",
    )))
}

#[test]
fn public_key_matches_known_vector() {
    assert_eq!(
        alice().public_key(),
        hex("8520f0098930a754748b7ddcb43ef75a0dbf3a0d26381af4eba4a98eaa9b4e6a")
    );
    assert_eq!(alice().public_key_b64(), "hSDwCYkwp1R0i33ctD73Wg2/Og0mOBr066SpjqqbTmo=");
}

#[test]
fn derived_key_matches_known_value() {
    let k = alice().derive_relay_shared_key(&bob().public_key_b64(), SID).unwrap();
    assert_eq!(k, hex("67566fbbd943f6bed0394c28700415f29076baaf1936b3dbf64bb8c59a3654a8"));
}

#[test]
fn derivation_is_symmetric_and_session_bound() {
    let a = E2eeKeyPairHandle::generate();
    let b = E2eeKeyPairHandle::generate();
    let ka = a.derive_relay_shared_key(&b.public_key_b64(), SID).unwrap();
    let kb = b.derive_relay_shared_key(&a.public_key_b64(), SID).unwrap();
    assert_eq!(ka.len(), 32);
    assert_eq!(ka, kb);
    let ka2 = a.derive_relay_shared_key(&b.public_key_b64(), SID2).unwrap();
    assert_ne!(ka, ka2);
}

#[test]
fn derivation_rejects_bad_inputs() {
    let a = alice();
    let pk = bob().public_key_b64();
    assert_eq!(a.derive_relay_shared_key(&pk, "not-a-uuid").err(), Some(PeerError::InvalidSessionId));
    assert_eq!(a.derive_relay_shared_key("***", SID).err(), Some(PeerError::InvalidPeerKey));
    assert_eq!(a.derive_relay_shared_key("AAAA", SID).err(), Some(PeerError::InvalidPeerKey));
}

#[test]
fn session_id_parses_to_its_bytes() {
    let id = parse_session_id(SID).unwrap();
    assert_eq!(id.to_vec(), hex("550e8400e29b41d4a716446655440000"));
    assert_eq!(parse_session_id("550e8400-e29b-41d4-a716-44665544000"), Err(PeerError::InvalidSessionId));
}

#[test]
fn shared_key_length_is_checked() {
    assert_eq!(check_shared_key(&[0u8; 31]), Err(PeerError::InvalidKeyLength));
    assert_eq!(check_shared_key(&[0u8; 33]), Err(PeerError::InvalidKeyLength));
    assert_eq!(check_shared_key(&[7u8; 32]), Ok(vec![7u8; 32]));
}

#[test]
fn sealing_matches_known_ciphertext() {
    let key: Vec<u8> = (0u8..32).collect();
    let nonce: Vec<u8> = (0u8..12).collect();
    let f = encrypt_relay_payload_with_nonce(&key, SID, &nonce, br#"{"x":1}"#).unwrap();
    assert_eq!(f.ciphertext, hex("f2d970221326d86e7720f027199f513434c9e530ac09ee"));
    assert_eq!(f.nonce, nonce);
    assert_eq!(f.session_id.to_vec(), hex("550e8400e29b41d4a716446655440000"));
    assert_eq!(decrypt_relay_payload(&key, SID, &f), Ok(br#"{"x":1}"#.to_vec()));
}

#[test]
fn encrypt_then_decrypt_round_trips() {
    let key = [42u8; 32];
    for p in [&b"{}"[..], &br#"{"x":1}"#[..], &b""[..], &[0u8; 1000][..]] {
        let f = encrypt_relay_payload(&key, SID, p).unwrap();
        assert_eq!(f.nonce.len(), 12);
        assert_eq!(f.ciphertext.len(), p.len() + 16);
        assert_eq!(decrypt_relay_payload(&key, SID, &f), Ok(p.to_vec()));
    }
}

#[test]
fn decrypt_fails_closed() {
    let key = [42u8; 32];
    let f = encrypt_relay_payload(&key, SID, br#"{"x":1}"#).unwrap();
    assert_eq!(decrypt_relay_payload(&[43u8; 32], SID, &f), Err(PeerError::AuthenticationFailed));
    assert_eq!(decrypt_relay_payload(&key, SID2, &f), Err(PeerError::AuthenticationFailed));
    let mut flipped = f.clone();
    flipped.ciphertext[0] ^= 1;
    assert_eq!(decrypt_relay_payload(&key, SID, &flipped), Err(PeerError::AuthenticationFailed));
    let mut moved = f.clone();
    moved.session_id = parse_session_id(SID2).unwrap();
    assert_eq!(decrypt_relay_payload(&key, SID2, &moved), Err(PeerError::AuthenticationFailed));
    let mut short = f.clone();
    short.nonce.pop();
    assert_eq!(decrypt_relay_payload(&key, SID, &short), Err(PeerError::AuthenticationFailed));
}

#[test]
fn crypto_rejects_bad_key_length_first() {
    assert_eq!(encrypt_relay_payload(&[0u8; 16], "bad", b"{}").err(), Some(PeerError::InvalidKeyLength));
    assert_eq!(encrypt_relay_payload(&[0u8; 32], "bad", b"{}").err(), Some(PeerError::InvalidSessionId));
    let f = encrypt_relay_payload(&[0u8; 32], SID, b"{}").unwrap();
    assert_eq!(decrypt_relay_payload(&[0u8; 16], "bad", &f), Err(PeerError::InvalidKeyLength));
    assert_eq!(decrypt_relay_payload(&[0u8; 32], "bad", &f), Err(PeerError::InvalidSessionId));
    assert_eq!(
        encrypt_relay_payload_with_nonce(&[0u8; 32], SID, &[0u8; 8], b"{}").err(),
        Some(PeerError::MalformedMessage)
    );
}

#[test]
fn only_hyphenated_session_ids_are_accepted() {
    for s in [
        "550e8400e29b41d4a716446655440000",
        "{550e8400-e29b-41d4-a716-446655440000}",
        "urn:uuid:550e8400-e29b-41d4-a716-446655440000",
        "550e8400-e29b-41d4-a716-44665544000g",
        "550e8400+e29b-41d4-a716-446655440000",
    ] {
        assert_eq!(parse_session_id(s), Err(PeerError::InvalidSessionId), "{}", s);
    }
    let upper = parse_session_id("550E8400-E29B-41D4-A716-446655440000").unwrap();
    assert_eq!(upper.to_vec(), hex("550e8400e29b41d4a716446655440000"));
    let a = alice();
    assert_eq!(
        a.derive_relay_shared_key(&bob().public_key_b64(), "550e8400e29b41d4a716446655440000").err(),
        Some(PeerError::InvalidSessionId)
    );
}
