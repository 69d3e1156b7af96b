//! Key agreement and authenticated encryption of relayed payloads.
//!
//! A shared key is HKDF-SHA256 over the X25519 shared secret, with the
//! session identifier's bytes as the expansion info, so that each session
//! has its own key. Payloads are sealed with ChaCha20-Poly1305 under a fresh
//! 12-byte nonce, with the session identifier as associated data.

use vstd::prelude::*;

use base64::Engine;
use chacha20poly1305::aead::{Aead, KeyInit};
use rand_core::RngCore;

use crate::error::PeerError;
use crate::session::{check_shared_key, parse_session_id, session_bytes_of, SessionId};

verus! {

/// The length of an AEAD nonce, in bytes.
pub const NONCE_LEN: usize = 12;

/// What `x25519_dalek::PublicKey::from` gives for a secret's bytes.
pub uninterp spec fn x25519_public_of(secret: Seq<u8>) -> Seq<u8>;

/// What `x25519_dalek::StaticSecret::diffie_hellman` gives for a secret's
/// bytes and a peer's public key bytes.
pub uninterp spec fn x25519_shared_of(secret: Seq<u8>, peer: Seq<u8>) -> Seq<u8>;

/// What HKDF-SHA256 without salt expands into 32 bytes, from `ikm` and `info`.
pub uninterp spec fn hkdf_sha256_of(ikm: Seq<u8>, info: Seq<u8>) -> Seq<u8>;

/// The standard base64 text of some bytes.
pub uninterp spec fn base64_of(b: Seq<u8>) -> Seq<char>;

/// The bytes that a standard base64 text decodes to, if it is valid.
pub uninterp spec fn base64_decoded_of(s: Seq<char>) -> Option<Seq<u8>>;

/// What ChaCha20-Poly1305 produces for a key, nonce, associated data and plaintext.
pub uninterp spec fn seal_of(key: Seq<u8>, nonce: Seq<u8>, aad: Seq<u8>, plain: Seq<u8>) -> Seq<u8>;

/// What ChaCha20-Poly1305 decryption gives for a key, nonce, associated data
/// and ciphertext: the plaintext, or nothing when authentication fails.
pub uninterp spec fn open_of(key: Seq<u8>, nonce: Seq<u8>, aad: Seq<u8>, ct: Seq<u8>) -> Option<
    Seq<u8>,
>;

/// Relies on rand_core's OsRng: `n` bytes from the operating system.
#[verifier::external_body]
fn random_bytes(n: usize) -> (r: Vec<u8>)
    ensures
        r@.len() == n,
{
    let mut v = vec![0u8; n];
    rand_core::OsRng.fill_bytes(&mut v);
    v
}

/// Relies on x25519_dalek's `PublicKey::from(&StaticSecret)`: a 32-byte
/// public key that depends on the secret alone. Both it and
/// `diffie_hellman` multiply by the clamped secret, so any other secret `t`
/// agrees with this one: `t` against this public key gives what this secret
/// gives against `t`'s public key.
#[verifier::external_body]
fn x25519_public(secret: &[u8; 32]) -> (r: [u8; 32])
    ensures
        r@ == x25519_public_of(secret@),
        forall|t: Seq<u8>|
            t.len() == 32 ==> #[trigger] x25519_shared_of(t, r@) == x25519_shared_of(
                secret@,
                x25519_public_of(t),
            ),
{
    x25519_dalek::PublicKey::from(&x25519_dalek::StaticSecret::from(*secret)).to_bytes()
}

/// Relies on x25519_dalek's `StaticSecret::diffie_hellman`: a 32-byte
/// shared secret.
#[verifier::external_body]
fn x25519_shared(secret: &[u8; 32], peer: &[u8; 32]) -> (r: [u8; 32])
    ensures
        r@ == x25519_shared_of(secret@, peer@),
{
    let s = x25519_dalek::StaticSecret::from(*secret);
    s.diffie_hellman(&x25519_dalek::PublicKey::from(*peer)).to_bytes()
}

/// Relies on hkdf's `Hkdf::<Sha256>::new(None, ikm).expand(info, ..)`, which
/// fills 32 bytes without error (it refuses only outputs over 8160 bytes).
#[verifier::external_body]
fn hkdf_sha256(ikm: &[u8], info: &[u8]) -> (r: Vec<u8>)
    ensures
        r@ == hkdf_sha256_of(ikm@, info@),
        r@.len() == 32,
{
    let mut okm = vec![0u8; 32];
    let _ = hkdf::Hkdf::<sha2::Sha256>::new(None, ikm).expand(info, &mut okm);
    okm
}

/// Relies on base64's STANDARD engine `encode`: four characters for each
/// started group of three bytes, which the same engine's `decode` reads back.
#[verifier::external_body]
fn base64_encode(b: &[u8]) -> (r: String)
    ensures
        r@ == base64_of(b@),
        r@.len() == 4 * ((b@.len() + 2) / 3),
        base64_decoded_of(r@) == Some(b@),
{
    base64::engine::general_purpose::STANDARD.encode(b)
}

/// Relies on base64's STANDARD engine `decode`.
#[verifier::external_body]
fn base64_decode(s: &str) -> (r: Option<Vec<u8>>)
    ensures
        match r {
            Some(v) => base64_decoded_of(s@) == Some(v@),
            None => base64_decoded_of(s@) is None,
        },
{
    base64::engine::general_purpose::STANDARD.decode(s).ok()
}

/// Relies on chacha20poly1305's `encrypt` with a payload and associated
/// data; the ciphertext carries a 16-byte tag after the encrypted bytes,
/// and `decrypt` with the same key, nonce and data gives the plaintext back.
/// It fails only when the plaintext holds 2^32 - 1 blocks of 64 bytes or more.
#[verifier::external_body]
fn aead_seal(key: &[u8], nonce: &[u8], aad: &[u8], plain: &[u8]) -> (r: Option<Vec<u8>>)
    requires
        key@.len() == 32,
        nonce@.len() == 12,
    ensures
        r matches Some(c) ==> c@ == seal_of(key@, nonce@, aad@, plain@) && c@.len() == plain@.len()
            + 16 && open_of(key@, nonce@, aad@, c@) == Some(plain@),
        plain@.len() < 274877906880 ==> r is Some,
{
    let cipher = chacha20poly1305::ChaCha20Poly1305::new(chacha20poly1305::Key::from_slice(key));
    let payload = chacha20poly1305::aead::Payload { msg: plain, aad };
    cipher.encrypt(chacha20poly1305::Nonce::from_slice(nonce), payload).ok()
}

/// Relies on chacha20poly1305's `decrypt` with a payload and associated
/// data, which returns nothing at all when the tag does not verify.
#[verifier::external_body]
fn aead_open(key: &[u8], nonce: &[u8], aad: &[u8], ct: &[u8]) -> (r: Option<Vec<u8>>)
    requires
        key@.len() == 32,
        nonce@.len() == 12,
    ensures
        match r {
            Some(p) => open_of(key@, nonce@, aad@, ct@) == Some(p@),
            None => open_of(key@, nonce@, aad@, ct@) is None,
        },
{
    let cipher = chacha20poly1305::ChaCha20Poly1305::new(chacha20poly1305::Key::from_slice(key));
    let payload = chacha20poly1305::aead::Payload { msg: ct, aad };
    cipher.decrypt(chacha20poly1305::Nonce::from_slice(nonce), payload).ok()
}

/// The key that a secret, a peer's public key and a session give.
pub open spec fn relay_key_spec(secret: Seq<u8>, peer: Seq<u8>, session: Seq<u8>) -> Seq<u8> {
    hkdf_sha256_of(x25519_shared_of(secret, peer), session)
}

/// An X25519 key pair. The secret never leaves it.
pub struct E2eeKeyPairHandle {
    secret: [u8; 32],
    public: [u8; 32],
}

impl E2eeKeyPairHandle {
    pub closed spec fn secret_view(&self) -> Seq<u8> {
        self.secret@
    }

    pub closed spec fn public_view(&self) -> Seq<u8> {
        self.public@
    }

    pub open spec fn wf(&self) -> bool {
        &&& self.secret_view().len() == 32
        &&& self.public_view().len() == 32
        &&& self.public_view() == x25519_public_of(self.secret_view())
        &&& forall|t: Seq<u8>|
            t.len() == 32 ==> #[trigger] x25519_shared_of(t, self.public_view()) == x25519_shared_of(
                self.secret_view(),
                x25519_public_of(t),
            )
    }

    /// The key pair whose secret is the given bytes.
    pub fn from_secret(secret: [u8; 32]) -> (r: E2eeKeyPairHandle)
        ensures
            r.wf(),
            r.secret_view() == secret@,
    {
        let public = x25519_public(&secret);
        E2eeKeyPairHandle { secret, public }
    }

    /// A fresh key pair from the operating system's random source.
    pub fn generate() -> (r: E2eeKeyPairHandle)
        ensures
            r.wf(),
    {
        let bytes = random_bytes(32);
        let mut secret = [0u8; 32];
        let mut i: usize = 0;
        while i < 32
            invariant
                0 <= i <= 32,
                bytes@.len() == 32,
            decreases 32 - i,
        {
            secret[i] = bytes[i];
            i = i + 1;
        }
        Self::from_secret(secret)
    }

    /// The public key's bytes.
    pub fn public_key(&self) -> (r: Vec<u8>)
        ensures
            r@ == self.public_view(),
    {
        vstd::slice::slice_to_vec(self.public.as_slice())
    }

    /// The public key in standard base64.
    pub fn public_key_b64(&self) -> (r: String)
        ensures
            r@ == base64_of(self.public_view()),
            r@.len() == 44,
            base64_decoded_of(r@) == Some(self.public_view()),
    {
        base64_encode(self.public.as_slice())
    }

    /// The shared key for a session with the peer whose public key is given
    /// in base64. Fails with `InvalidSessionId` when the session identifier is
    /// not a UUID, then with `InvalidPeerKey` when the peer key is not the
    /// base64 of 32 bytes.
    pub fn derive_relay_shared_key(&self, peer_public_b64: &str, session_id: &str) -> (r: Result<
        Vec<u8>,
        PeerError,
    >)
        ensures
            match r {
                Ok(k) => {
                    &&& session_bytes_of(session_id@) matches Some(sid)
                    &&& base64_decoded_of(peer_public_b64@) matches Some(peer)
                    &&& peer.len() == 32
                    &&& k@ == relay_key_spec(self.secret_view(), peer, sid)
                    &&& k@.len() == 32
                },
                Err(e) => {
                    ||| e == PeerError::InvalidSessionId && session_bytes_of(session_id@) is None
                    ||| e == PeerError::InvalidPeerKey && session_bytes_of(session_id@) is Some && (
                    match base64_decoded_of(peer_public_b64@) {
                        Some(peer) => peer.len() != 32,
                        None => true,
                    })
                },
            },
    {
        let sid = parse_session_id(session_id)?;
        let peer = match base64_decode(peer_public_b64) {
            Some(p) => p,
            None => return Err(PeerError::InvalidPeerKey),
        };
        if peer.len() != 32 {
            return Err(PeerError::InvalidPeerKey);
        }
        let mut peer_key = [0u8; 32];
        let mut i: usize = 0;
        while i < 32
            invariant
                0 <= i <= 32,
                peer@.len() == 32,
                forall|j: int| 0 <= j < i ==> peer_key@[j] == peer@[j],
            decreases 32 - i,
        {
            peer_key[i] = peer[i];
            i = i + 1;
        }
        assert(peer_key@ =~= peer@);
        let shared = x25519_shared(&self.secret, &peer_key);
        let info = sid.to_vec();
        Ok(hkdf_sha256(shared.as_slice(), info.as_slice()))
    }
}

/// Two well-formed key pairs derive the same key for a session, each from
/// its own secret and the other's public key.
pub proof fn lemma_shared_key_agreement(a: &E2eeKeyPairHandle, b: &E2eeKeyPairHandle, session: Seq<u8>)
    requires
        a.wf(),
        b.wf(),
    ensures
        relay_key_spec(a.secret_view(), b.public_view(), session) == relay_key_spec(
            b.secret_view(),
            a.public_view(),
            session,
        ),
{
    assert(x25519_shared_of(b.secret_view(), a.public_view()) == x25519_shared_of(
        a.secret_view(),
        x25519_public_of(b.secret_view()),
    ));
}

/// An encrypted relay payload: the session it belongs to, the nonce, and
/// the ciphertext with its tag.
#[derive(Clone, Debug)]
pub struct EncryptedFrame {
    pub session_id: SessionId,
    pub nonce: Vec<u8>,
    pub ciphertext: Vec<u8>,
}

/// The frame that sealing `plain` under `key` and `nonce` in session
/// `session` gives.
pub open spec fn sealed_frame(
    f: EncryptedFrame,
    key: Seq<u8>,
    session: Seq<u8>,
    nonce: Seq<u8>,
    plain: Seq<u8>,
) -> bool {
    &&& f.session_id.bytes@ == session
    &&& f.nonce@ == nonce
    &&& f.ciphertext@ == seal_of(key, nonce, session, plain)
    &&& f.ciphertext@.len() == plain.len() + 16
    &&& open_of(key, nonce, session, f.ciphertext@) == Some(plain)
}

/// The plaintext that opening frame `f` under `key` in session `session`
/// gives, or nothing.
pub open spec fn opened_spec(f: EncryptedFrame, key: Seq<u8>, session: Seq<u8>) -> Option<Seq<u8>> {
    if f.session_id.bytes@ == session && f.nonce@.len() == 12 {
        open_of(key, f.nonce@, session, f.ciphertext@)
    } else {
        None
    }
}

/// Seals a payload with the given nonce. Fails with `InvalidKeyLength` when
/// the key is not 32 bytes, then with `InvalidSessionId` when the session
/// identifier is not a UUID, then with `MalformedMessage` when the nonce is
/// not 12 bytes or the payload is beyond the cipher's limit; it succeeds on
/// every other input.
pub fn encrypt_relay_payload_with_nonce(
    shared_key: &[u8],
    session_id: &str,
    nonce: &[u8],
    plaintext: &[u8],
) -> (r: Result<EncryptedFrame, PeerError>)
    ensures
        (r matches Err(e) && e == PeerError::InvalidKeyLength) <==> shared_key@.len() != 32,
        (r matches Err(e) && e == PeerError::InvalidSessionId) <==> shared_key@.len() == 32
            && session_bytes_of(session_id@) is None,
        (r matches Err(e) && e == PeerError::MalformedMessage) <==> shared_key@.len() == 32
            && session_bytes_of(session_id@) is Some && (nonce@.len() != 12 || plaintext@.len()
            >= 274877906880) && r is Err,
        r is Err ==> r == Err::<EncryptedFrame, PeerError>(PeerError::InvalidKeyLength) || r == Err::<
            EncryptedFrame,
            PeerError,
        >(PeerError::InvalidSessionId) || r == Err::<EncryptedFrame, PeerError>(
            PeerError::MalformedMessage,
        ),
        shared_key@.len() == 32 && session_bytes_of(session_id@) is Some && nonce@.len() == 12
            && plaintext@.len() < 274877906880 ==> r is Ok,
        r matches Ok(f) ==> session_bytes_of(session_id@) matches Some(sid) && sealed_frame(
            f,
            shared_key@,
            sid,
            nonce@,
            plaintext@,
        ),
{
    let key = check_shared_key(shared_key)?;
    let sid = parse_session_id(session_id)?;
    if nonce.len() != NONCE_LEN {
        return Err(PeerError::MalformedMessage);
    }
    let aad = sid.to_vec();
    match aead_seal(key.as_slice(), nonce, aad.as_slice(), plaintext) {
        Some(ct) => Ok(
            EncryptedFrame {
                session_id: sid,
                nonce: vstd::slice::slice_to_vec(nonce),
                ciphertext: ct,
            },
        ),
        None => Err(PeerError::MalformedMessage),
    }
}

/// Seals a payload under a fresh random nonce. Fails with
/// `InvalidKeyLength` when the key is not 32 bytes, then with
/// `InvalidSessionId` when the session identifier is not a UUID, and with
/// `MalformedMessage` only for a payload beyond the cipher's limit; it
/// succeeds on every other input.
pub fn encrypt_relay_payload(shared_key: &[u8], session_id: &str, plaintext: &[u8]) -> (r: Result<
    EncryptedFrame,
    PeerError,
>)
    ensures
        (r matches Err(e) && e == PeerError::InvalidKeyLength) <==> shared_key@.len() != 32,
        (r matches Err(e) && e == PeerError::InvalidSessionId) <==> shared_key@.len() == 32
            && session_bytes_of(session_id@) is None,
        r is Err ==> r == Err::<EncryptedFrame, PeerError>(PeerError::InvalidKeyLength) || r == Err::<
            EncryptedFrame,
            PeerError,
        >(PeerError::InvalidSessionId) || r == Err::<EncryptedFrame, PeerError>(
            PeerError::MalformedMessage,
        ),
        shared_key@.len() == 32 && session_bytes_of(session_id@) is Some && plaintext@.len()
            < 274877906880 ==> r is Ok,
        r matches Ok(f) ==> session_bytes_of(session_id@) matches Some(sid) && f.nonce@.len() == 12
            && sealed_frame(f, shared_key@, sid, f.nonce@, plaintext@),
{
    if shared_key.len() != 32 {
        return Err(PeerError::InvalidKeyLength);
    }
    let nonce = random_bytes(NONCE_LEN);
    encrypt_relay_payload_with_nonce(shared_key, session_id, nonce.as_slice(), plaintext)
}

/// Opens a frame. Fails with `InvalidKeyLength` when the key is not 32
/// bytes, then with `InvalidSessionId` when the session identifier is not a
/// UUID, and otherwise with `AuthenticationFailed` unless the frame belongs
/// to that session and its tag verifies; no plaintext is returned then.
pub fn decrypt_relay_payload(shared_key: &[u8], session_id: &str, frame: &EncryptedFrame) -> (r:
    Result<Vec<u8>, PeerError>)
    ensures
        shared_key@.len() != 32 ==> r == Err::<Vec<u8>, PeerError>(PeerError::InvalidKeyLength),
        shared_key@.len() == 32 && session_bytes_of(session_id@) is None ==> r == Err::<
            Vec<u8>,
            PeerError,
        >(PeerError::InvalidSessionId),
        shared_key@.len() == 32 ==> (session_bytes_of(session_id@) matches Some(sid) ==> match r {
            Ok(p) => opened_spec(*frame, shared_key@, sid) == Some(p@),
            Err(e) => e == PeerError::AuthenticationFailed && opened_spec(
                *frame,
                shared_key@,
                sid,
            ) is None,
        }),
{
    let key = check_shared_key(shared_key)?;
    let sid = parse_session_id(session_id)?;
    open_relay_frame(key.as_slice(), &sid, frame)
}

/// Opens a frame with a 32-byte key in the given session.
pub fn open_relay_frame(key: &[u8], sid: &SessionId, frame: &EncryptedFrame) -> (r: Result<
    Vec<u8>,
    PeerError,
>)
    requires
        key@.len() == 32,
    ensures
        match r {
            Ok(p) => opened_spec(*frame, key@, sid.bytes@) == Some(p@),
            Err(e) => e == PeerError::AuthenticationFailed && opened_spec(
                *frame,
                key@,
                sid.bytes@,
            ) is None,
        },
{
    if !frame.session_id.same_as(sid) || frame.nonce.len() != NONCE_LEN {
        return Err(PeerError::AuthenticationFailed);
    }
    let aad = sid.to_vec();
    match aead_open(key, frame.nonce.as_slice(), aad.as_slice(), frame.ciphertext.as_slice()) {
        Some(p) => Ok(p),
        None => Err(PeerError::AuthenticationFailed),
    }
}

/// Opening a sealed frame with the key, nonce and session it was sealed
/// under gives the plaintext back.
pub proof fn lemma_open_sealed(f: EncryptedFrame, key: Seq<u8>, session: Seq<u8>, plain: Seq<u8>)
    requires
        sealed_frame(f, key, session, f.nonce@, plain),
        f.nonce@.len() == 12,
    ensures
        opened_spec(f, key, session) == Some(plain),
{
}

/// A frame opened under a session other than its own fails, whatever the key.
pub proof fn lemma_wrong_session_fails(f: EncryptedFrame, key: Seq<u8>, session: Seq<u8>)
    requires
        f.session_id.bytes@ != session,
    ensures
        opened_spec(f, key, session) is None,
{
}

} // verus!
