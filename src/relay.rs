//! Requests to a relay server, checked before anything reaches the network.

use vstd::prelude::*;

use crate::e2ee::{encrypt_relay_payload, open_relay_frame, opened_spec, sealed_frame, EncryptedFrame};
use crate::error::PeerError;
use crate::session::{check_shared_key, parse_session_id, session_bytes_of, SessionId};

verus! {

/// Registers interest in a session with the relay.
#[derive(Clone, Debug)]
pub struct BindRequest {
    pub token: String,
    pub session_id: SessionId,
}

/// What a relayed frame carries.
#[derive(Clone, Debug)]
pub enum RelayPayload {
    /// Structured data in the clear, as JSON text.
    Plain(Vec<u8>),
    /// Structured data sealed end to end.
    Sealed(EncryptedFrame),
}

/// One payload to forward to the other party of a session.
#[derive(Clone, Debug)]
pub struct SendRequest {
    pub token: String,
    pub session_id: SessionId,
    pub payload: RelayPayload,
}

/// The bind request for a session; fails with `InvalidSessionId`, before any
/// network call, exactly when the identifier is not a UUID.
pub fn relay_bind_request(token: String, session_id: &str) -> (r: Result<BindRequest, PeerError>)
    ensures
        match r {
            Ok(b) => b.token@ == token@ && session_bytes_of(session_id@) == Some(b.session_id.bytes@),
            Err(e) => e == PeerError::InvalidSessionId && session_bytes_of(session_id@) is None,
        },
{
    let sid = parse_session_id(session_id)?;
    Ok(BindRequest { token, session_id: sid })
}

/// The request that forwards a payload in the clear; fails with
/// `InvalidSessionId` exactly when the identifier is not a UUID.
pub fn relay_send_request(token: String, session_id: &str, payload: Vec<u8>) -> (r: Result<
    SendRequest,
    PeerError,
>)
    ensures
        match r {
            Ok(q) => {
                &&& q.token@ == token@
                &&& session_bytes_of(session_id@) == Some(q.session_id.bytes@)
                &&& q.payload matches RelayPayload::Plain(p) && p@ == payload@
            },
            Err(e) => e == PeerError::InvalidSessionId && session_bytes_of(session_id@) is None,
        },
{
    let sid = parse_session_id(session_id)?;
    Ok(SendRequest { token, session_id: sid, payload: RelayPayload::Plain(payload) })
}

/// The request that forwards a payload sealed under `shared_key`. Fails
/// with `InvalidKeyLength` when the key is not 32 bytes, then with
/// `InvalidSessionId` when the identifier is not a UUID; it succeeds for
/// every payload within the cipher's limit.
pub fn relay_send_e2ee_request(
    token: String,
    session_id: &str,
    shared_key: &[u8],
    plaintext: &[u8],
) -> (r: Result<SendRequest, PeerError>)
    ensures
        (r matches Err(e) && e == PeerError::InvalidKeyLength) <==> shared_key@.len() != 32,
        (r matches Err(e) && e == PeerError::InvalidSessionId) <==> shared_key@.len() == 32
            && session_bytes_of(session_id@) is None,
        shared_key@.len() == 32 && session_bytes_of(session_id@) is Some && plaintext@.len()
            < 274877906880 ==> r is Ok,
        r matches Ok(q) ==> {
            &&& q.token@ == token@
            &&& session_bytes_of(session_id@) == Some(q.session_id.bytes@)
            &&& q.payload matches RelayPayload::Sealed(f) && f.nonce@.len() == 12 && sealed_frame(
                f,
                shared_key@,
                q.session_id.bytes@,
                f.nonce@,
                plaintext@,
            )
        },
{
    check_shared_key(shared_key)?;
    let sid = parse_session_id(session_id)?;
    let frame = encrypt_relay_payload(shared_key, session_id, plaintext)?;
    Ok(SendRequest { token, session_id: sid, payload: RelayPayload::Sealed(frame) })
}

/// Opens a sealed frame that arrived from the relay, in the session the
/// frame names. Fails with `InvalidKeyLength` when the key is not 32 bytes,
/// and with `AuthenticationFailed` when the frame does not open.
pub fn open_received_frame(shared_key: &[u8], frame: &EncryptedFrame) -> (r: Result<
    Vec<u8>,
    PeerError,
>)
    ensures
        shared_key@.len() != 32 ==> (r matches Err(e) && e == PeerError::InvalidKeyLength),
        shared_key@.len() == 32 ==> match r {
            Ok(p) => opened_spec(*frame, shared_key@, frame.session_id.bytes@) == Some(p@),
            Err(e) => e == PeerError::AuthenticationFailed && opened_spec(
                *frame,
                shared_key@,
                frame.session_id.bytes@,
            ) is None,
        },
{
    let key = check_shared_key(shared_key)?;
    open_relay_frame(key.as_slice(), &frame.session_id, frame)
}

/// The reason sent with a close: the caller's, or `"closed"`.
pub fn close_reason(reason: Option<String>) -> (r: String)
    ensures
        match reason {
            Some(s) => r@ == s@,
            None => r@ == "closed"@,
        },
{
    match reason {
        Some(s) => s,
        None => String::from_str("closed"),
    }
}

} // verus!
