//! Relay session identifiers and shared keys.

use vstd::prelude::*;

use crate::error::PeerError;

verus! {

/// The length of a shared key, in bytes.
pub const SHARED_KEY_LEN: usize = 32;

/// What `uuid::Uuid::parse_str` makes of a text: its 16 bytes, or nothing.
pub uninterp spec fn uuid_bytes_of(s: Seq<char>) -> Option<Seq<u8>>;

/// Relies on uuid::Uuid::parse_str, which accepts a UUID in its simple,
/// hyphenated, braced or URN form; inputs of any other length are refused
/// before a character is read, and 36 characters with hyphens at 8, 13, 18
/// and 23 and hex digits of either case elsewhere always parse.
#[verifier::external_body]
fn uuid_parse(s: &str) -> (r: Option<[u8; 16]>)
    ensures
        match r {
            Some(b) => uuid_bytes_of(s@) == Some(b@),
            None => uuid_bytes_of(s@) is None,
        },
        r is Some ==> (s@.len() == 32 || s@.len() == 36 || s@.len() == 38 || s@.len() == 45),
        is_hyphenated_uuid(s@) ==> r is Some,
{
    uuid::Uuid::parse_str(s).ok().map(|u| *u.as_bytes())
}

pub open spec fn is_hex_digit(c: char) -> bool {
    ('0' <= c && c <= '9') || ('a' <= c && c <= 'f') || ('A' <= c && c <= 'F')
}

/// The canonical text of a UUID: 8-4-4-4-12 hex digits joined by hyphens.
pub open spec fn is_hyphenated_uuid(s: Seq<char>) -> bool {
    &&& s.len() == 36
    &&& forall|i: int|
        0 <= i < 36 ==> if i == 8 || i == 13 || i == 18 || i == 23 {
            #[trigger] s[i] == '-'
        } else {
            is_hex_digit(s[i])
        }
}

/// The bytes of a session identifier's text, if it is a canonical UUID.
pub open spec fn session_bytes_of(s: Seq<char>) -> Option<Seq<u8>> {
    if is_hyphenated_uuid(s) {
        uuid_bytes_of(s)
    } else {
        None
    }
}

/// Whether a text has the canonical UUID shape.
pub fn check_uuid_shape(s: &str) -> (r: bool)
    ensures
        r == is_hyphenated_uuid(s@),
{
    let n = s.unicode_len();
    if n != 36 {
        return false;
    }
    let mut i: usize = 0;
    while i < 36
        invariant
            0 <= i <= 36,
            s@.len() == 36,
            forall|j: int|
                0 <= j < i ==> if j == 8 || j == 13 || j == 18 || j == 23 {
                    #[trigger] s@[j] == '-'
                } else {
                    is_hex_digit(s@[j])
                },
        decreases 36 - i,
    {
        let c = s.get_char(i);
        if i == 8 || i == 13 || i == 18 || i == 23 {
            if c != '-' {
                return false;
            }
        } else if !(('0' <= c && c <= '9') || ('a' <= c && c <= 'f') || ('A' <= c && c <= 'F')) {
            return false;
        }
        i = i + 1;
    }
    true
}

/// A 128-bit session identifier, held as its 16 bytes.
#[derive(Clone, Copy, Debug, PartialEq, Eq)]
pub struct SessionId {
    pub bytes: [u8; 16],
}

/// Parses a session identifier; fails with `InvalidSessionId` exactly when
/// the text is not a UUID in its canonical hyphenated form.
pub fn parse_session_id(s: &str) -> (r: Result<SessionId, PeerError>)
    ensures
        match r {
            Ok(id) => is_hyphenated_uuid(s@) && session_bytes_of(s@) == Some(id.bytes@),
            Err(e) => e == PeerError::InvalidSessionId && !is_hyphenated_uuid(s@)
                && session_bytes_of(s@) is None,
        },
{
    if !check_uuid_shape(s) {
        return Err(PeerError::InvalidSessionId);
    }
    match uuid_parse(s) {
        Some(b) => Ok(SessionId { bytes: b }),
        None => Err(PeerError::InvalidSessionId),
    }
}

impl SessionId {
    /// The identifier's bytes, as a vector.
    pub fn to_vec(&self) -> (r: Vec<u8>)
        ensures
            r@ == self.bytes@,
    {
        vstd::slice::slice_to_vec(self.bytes.as_slice())
    }

    /// Whether two identifiers are the same.
    pub fn same_as(&self, other: &SessionId) -> (r: bool)
        ensures
            r == (self.bytes@ == other.bytes@),
    {
        let mut i: usize = 0;
        while i < 16
            invariant
                0 <= i <= 16,
                forall|j: int| 0 <= j < i ==> self.bytes@[j] == other.bytes@[j],
            decreases 16 - i,
        {
            if self.bytes[i] != other.bytes[i] {
                return false;
            }
            i = i + 1;
        }
        assert(self.bytes@ =~= other.bytes@);
        true
    }
}

/// Checks that a shared key is exactly 32 bytes long and copies it; fails
/// with `InvalidKeyLength` otherwise.
pub fn check_shared_key(key: &[u8]) -> (r: Result<Vec<u8>, PeerError>)
    ensures
        match r {
            Ok(k) => key@.len() == 32 && k@ == key@,
            Err(e) => e == PeerError::InvalidKeyLength && key@.len() != 32,
        },
{
    if key.len() != SHARED_KEY_LEN {
        return Err(PeerError::InvalidKeyLength);
    }
    Ok(vstd::slice::slice_to_vec(key))
}

} // verus!
