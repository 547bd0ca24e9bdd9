//! Request authentication: an inbound request carries a hex signature and a
//! timestamp in two headers, and is genuine exactly when the signature
//! verifies over `timestamp ∥ body` under the platform's Ed25519 public
//! key. This check runs before any other processing; its failure
//! short-circuits the request and never reaches command dispatch.

use vstd::prelude::*;
use vstd::slice::slice_to_vec;
use vstd::string::StrSliceExecFns;
use vstd::string::StringSliceAdditionalSpecFns;
use vstd::string::StringExecFns;

verus! {

/// Why authentication failed. Missing or malformed material is rejected
/// without a crash.
#[derive(Clone, Copy, PartialEq, Eq, Structural, Debug)]
pub enum AuthError {
    MissingSignature,
    MissingTimestamp,
    MalformedKey,
    MalformedSignature,
    Rejected,
}

impl AuthError {
    /// The plain-text reason sent with the unauthenticated response.
    pub fn message(&self) -> (r: String)
        ensures
            r@ == (match *self {
                AuthError::MissingSignature => "Missing signature header"@,
                AuthError::MissingTimestamp => "Missing timestamp header"@,
                AuthError::MalformedKey => "Malformed public key"@,
                AuthError::MalformedSignature => "Malformed signature"@,
                AuthError::Rejected => "Invalid request signature"@,
            }),
    {
        match self {
            AuthError::MissingSignature => String::from_str("Missing signature header"),
            AuthError::MissingTimestamp => String::from_str("Missing timestamp header"),
            AuthError::MalformedKey => String::from_str("Malformed public key"),
            AuthError::MalformedSignature => String::from_str("Malformed signature"),
            AuthError::Rejected => String::from_str("Invalid request signature"),
        }
    }
}

/// The value of a hexadecimal digit, upper or lower case.
pub open spec fn hex_digit_val(c: char) -> Option<int> {
    let u = c as u32;
    if 48 <= u <= 57 {
        Some(u - 48)
    } else if 97 <= u <= 102 {
        Some(u - 87)
    } else if 65 <= u <= 70 {
        Some(u - 55)
    } else {
        None
    }
}

/// The bytes a hex string denotes: two digits per byte, high digit first;
/// nothing when a character is no hex digit or the length is odd.
pub open spec fn spec_hex_decode(s: Seq<char>) -> Option<Seq<u8>>
    decreases s.len(),
{
    if s.len() == 0 {
        Some(Seq::empty())
    } else if s.len() == 1 {
        None
    } else {
        match (hex_digit_val(s[0]), hex_digit_val(s[1]), spec_hex_decode(s.skip(2))) {
            (Some(h), Some(l), Some(rest)) => Some(seq![(16 * h + l) as u8] + rest),
            _ => None,
        }
    }
}

/// Decides `hex_digit_val` on one character.
fn hex_digit(c: char) -> (r: Option<u8>)
    ensures
        match r {
            Some(b) => hex_digit_val(c) == Some(b as int) && b < 16,
            None => hex_digit_val(c) is None,
        },
{
    let u = c as u32;
    if 48 <= u && u <= 57 {
        Some((u - 48) as u8)
    } else if 97 <= u && u <= 102 {
        Some((u - 87) as u8)
    } else if 65 <= u && u <= 70 {
        Some((u - 55) as u8)
    } else {
        None
    }
}

/// Decodes a hex string, mirroring `spec_hex_decode`.
pub fn hex_decode(s: &str) -> (r: Option<Vec<u8>>)
    ensures
        match r {
            Some(v) => spec_hex_decode(s@) == Some(v@),
            None => spec_hex_decode(s@) is None,
        },
    decreases s@.len(),
{
    let len = s.unicode_len();
    if len == 0 {
        let v: Vec<u8> = Vec::new();
        proof {
            assert(v@ =~= Seq::<u8>::empty());
        }
        Some(v)
    } else if len == 1 {
        None
    } else {
        let h = hex_digit(s.get_char(0));
        let l = hex_digit(s.get_char(1));
        match (h, l) {
            (Some(hb), Some(lb)) => {
                let rest_str = s.substring_char(2, len);
                proof {
                    assert(rest_str@ =~= s@.skip(2));
                }
                match hex_decode(rest_str) {
                    Some(rest) => {
                        let mut v: Vec<u8> = Vec::new();
                        v.push(16 * hb + lb);
                        let ghost head = v@;
                        let mut rest = rest;
                        v.append(&mut rest);
                        proof {
                            assert(head =~= seq![(16 * (hb as int) + lb as int) as u8]);
                        }
                        Some(v)
                    },
                    None => None,
                }
            },
            _ => None,
        }
    }
}

/// Whether the platform's Ed25519 scheme accepts `sig` as a signature of
/// `msg` under the public key `key`. A function of the three byte strings
/// alone.
pub uninterp spec fn ed25519_accepts(key: Seq<u8>, msg: Seq<u8>, sig: Seq<u8>) -> bool;

/// Relies on ed25519_dalek: VerifyingKey::from_bytes, Signature::from_bytes
/// and Verifier::verify together decide signature validity from the key,
/// message and signature bytes alone; a key that is no valid curve point
/// verifies nothing.
#[verifier::external_body]
fn ed25519_verify(key: &Vec<u8>, msg: &Vec<u8>, sig: &Vec<u8>) -> (r: bool)
    requires
        key@.len() == 32,
        sig@.len() == 64,
    ensures
        r == ed25519_accepts(key@, msg@, sig@),
{
    let key_arr: [u8; 32] = key.as_slice().try_into().unwrap();
    let sig_arr: [u8; 64] = sig.as_slice().try_into().unwrap();
    match ed25519_dalek::VerifyingKey::from_bytes(&key_arr) {
        Ok(vk) => {
            let signature = ed25519_dalek::Signature::from_bytes(&sig_arr);
            ed25519_dalek::Verifier::verify(&vk, msg.as_slice(), &signature).is_ok()
        },
        Err(_) => false,
    }
}

/// What verification decides, given the key text, the two header values and
/// the body bytes: every missing or malformed input has its own error, and
/// an intact one is accepted exactly when the scheme accepts the signature
/// over `timestamp ∥ body`.
pub open spec fn spec_verify(
    pk: Seq<char>,
    sig: Option<Seq<char>>,
    ts: Option<Seq<u8>>,
    body: Seq<u8>,
) -> Result<(), AuthError> {
    if sig is None {
        Err(AuthError::MissingSignature)
    } else if ts is None {
        Err(AuthError::MissingTimestamp)
    } else if spec_hex_decode(pk) is None || spec_hex_decode(pk)->Some_0.len() != 32 {
        Err(AuthError::MalformedKey)
    } else if spec_hex_decode(sig->Some_0) is None || spec_hex_decode(sig->Some_0)->Some_0.len()
        != 64 {
        Err(AuthError::MalformedSignature)
    } else if ed25519_accepts(
        spec_hex_decode(pk)->Some_0,
        ts->Some_0 + body,
        spec_hex_decode(sig->Some_0)->Some_0,
    ) {
        Ok(())
    } else {
        Err(AuthError::Rejected)
    }
}

/// Verifies that a request was genuinely sent by the platform. `public_key`
/// is the hex public key fixed at process start; `signature` and
/// `timestamp` are the two request headers, absent when the request lacked
/// them; `body` is the exact raw body bytes — any re-encoding invalidates
/// the signature. Pure validation, no side effects.
pub fn verify_signature(
    public_key: &str,
    signature: Option<&str>,
    timestamp: Option<&str>,
    body: &[u8],
) -> (r: Result<(), AuthError>)
    ensures
        r == spec_verify(
            public_key@,
            (match signature {
                Some(s) => Some(s@),
                None => None,
            }),
            (match timestamp {
                Some(t) => Some(t.spec_bytes()),
                None => None,
            }),
            body@,
        ),
{
    let sig_text = match signature {
        Some(s) => s,
        None => {
            return Err(AuthError::MissingSignature);
        },
    };
    let ts = match timestamp {
        Some(t) => t,
        None => {
            return Err(AuthError::MissingTimestamp);
        },
    };
    let key_bytes = match hex_decode(public_key) {
        Some(k) => k,
        None => {
            return Err(AuthError::MalformedKey);
        },
    };
    if key_bytes.len() != 32 {
        return Err(AuthError::MalformedKey);
    }
    let sig_bytes = match hex_decode(sig_text) {
        Some(s) => s,
        None => {
            return Err(AuthError::MalformedSignature);
        },
    };
    if sig_bytes.len() != 64 {
        return Err(AuthError::MalformedSignature);
    }
    let mut msg = slice_to_vec(ts.as_bytes());
    let mut body_vec = slice_to_vec(body);
    msg.append(&mut body_vec);
    if ed25519_verify(&key_bytes, &msg, &sig_bytes) {
        Ok(())
    } else {
        Err(AuthError::Rejected)
    }
}

} // verus!
