use ed25519_dalek::{Signer, SigningKey};
use interaction_core::auth::{hex_decode, verify_signature, AuthError};

fn to_hex(bytes: &[u8]) -> String {
    let mut out = String::new();
    for b in bytes {
        out.push_str(&format!("{:02x}", b));
    }
    out
}

fn signed_request() -> (String, String, String, Vec<u8>) {
    let signing_key = SigningKey::from_bytes(&[7u8; 32]);
    let public_key = to_hex(signing_key.verifying_key().as_bytes());
    let timestamp = "1660000000".to_string();
    let body = br#"{"type":1}"#.to_vec();
    let mut message = timestamp.as_bytes().to_vec();
    message.extend_from_slice(&body);
    let signature = to_hex(&signing_key.sign(&message).to_bytes());
    (public_key, signature, timestamp, body)
}

#[test]
fn valid_signature_verifies() {
    let (public_key, signature, timestamp, body) = signed_request();
    assert_eq!(
        verify_signature(&public_key, Some(&signature), Some(&timestamp), &body),
        Ok(())
    );
}

#[test]
fn flipped_signature_byte_fails() {
    let (public_key, signature, timestamp, body) = signed_request();
    let mut bytes = hex_decode(&signature).unwrap();
    bytes[10] ^= 1;
    let tampered = to_hex(&bytes);
    assert_eq!(
        verify_signature(&public_key, Some(&tampered), Some(&timestamp), &body),
        Err(AuthError::Rejected)
    );
}

#[test]
fn flipped_timestamp_byte_fails() {
    let (public_key, signature, timestamp, body) = signed_request();
    let tampered = timestamp.replace('6', "7");
    assert_ne!(tampered, timestamp);
    assert_eq!(
        verify_signature(&public_key, Some(&signature), Some(&tampered), &body),
        Err(AuthError::Rejected)
    );
}

#[test]
fn flipped_body_byte_fails() {
    let (public_key, signature, timestamp, body) = signed_request();
    let mut tampered = body.clone();
    tampered[0] ^= 1;
    assert_eq!(
        verify_signature(&public_key, Some(&signature), Some(&timestamp), &tampered),
        Err(AuthError::Rejected)
    );
}

#[test]
fn missing_headers_fail_without_a_crash() {
    let (public_key, signature, timestamp, body) = signed_request();
    assert_eq!(
        verify_signature(&public_key, None, Some(&timestamp), &body),
        Err(AuthError::MissingSignature)
    );
    assert_eq!(
        verify_signature(&public_key, Some(&signature), None, &body),
        Err(AuthError::MissingTimestamp)
    );
}

#[test]
fn malformed_material_fails() {
    let (public_key, signature, timestamp, body) = signed_request();
    // Key that is no hex.
    assert_eq!(
        verify_signature("zz", Some(&signature), Some(&timestamp), &body),
        Err(AuthError::MalformedKey)
    );
    // Key of the wrong length.
    assert_eq!(
        verify_signature("abcd", Some(&signature), Some(&timestamp), &body),
        Err(AuthError::MalformedKey)
    );
    // Signature that is no hex, and one of the wrong length.
    assert_eq!(
        verify_signature(&public_key, Some("not-hex"), Some(&timestamp), &body),
        Err(AuthError::MalformedSignature)
    );
    assert_eq!(
        verify_signature(&public_key, Some("abcd"), Some(&timestamp), &body),
        Err(AuthError::MalformedSignature)
    );
}

#[test]
fn wrong_key_rejects() {
    let (_, signature, timestamp, body) = signed_request();
    let other_key = to_hex(SigningKey::from_bytes(&[9u8; 32]).verifying_key().as_bytes());
    assert_eq!(
        verify_signature(&other_key, Some(&signature), Some(&timestamp), &body),
        Err(AuthError::Rejected)
    );
}

#[test]
fn error_messages_are_fixed() {
    assert_eq!(AuthError::MissingSignature.message(), "Missing signature header");
    assert_eq!(AuthError::MissingTimestamp.message(), "Missing timestamp header");
    assert_eq!(AuthError::MalformedKey.message(), "Malformed public key");
    assert_eq!(AuthError::MalformedSignature.message(), "Malformed signature");
    assert_eq!(AuthError::Rejected.message(), "Invalid request signature");
}

#[test]
fn hex_decode_exact_values() {
    assert_eq!(hex_decode(""), Some(Vec::new()));
    assert_eq!(hex_decode("00ff"), Some(vec![0u8, 255u8]));
    assert_eq!(hex_decode("DEADbeef"), Some(vec![0xde, 0xad, 0xbe, 0xef]));
    assert_eq!(hex_decode("abc"), None);
    assert_eq!(hex_decode("0g"), None);
}
