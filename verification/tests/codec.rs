//! The token codec end to end: framing, round trips, expiry, tampering,
//! and interoperability with the JWT library it signs with.

use auth_core::b64::{b64url_decode, b64url_encode};
use auth_core::fingerprint::to_hex;
use auth_core::jwt::{TokenError, create_jwt, decode_jwt, verify_token};
use auth_core::payload::parse_payload;

#[test]
fn b64url_known_vectors() {
    assert_eq!(b64url_encode(b""), "");
    assert_eq!(b64url_encode(b"f"), "Zg");
    assert_eq!(b64url_encode(b"fo"), "Zm8");
    assert_eq!(b64url_encode(b"foo"), "Zm9v");
    assert_eq!(b64url_encode(b"foob"), "Zm9vYg");
    assert_eq!(b64url_encode(b"fooba"), "Zm9vYmE");
    assert_eq!(b64url_encode(b"foobar"), "Zm9vYmFy");
    assert_eq!(b64url_encode(&[0xff, 0xef, 0xbe]), "_---");
}

#[test]
fn b64url_decode_roundtrip() {
    let data: Vec<u8> = (0u16..=255).map(|b| b as u8).collect();
    let encoded = b64url_encode(&data);
    let decoded = b64url_decode(&encoded).expect("canonical encoding decodes");
    assert_eq!(decoded, data);
}

#[test]
fn b64url_decode_rejects_noncanonical() {
    // "Zh" decodes the same leading bits as "Zg" but with nonzero trailing
    // bits; a strict decoder refuses it.
    assert!(b64url_decode("Zg").is_some());
    assert!(b64url_decode("Zh").is_none());
    // A leftover length of one can never arise from the encoder.
    assert!(b64url_decode("Zm9vX").is_none());
    // Characters outside the alphabet are refused.
    assert!(b64url_decode("Zm+v").is_none());
    assert!(b64url_decode("Zm/v").is_none());
    assert!(b64url_decode("Zm9v====").is_none());
}

#[test]
fn payload_parses_canonical_json() {
    let text = b"{\"user_id\":-77,\"exp\":200,\"iat\":100,\"role\":\"admin\"}";
    let claims = parse_payload(text).expect("canonical payload parses");
    assert_eq!(claims.user_id, -77);
    assert_eq!(claims.exp, 200);
    assert_eq!(claims.iat, 100);
    assert_eq!(claims.role, "admin");
}

#[test]
fn payload_rejects_reordered_fields() {
    let text = b"{\"exp\":200,\"user_id\":-77,\"iat\":100,\"role\":\"admin\"}";
    assert!(parse_payload(text).is_none());
    assert!(parse_payload(b"").is_none());
    assert!(parse_payload(b"{}").is_none());
}

#[test]
fn issue_then_verify_roundtrips_subject_and_role() {
    let now: u64 = 1_700_000_000;
    let token = create_jwt(42, "user".to_string(), "top-secret", now).unwrap();
    let claims = verify_token(&token, "top-secret", now + 1000).unwrap();
    assert_eq!(claims.user_id, 42);
    assert_eq!(claims.role, "user");
    assert_eq!(claims.iat, now);
    assert_eq!(claims.exp, now + 86400);
}

#[test]
fn verify_one_second_after_expiry_fails_expired_not_invalid() {
    let now: u64 = 1_700_000_000;
    let token = create_jwt(42, "user".to_string(), "top-secret", now).unwrap();
    let exp = now + 86400;
    assert!(verify_token(&token, "top-secret", exp).is_ok());
    let failure = verify_token(&token, "top-secret", exp + 1).unwrap_err();
    assert_eq!(failure, TokenError::Expired);
}

#[test]
fn verify_rejects_wrong_secret_and_tampering() {
    let now: u64 = 1_700_000_000;
    let token = create_jwt(42, "user".to_string(), "top-secret", now).unwrap();
    assert_eq!(
        verify_token(&token, "other-secret", now).unwrap_err(),
        TokenError::Invalid
    );
    let mut tampered = token.clone();
    let dot = tampered.rfind('.').unwrap();
    tampered.replace_range(dot + 1..dot + 2, "x");
    assert_eq!(
        verify_token(&tampered, "top-secret", now).unwrap_err(),
        TokenError::Invalid
    );
    assert_eq!(
        verify_token("definitely not a token", "top-secret", now).unwrap_err(),
        TokenError::Invalid
    );
    assert_eq!(
        verify_token("", "top-secret", now).unwrap_err(),
        TokenError::Invalid
    );
}

#[test]
fn decode_jwt_maps_failures_to_unauthorized() {
    let now: u64 = 1_700_000_000;
    let token = create_jwt(7, "admin".to_string(), "s", now).unwrap();
    assert!(decode_jwt(&token, "s", now).is_ok());
    let expired = decode_jwt(&token, "s", now + 86401).unwrap_err();
    assert_eq!(expired.status_code(), 401);
    assert_eq!(expired.message(), "Unauthorized: Authentication token expired");
    let invalid = decode_jwt(&token, "wrong", now).unwrap_err();
    assert_eq!(invalid.status_code(), 401);
    assert_eq!(invalid.message(), "Unauthorized: Invalid authentication token");
}

#[test]
fn issued_tokens_interoperate_with_the_jwt_library() {
    let now: u64 = 1_700_000_000;
    let token = create_jwt(-9, "guest".to_string(), "shared-secret", now).unwrap();
    let key = jsonwebtoken::DecodingKey::from_secret(b"shared-secret");
    let mut validation = jsonwebtoken::Validation::new(jsonwebtoken::Algorithm::HS256);
    validation.validate_exp = false;
    validation.required_spec_claims.clear();
    let data = jsonwebtoken::decode::<serde_json::Value>(&token, &key, &validation)
        .expect("the library accepts the token and its signature");
    assert_eq!(data.claims.get("user_id").and_then(|v| v.as_i64()), Some(-9));
    assert_eq!(data.claims.get("iat").and_then(|v| v.as_u64()), Some(now));
    assert_eq!(data.claims.get("exp").and_then(|v| v.as_u64()), Some(now + 86400));
    assert_eq!(data.claims.get("role").and_then(|v| v.as_str()), Some("guest"));
}

#[test]
fn hex_rendering_is_exact() {
    assert_eq!(to_hex(&[]), "");
    assert_eq!(to_hex(&[0xbe, 0xef]), "beef");
    assert_eq!(to_hex(&[0x00, 0x0f, 0xa0]), "000fa0");
}
