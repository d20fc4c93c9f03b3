//! Tokens, payloads, passwords, and cookies, exercised end to end against
//! the real cryptographic backends.

use account_auth::claims::{Claims, Purpose};
use account_auth::codec::u64_to_string;
use account_auth::cookie::{extract_cookie_value, get_max_age_seconds, set_cookie_value};
use account_auth::password::{ar_hash_password, ar_verify_password, hash_round_trip, HashingError};
use account_auth::payload::{claims_payload, parse_payload};
use account_auth::token::{decode_token, encode_jwt, issue_with, token_round_trip, DecodeTokenError};
use base64::Engine;

const SECRET: &str = "a-test-signing-secret";

fn sample_claims() -> Claims {
    Claims {
        email: String::from("alice@example.com"),
        exp: 2_000_000,
        iat: 1_000_000,
        purpose: Purpose::Auth,
    }
}

#[test]
fn payload_renders_fixed_json_shape() {
    let c = Claims {
        email: String::from("a@b.com"),
        exp: 20,
        iat: 10,
        purpose: Purpose::Auth,
    };
    assert_eq!(
        claims_payload(&c),
        "{\"email\":\"a@b.com\",\"exp\":20,\"iat\":10,\"purpose\":\"auth\"}"
    );
}

#[test]
fn payload_round_trips_each_purpose() {
    for purpose in [Purpose::Auth, Purpose::EmailVerify, Purpose::ResetPassword] {
        let c = Claims {
            email: String::from("user@host.org"),
            exp: 999,
            iat: 5,
            purpose,
        };
        let rendered = claims_payload(&c);
        let back = parse_payload(&rendered).expect("canonical payload must parse");
        assert_eq!(back.email, c.email);
        assert_eq!(back.exp, c.exp);
        assert_eq!(back.iat, c.iat);
        assert!(back.purpose == c.purpose);
    }
}

#[test]
fn payload_rejects_noncanonical_texts() {
    assert!(parse_payload("").is_none());
    assert!(parse_payload("{}").is_none());
    // Trailing junk.
    assert!(parse_payload("{\"email\":\"a@b.com\",\"exp\":20,\"iat\":10,\"purpose\":\"auth\"} ").is_none());
    // Leading zero in a numeral.
    assert!(parse_payload("{\"email\":\"a@b.com\",\"exp\":020,\"iat\":10,\"purpose\":\"auth\"}").is_none());
    // Unknown purpose tag.
    assert!(parse_payload("{\"email\":\"a@b.com\",\"exp\":20,\"iat\":10,\"purpose\":\"admin\"}").is_none());
    // Number too large for u64.
    assert!(parse_payload(
        "{\"email\":\"a@b.com\",\"exp\":99999999999999999999,\"iat\":10,\"purpose\":\"auth\"}"
    )
    .is_none());
}

#[test]
fn decimal_rendering_is_exact() {
    assert_eq!(u64_to_string(0), "0");
    assert_eq!(u64_to_string(7), "7");
    assert_eq!(u64_to_string(3600), "3600");
    assert_eq!(u64_to_string(u64::MAX), "18446744073709551615");
}

#[test]
fn token_round_trips_before_expiry() {
    let c = sample_claims();
    let token = issue_with(&c, SECRET);
    let back = decode_token(&token, SECRET, c.exp - 1).expect("fresh token must verify");
    assert_eq!(back.email, c.email);
    assert_eq!(back.exp, c.exp);
    assert_eq!(back.iat, c.iat);
    assert!(back.purpose == c.purpose);
}

#[test]
fn token_is_base64_framed() {
    // The payload travels encoded: no raw JSON characters survive in the
    // token text.
    let token = issue_with(&sample_claims(), SECRET);
    assert!(!token.contains('"'));
    assert!(!token.contains('{'));
    assert_eq!(token.matches('.').count(), 2);
}

#[test]
fn expired_token_fails_with_expired_even_when_well_signed() {
    let c = sample_claims();
    let token = issue_with(&c, SECRET);
    assert!(matches!(
        decode_token(&token, SECRET, c.exp),
        Err(DecodeTokenError::Expired)
    ));
    assert!(matches!(
        decode_token(&token, SECRET, c.exp + 50_000),
        Err(DecodeTokenError::Expired)
    ));
}

#[test]
fn flipped_signature_byte_fails_with_invalid_signature() {
    let c = sample_claims();
    let token = issue_with(&c, SECRET);
    let dot = token.rfind('.').unwrap();
    let (head, sig) = token.split_at(dot + 1);
    let mut chars: Vec<char> = sig.chars().collect();
    chars[0] = if chars[0] == 'A' { 'B' } else { 'A' };
    let tampered: String = head.chars().chain(chars.into_iter()).collect();
    assert_ne!(tampered, token);
    assert!(matches!(
        decode_token(&tampered, SECRET, c.iat + 1),
        Err(DecodeTokenError::InvalidSignature)
    ));
}

#[test]
fn wrong_secret_fails_with_invalid_signature() {
    let c = sample_claims();
    let token = issue_with(&c, SECRET);
    assert!(matches!(
        decode_token(&token, "some-other-secret", c.iat + 1),
        Err(DecodeTokenError::InvalidSignature)
    ));
}

#[test]
fn garbage_tokens_are_rejected() {
    assert!(matches!(
        decode_token("", SECRET, 0),
        Err(DecodeTokenError::InvalidSignature)
    ));
    assert!(matches!(
        decode_token("not-a-token", SECRET, 0),
        Err(DecodeTokenError::InvalidSignature)
    ));
    assert!(matches!(
        decode_token("a.b.c.d", SECRET, 0),
        Err(DecodeTokenError::InvalidSignature)
    ));
}

#[test]
fn well_signed_garbage_payload_is_malformed() {
    // A correct header and a correct signature over a payload that encodes no
    // claims must fail at the schema step, not the signature step.
    let eng = &base64::engine::general_purpose::URL_SAFE_NO_PAD;
    let header = eng.encode("{\"alg\":\"HS256\",\"typ\":\"JWT\"}".as_bytes());
    let payload = eng.encode("this is no claims payload".as_bytes());
    let msg = format!("{}.{}", header, payload);
    let sig = jsonwebtoken::crypto::sign(
        msg.as_bytes(),
        &jsonwebtoken::EncodingKey::from_secret(SECRET.as_bytes()),
        jsonwebtoken::Algorithm::HS256,
    )
    .unwrap();
    let token = format!("{}.{}", msg, sig);
    assert!(matches!(
        decode_token(&token, SECRET, 0),
        Err(DecodeTokenError::MalformedClaims)
    ));
}

#[test]
fn encode_jwt_sets_window_and_purpose() {
    let token = encode_jwt("bob@example.com", Purpose::EmailVerify, 1, 500_000, SECRET);
    let back = decode_token(&token, SECRET, 500_001).expect("fresh token must verify");
    assert_eq!(back.email, "bob@example.com");
    assert_eq!(back.iat, 500_000);
    assert_eq!(back.exp, 503_600);
    assert!(back.purpose == Purpose::EmailVerify);
}

#[test]
fn hash_round_trip_answers_true() {
    assert_eq!(hash_round_trip("a perfectly fine password"), Ok(true));
}

#[test]
fn token_round_trip_returns_the_claims() {
    let c = sample_claims();
    let back = token_round_trip(&c, SECRET, c.exp - 1).expect("round trip must succeed");
    assert_eq!(back.email, c.email);
    assert_eq!(back.exp, c.exp);
    assert_eq!(back.iat, c.iat);
    assert!(back.purpose == c.purpose);
}

#[test]
fn password_hash_verifies_and_rejects() {
    let hash = ar_hash_password("correct horse battery").expect("hashing must succeed");
    // One-way: the stored text is not the password.
    assert_ne!(hash, "correct horse battery");
    assert_eq!(ar_verify_password("correct horse battery", &hash), Ok(true));
    assert_eq!(ar_verify_password("wrong horse battery", &hash), Ok(false));
}

#[test]
fn distinct_salts_still_verify() {
    let h1 = ar_hash_password("pw-number-one").unwrap();
    let h2 = ar_hash_password("pw-number-one").unwrap();
    assert_eq!(ar_verify_password("pw-number-one", &h1), Ok(true));
    assert_eq!(ar_verify_password("pw-number-one", &h2), Ok(true));
}

#[test]
fn malformed_stored_hash_is_an_error_not_a_mismatch() {
    assert_eq!(
        ar_verify_password("anything-at-all", "not-a-phc-string"),
        Err(HashingError::MalformedHash)
    );
}

#[test]
fn cookie_lookup_finds_trimmed_segments() {
    assert_eq!(
        extract_cookie_value("visit=tok123; theme=dark", "visit"),
        Some(String::from("tok123"))
    );
    assert_eq!(
        extract_cookie_value("theme=dark;  visit=abc", "visit"),
        Some(String::from("abc"))
    );
    assert_eq!(extract_cookie_value("theme=dark", "visit"), None);
    assert_eq!(extract_cookie_value("", "visit"), None);
    // A name that only extends the wanted one does not match.
    assert_eq!(extract_cookie_value("visits=a", "visit"), None);
    // The first matching segment wins.
    assert_eq!(
        extract_cookie_value("visit=first; visit=second", "visit"),
        Some(String::from("first"))
    );
}

#[test]
fn set_cookie_value_is_exact() {
    assert_eq!(
        set_cookie_value("tok", "7200"),
        "visit=tok; Path=/; HttpOnly; Secure; SameSite=Lax; Max-Age=7200"
    );
}

#[test]
fn max_age_seconds_is_hours_times_3600() {
    assert_eq!(get_max_age_seconds(2), "7200");
    assert_eq!(get_max_age_seconds(12), "43200");
}
