use aether_proxy::auth::{constant_time_eq, parse_credential, validate_proxy_auth, AuthError};
use base64::Engine;
use hmac::Mac;

const SECRET: &[u8] = b"shared-secret";
const NODE: &str = "node-7";
const NOW: u64 = 1_700_000_000;

fn hex_mac(secret: &[u8], msg: &str) -> String {
    let mut mac = hmac::Hmac::<sha2::Sha256>::new_from_slice(secret).unwrap();
    mac.update(msg.as_bytes());
    mac.finalize().into_bytes().iter().map(|b| format!("{:02x}", b)).collect()
}

fn header_for(payload: &str) -> String {
    format!("Basic {}", base64::engine::general_purpose::STANDARD.encode(payload))
}

fn credential(secret: &[u8], identity: &str, ts: u64) -> String {
    let msg = format!("{}:{}", identity, ts);
    header_for(&format!("{}:{}", msg, hex_mac(secret, &msg)))
}

#[test]
fn valid_credential_accepted() {
    let h = credential(SECRET, NODE, NOW);
    assert_eq!(validate_proxy_auth(Some(&h), SECRET, NODE, NOW, 300), Ok(()));
}

#[test]
fn missing_header_rejected() {
    assert_eq!(validate_proxy_auth(None, SECRET, NODE, NOW, 300), Err(AuthError::Missing));
}

#[test]
fn wrong_scheme_malformed() {
    let h = credential(SECRET, NODE, NOW).replacen("Basic", "Bearer", 1);
    assert_eq!(validate_proxy_auth(Some(&h), SECRET, NODE, NOW, 300), Err(AuthError::Malformed));
}

#[test]
fn invalid_base64_malformed() {
    assert_eq!(
        validate_proxy_auth(Some("Basic !!!not-base64"), SECRET, NODE, NOW, 300),
        Err(AuthError::Malformed)
    );
}

#[test]
fn missing_fields_malformed() {
    let h = header_for("node-7:1700000000");
    assert_eq!(validate_proxy_auth(Some(&h), SECRET, NODE, NOW, 300), Err(AuthError::Malformed));
}

#[test]
fn short_signature_malformed() {
    let h = header_for("node-7:1700000000:abcdef");
    assert_eq!(validate_proxy_auth(Some(&h), SECRET, NODE, NOW, 300), Err(AuthError::Malformed));
}

#[test]
fn non_numeric_timestamp_malformed() {
    let msg = "node-7:17000x0000";
    let h = header_for(&format!("{}:{}", msg, hex_mac(SECRET, msg)));
    assert_eq!(validate_proxy_auth(Some(&h), SECRET, NODE, NOW, 300), Err(AuthError::Malformed));
}

#[test]
fn overflowing_timestamp_malformed() {
    let msg = "node-7:18446744073709551616";
    let h = header_for(&format!("{}:{}", msg, hex_mac(SECRET, msg)));
    assert_eq!(validate_proxy_auth(Some(&h), SECRET, NODE, NOW, 300), Err(AuthError::Malformed));
}

#[test]
fn other_node_identity_mismatch() {
    let h = credential(SECRET, "node-8", NOW);
    assert_eq!(
        validate_proxy_auth(Some(&h), SECRET, NODE, NOW, 300),
        Err(AuthError::IdentityMismatch)
    );
}

#[test]
fn stale_credential_clock_skew() {
    let h = credential(SECRET, NODE, NOW - 600);
    assert_eq!(validate_proxy_auth(Some(&h), SECRET, NODE, NOW, 300), Err(AuthError::ClockSkew));
}

#[test]
fn stale_credential_with_bad_signature_is_clock_skew() {
    let h = credential(b"another-secret", NODE, NOW - 301);
    assert_eq!(validate_proxy_auth(Some(&h), SECRET, NODE, NOW, 300), Err(AuthError::ClockSkew));
}

#[test]
fn future_credential_clock_skew() {
    let h = credential(SECRET, NODE, NOW + 301);
    assert_eq!(validate_proxy_auth(Some(&h), SECRET, NODE, NOW, 300), Err(AuthError::ClockSkew));
}

#[test]
fn skew_equal_to_tolerance_accepted() {
    let past = credential(SECRET, NODE, NOW - 300);
    let future = credential(SECRET, NODE, NOW + 300);
    assert_eq!(validate_proxy_auth(Some(&past), SECRET, NODE, NOW, 300), Ok(()));
    assert_eq!(validate_proxy_auth(Some(&future), SECRET, NODE, NOW, 300), Ok(()));
}

#[test]
fn other_secret_bad_signature() {
    let h = credential(b"another-secret", NODE, NOW);
    assert_eq!(
        validate_proxy_auth(Some(&h), SECRET, NODE, NOW, 300),
        Err(AuthError::BadSignature)
    );
}

#[test]
fn uppercase_hex_signature_accepted() {
    let msg = format!("{}:{}", NODE, NOW);
    let h = header_for(&format!("{}:{}", msg, hex_mac(SECRET, &msg).to_uppercase()));
    assert_eq!(validate_proxy_auth(Some(&h), SECRET, NODE, NOW, 300), Ok(()));
}

#[test]
fn identity_with_colons_accepted() {
    let h = credential(SECRET, "region:node:7", NOW);
    assert_eq!(validate_proxy_auth(Some(&h), SECRET, "region:node:7", NOW, 300), Ok(()));
}

#[test]
fn parse_splits_fields() {
    let sig = "00ff".repeat(16);
    let payload = format!("a:b:42:{}", sig);
    let c = parse_credential(payload.as_bytes()).unwrap();
    assert_eq!(c.identity, b"a:b".to_vec());
    assert_eq!(c.timestamp, 42);
    assert_eq!(c.message, b"a:b:42".to_vec());
    assert_eq!(c.signature, [0u8, 255].repeat(16));
}

#[test]
fn constant_time_eq_compares_bytes() {
    assert!(constant_time_eq(b"abc", b"abc"));
    assert!(!constant_time_eq(b"abc", b"abd"));
    assert!(!constant_time_eq(b"abc", b"ab"));
    assert!(constant_time_eq(b"", b""));
}

#[test]
fn error_messages_name_no_secret() {
    assert_eq!(AuthError::ClockSkew.message(), "credential timestamp outside tolerance");
    assert!(!AuthError::BadSignature.message().contains("shared-secret"));
}
