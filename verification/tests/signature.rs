use crossbow::signature::verify_github_signature;
use hmac::Mac;

type HmacSha256 = hmac::Hmac<sha2::Sha256>;

#[test]
fn test_verify_valid_signature() {
    let secret = "test_secret";
    let payload = b"test payload";

    let mut mac = HmacSha256::new_from_slice(secret.as_bytes()).unwrap();
    mac.update(payload);
    let result = mac.finalize();
    let signature = format!("sha256={}", hex::encode(result.into_bytes()));

    assert!(verify_github_signature(secret, payload, &signature));
}

#[test]
fn test_verify_invalid_signature() {
    let secret = "test_secret";
    let payload = b"test payload";
    let signature = "sha256=invalid_signature";

    assert!(!verify_github_signature(secret, payload, signature));
}

#[test]
fn test_verify_missing_prefix() {
    let secret = "test_secret";
    let payload = b"test payload";
    let signature = "invalid_format";

    assert!(!verify_github_signature(secret, payload, signature));
}

#[test]
fn test_verify_uppercase_hex_accepted() {
    let secret = "another_secret";
    let payload = b"some body";

    let mut mac = HmacSha256::new_from_slice(secret.as_bytes()).unwrap();
    mac.update(payload);
    let signature = format!("sha256={}", hex::encode(mac.finalize().into_bytes()).to_uppercase());

    assert!(verify_github_signature(secret, payload, &signature));
}

#[test]
fn test_verify_flipped_signature_rejected() {
    let secret = "test_secret";
    let payload = b"test payload";

    let mut mac = HmacSha256::new_from_slice(secret.as_bytes()).unwrap();
    mac.update(payload);
    let mut digest = mac.finalize().into_bytes().to_vec();
    digest[0] ^= 0x01;
    let signature = format!("sha256={}", hex::encode(digest));

    assert!(!verify_github_signature(secret, payload, &signature));
}

#[test]
fn test_verify_flipped_body_rejected() {
    let secret = "test_secret";
    let payload = b"test payload";

    let mut mac = HmacSha256::new_from_slice(secret.as_bytes()).unwrap();
    mac.update(payload);
    let signature = format!("sha256={}", hex::encode(mac.finalize().into_bytes()));

    assert!(!verify_github_signature(secret, b"test qayload", &signature));
}

#[test]
fn test_verify_odd_length_hex_rejected() {
    assert!(!verify_github_signature("s", b"body", "sha256=abc"));
}

#[test]
fn test_verify_empty_signature_rejected() {
    assert!(!verify_github_signature("s", b"body", ""));
}
