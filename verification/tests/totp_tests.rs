use base64::Engine;
use chacha20poly1305::aead::Aead;
use chacha20poly1305::KeyInit;
use wavry_core::account_flow::{GenerateOutcome, NewTotpCheck};
use wavry_core::auth_flow::{PasswordCheck, TotpCheck};
use wavry_core::totp::{
    check_new_totp, check_totp_code, decode_totp_secret, decrypt_totp_secret, encrypt_totp_secret,
    generate_totp_setup, hash_password, insecure_totp_allowed, load_totp_key, totp_from_secret,
    verify_password, TotpAlgorithm, TotpSecretError,
};

fn b64(bytes: &[u8]) -> String {
    base64::engine::general_purpose::STANDARD.encode(bytes)
}

fn test_key() -> String {
    b64(&[7u8; 32])
}

fn current_code(secret_b32: &str) -> String {
    let bytes = base32::decode(base32::Alphabet::Rfc4648 { padding: false }, secret_b32).unwrap();
    totp_rs::TOTP::new(totp_rs::Algorithm::SHA1, 6, 1, 30, bytes, None, "wavry".to_string())
        .unwrap()
        .generate_current()
        .unwrap()
}

const SECRET_20: &str = "JBSWY3DPEHPK3PXPJBSWY3DPEHPK3PXP";

#[test]
fn base32_secret_decodes() {
    assert_eq!(
        decode_totp_secret("JBSWY3DPEHPK3PXP").unwrap(),
        b"Hello!\xde\xad\xbe\xef".to_vec()
    );
    assert_eq!(decode_totp_secret("not base32!"), Err("Invalid TOTP secret encoding"));
}

#[test]
fn generator_needs_sixteen_secret_bytes() {
    assert_eq!(totp_from_secret("JBSWY3DPEHPK3PXP").err(), Some("Failed to initialize TOTP"));
    assert_eq!(totp_from_secret("####").err(), Some("Invalid TOTP secret encoding"));
    assert!(totp_from_secret(SECRET_20).is_ok());
}

#[test]
fn new_secret_checks_code() {
    assert_eq!(check_new_totp("JBSWY3DPEHPK3PXP", "123456"), NewTotpCheck::InvalidSecret);
    let code = current_code(SECRET_20);
    assert_eq!(check_new_totp(SECRET_20, &code), NewTotpCheck::Accepted);
    let wrong = if code == "000000" { "111111" } else { "000000" };
    assert_eq!(check_new_totp(SECRET_20, wrong), NewTotpCheck::Rejected);
}

#[test]
fn setup_hands_out_usable_secret() {
    let resp = generate_totp_setup("user@example.com").unwrap();
    assert_eq!(resp.secret.len(), 32);
    let bytes = decode_totp_secret(&resp.secret).unwrap();
    assert_eq!(bytes.len(), 20);
    assert!(!resp.qr_png_base64.is_empty());
    let code = current_code(&resp.secret);
    assert_eq!(check_new_totp(&resp.secret, &code), NewTotpCheck::Accepted);
    let other = generate_totp_setup("user@example.com").unwrap();
    assert_ne!(resp.secret, other.secret);
}

#[test]
fn setup_refuses_account_with_colon() {
    assert_eq!(generate_totp_setup("a:b@example.com").err(), Some(GenerateOutcome::SecretFailed));
}

#[test]
fn insecure_mode_never_in_production() {
    assert!(!insecure_totp_allowed(None, None, None));
    assert!(insecure_totp_allowed(None, None, Some(" YES ")));
    assert!(!insecure_totp_allowed(Some("true"), None, Some("1")));
    assert!(!insecure_totp_allowed(None, Some("production"), Some("1")));
    assert!(insecure_totp_allowed(None, Some("staging"), Some("on")));
    assert!(insecure_totp_allowed(Some("0"), Some("Production"), Some("1")));
}

#[test]
fn key_loading_outcomes() {
    assert_eq!(load_totp_key("  ", true), Ok(None));
    assert_eq!(load_totp_key("", false), Err(TotpSecretError::KeyMissing));
    assert_eq!(load_totp_key("!!!", true), Err(TotpSecretError::KeyNotBase64));
    assert_eq!(load_totp_key(&b64(&[1u8; 16]), false), Err(TotpSecretError::KeyWrongLength));
    let padded = format!("  {}\n", test_key());
    assert_eq!(load_totp_key(&padded, false), Ok(Some(vec![7u8; 32])));
}

#[test]
fn encrypted_secret_reads_back() {
    let key = test_key();
    let stored = encrypt_totp_secret(SECRET_20, &key, false).unwrap();
    assert!(stored.starts_with("enc:v1:"));
    assert!(!stored.contains(SECRET_20));
    assert_eq!(decrypt_totp_secret(&stored, &key, false).unwrap(), SECRET_20);
    let again = encrypt_totp_secret(SECRET_20, &key, false).unwrap();
    assert_ne!(stored, again);
    assert_eq!(decrypt_totp_secret(&again, &key, true).unwrap(), SECRET_20);
}

#[test]
fn plain_secret_only_when_allowed() {
    assert_eq!(encrypt_totp_secret("ABC", "", true), Ok("ABC".to_string()));
    assert_eq!(encrypt_totp_secret("ABC", "", false), Err(TotpSecretError::KeyMissing));
    assert_eq!(decrypt_totp_secret("ABC", "", true), Ok("ABC".to_string()));
    assert_eq!(decrypt_totp_secret("ABC", &test_key(), false), Err(TotpSecretError::PlaintextRefused));
}

#[test]
fn stored_secret_errors() {
    let key = test_key();
    let stored = encrypt_totp_secret(SECRET_20, &key, false).unwrap();
    assert_eq!(decrypt_totp_secret(&stored, "", true), Err(TotpSecretError::KeyRequired));
    assert_eq!(decrypt_totp_secret(&stored, "", false), Err(TotpSecretError::KeyMissing));
    assert_eq!(decrypt_totp_secret("enc:v1:@@@", &key, false), Err(TotpSecretError::StoredNotBase64));
    let short = format!("enc:v1:{}", b64(&[0u8; 10]));
    assert_eq!(decrypt_totp_secret(&short, &key, false), Err(TotpSecretError::StoredTooShort));
    let other_key = b64(&[9u8; 32]);
    assert_eq!(decrypt_totp_secret(&stored, &other_key, false), Err(TotpSecretError::DecryptFailed));
}

#[test]
fn decrypted_bytes_must_be_utf8() {
    let cipher = chacha20poly1305::XChaCha20Poly1305::new(chacha20poly1305::Key::from_slice(&[7u8; 32]));
    let nonce = [3u8; 24];
    let ct = cipher
        .encrypt(chacha20poly1305::XNonce::from_slice(&nonce), &[0xffu8, 0xfe][..])
        .unwrap();
    let mut blob = nonce.to_vec();
    blob.extend_from_slice(&ct);
    let stored = format!("enc:v1:{}", b64(&blob));
    assert_eq!(decrypt_totp_secret(&stored, &test_key(), false), Err(TotpSecretError::NotUtf8));
}

#[test]
fn secret_error_messages() {
    assert_eq!(
        TotpSecretError::KeyMissing.message(),
        "WAVRY_TOTP_KEY_B64 is required unless WAVRY_ALLOW_INSECURE_TOTP=1"
    );
    assert_eq!(TotpSecretError::StoredTooShort.message(), "stored TOTP secret blob is too short");
    assert_eq!(TotpSecretError::NotUtf8.message(), "decrypted TOTP secret is not utf-8");
}

#[test]
fn stored_totp_code_checks() {
    let key = test_key();
    let stored = encrypt_totp_secret(SECRET_20, &key, false).unwrap();
    let code = current_code(SECRET_20);
    assert_eq!(check_totp_code(&stored, &code, &key, false), TotpCheck::Accepted);
    let wrong = if code == "000000" { "111111" } else { "000000" };
    assert_eq!(check_totp_code(&stored, wrong, &key, false), TotpCheck::Rejected);
    assert_eq!(check_totp_code("JBSWY3DPEHPK3PXP", &code, "", false), TotpCheck::SecretUnavailable);
    assert_eq!(check_totp_code("JBSWY3DPEHPK3PXP", &code, "", true), TotpCheck::GeneratorUnavailable);
}

#[test]
fn password_hash_round_trip() {
    let hash = hash_password("correct horse battery").unwrap();
    assert!(hash.starts_with("$argon2"));
    assert_eq!(verify_password(&hash, "correct horse battery"), PasswordCheck::Match);
    assert_eq!(verify_password(&hash, "wrong horse battery"), PasswordCheck::Mismatch);
    assert_eq!(verify_password("not a hash", "x"), PasswordCheck::BadStoredHash);
    let again = hash_password("correct horse battery").unwrap();
    assert_ne!(hash, again);
}

#[test]
fn stored_secret_makes_sha1_six_digit_generator() {
    let g = totp_from_secret(SECRET_20).unwrap();
    assert_eq!(g.algorithm, TotpAlgorithm::Sha1);
    assert_eq!((g.digits, g.skew, g.step), (6, 1, 30));
    assert_eq!(g.secret, decode_totp_secret(SECRET_20).unwrap());
    assert_eq!(g.issuer, None);
    assert_eq!(g.account_name, "wavry");
}

#[test]
fn setup_qr_encodes_the_secret_handed_out() {
    let resp = generate_totp_setup("user@example.com").unwrap();
    let bytes = decode_totp_secret(&resp.secret).unwrap();
    let expected = totp_rs::TOTP::new(
        totp_rs::Algorithm::SHA1,
        6,
        1,
        30,
        bytes,
        Some("Wavry".to_string()),
        "user@example.com".to_string(),
    )
    .unwrap()
    .get_qr_base64()
    .unwrap();
    assert_eq!(resp.qr_png_base64, expected);
}

#[test]
fn stored_secret_accepts_current_code_only() {
    let stored = SECRET_20;
    let code = current_code(stored);
    assert_eq!(check_totp_code(stored, &code, "", true), TotpCheck::Accepted);
    let wrong = if code == "000000" { "111111" } else { "000000" };
    assert_eq!(check_totp_code(stored, wrong, "", true), TotpCheck::Rejected);
}
