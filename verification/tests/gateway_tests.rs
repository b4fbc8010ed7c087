use wavry_core::admin::{admin_gate, assert_admin, extract_admin_token, AdminAuthError, BanUserRequest};
use wavry_core::rate_limit::FixedWindowRateLimiter;
use wavry_core::auth::{
    extract_session_token, is_reasonable_password_input, normalize_email, normalize_totp_secret,
    normalize_username, rate_limit_key, AuthCounter, AuthMetrics, ErrorResponse, LoginRequest,
    LogoutResponse, RegisterRequest,
};
use wavry_core::security::{
    constant_time_eq, hash_token, is_valid_display_name, is_valid_email, is_valid_password,
    is_valid_public_key_hex, is_valid_session_token, is_valid_totp_code, is_valid_username,
    load_allowed_origins, normalize_origin, setting_flag, setting_u32, setting_usize,
    ws_origin_allowed,
};
use wavry_core::web::{validate_common, webrtc_config, WebRtcOfferRequest};
use wavry_core::security::{check_public_bind_allowed, is_loopback};
use wavry_core::relay_session::PeerAddr;

#[test]
fn test_hash_token_consistency() {
    let token = "test_token_12345";
    let hash1 = hash_token(token);
    let hash2 = hash_token(token);
    assert_eq!(hash1, hash2, "Hash should be consistent for same token");
}

#[test]
fn test_hash_token_different_inputs() {
    let token1 = "token_one";
    let token2 = "token_two";
    let hash1 = hash_token(token1);
    let hash2 = hash_token(token2);
    assert_ne!(hash1, hash2, "Different tokens should produce different hashes");
}

#[test]
fn test_hash_token_not_equal_to_input() {
    let token = "plaintext_token";
    let hash = hash_token(token);
    assert_ne!(hash, token, "Hash should not equal original token");
    assert_ne!(hash.len(), token.len(), "Hash length should differ from token");
}

#[test]
fn test_hash_token_empty_string() {
    let token = "";
    let hash = hash_token(token);
    assert!(!hash.is_empty(), "Hash of empty string should not be empty");
}

#[test]
fn test_hash_token_long_string() {
    let token = "a".repeat(1000);
    let hash = hash_token(&token);
    assert!(!hash.is_empty(), "Hash of long string should not be empty");
    assert_eq!(hash.len(), 64, "SHA-256 hash should be 64 hex chars");
}

#[test]
fn test_hash_token_special_characters() {
    let token = "!@#$%^&*()_+-=[]{}|;':\",./<>?";
    let hash = hash_token(token);
    assert!(!hash.is_empty(), "Hash of special chars should not be empty");
}

#[test]
fn test_hash_token_unicode() {
    let token = "token_with_émoji_🎉_日本語";
    let hash = hash_token(token);
    assert!(!hash.is_empty(), "Hash of unicode should not be empty");
}

#[test]
fn hash_token_matches_known_sha256_hex() {
    assert_eq!(
        hash_token(""),
        "e3b0c44298fc1c149afbf4c8996fb92427ae41e4649b934ca495991b7852b855"
    );
    assert_eq!(
        hash_token("abc"),
        "ba7816bf8f01cfea414140de5dae2223b00361a396177a9cb410ff61f20015ad"
    );
}

#[test]
fn test_register_request_validation() {
    let req = RegisterRequest {
        email: "user@example.com".to_string(),
        password: "secure_password_123".to_string(),
        display_name: "John Doe".to_string(),
        username: "johndoe".to_string(),
        public_key: "abcd1234".to_string(),
    };

    assert!(!req.email.is_empty());
    assert!(!req.password.is_empty());
    assert!(!req.username.is_empty());
    assert!(req.email.contains("@"));
}

#[test]
fn test_login_request_with_totp() {
    let req = LoginRequest {
        email: "user@example.com".to_string(),
        password: "password123".to_string(),
        totp_code: Some("123456".to_string()),
    };

    assert!(req.totp_code.is_some());
    assert_eq!(req.totp_code.unwrap(), "123456");
}

#[test]
fn test_login_request_without_totp() {
    let req = LoginRequest {
        email: "user@example.com".to_string(),
        password: "password123".to_string(),
        totp_code: None,
    };

    assert!(req.totp_code.is_none());
}

#[test]
fn test_error_response_creation() {
    let error = ErrorResponse {
        error: "Invalid credentials".to_string(),
    };

    assert_eq!(error.error, "Invalid credentials");
}

#[test]
fn test_logout_response() {
    let resp = LogoutResponse { revoked: true };
    assert!(resp.revoked);

    let resp2 = LogoutResponse { revoked: false };
    assert!(!resp2.revoked);
}

#[test]
fn test_ban_user_request() {
    let ban_req = BanUserRequest {
        user_id: "user-123".to_string(),
        reason: "Violating ToS".to_string(),
        duration_hours: Some(24),
    };

    assert_eq!(ban_req.user_id, "user-123");
    assert_eq!(ban_req.reason, "Violating ToS");
    assert_eq!(ban_req.duration_hours, Some(24));
}

#[test]
fn test_ban_user_permanent() {
    let ban_req = BanUserRequest {
        user_id: "user-456".to_string(),
        reason: "Permanent ban".to_string(),
        duration_hours: None,
    };

    assert!(ban_req.duration_hours.is_none());
}

#[test]
fn email_validation_cases() {
    assert!(is_valid_email("user@example.com"));
    assert!(!is_valid_email("userexample.com"));
    assert!(!is_valid_email("@example.com"));
    assert!(!is_valid_email("a@b@example.com"));
    assert!(!is_valid_email("user@examplecom"));
    assert!(!is_valid_email("user@.example.com"));
    assert!(!is_valid_email("user@example.com."));
    assert!(!is_valid_email("us er@example.com"));
    let long = format!("{}@example.com", "a".repeat(250));
    assert!(!is_valid_email(&long));
}

#[test]
fn username_and_token_validation_cases() {
    assert!(is_valid_username("john.doe-1_x"));
    assert!(!is_valid_username("ab"));
    assert!(!is_valid_username(&"a".repeat(33)));
    assert!(!is_valid_username("bad name"));
    assert!(is_valid_session_token(&"a".repeat(32)));
    assert!(!is_valid_session_token(&"a".repeat(31)));
    assert!(!is_valid_session_token(&format!("{}!", "a".repeat(40))));
}

#[test]
fn display_name_password_key_code_validation_cases() {
    assert!(is_valid_display_name("  John Doe  "));
    assert!(!is_valid_display_name("   "));
    assert!(!is_valid_display_name("bad\u{7}name"));
    assert!(!is_valid_display_name(&"x".repeat(65)));
    assert!(is_valid_password("twelve chars"));
    assert!(!is_valid_password("short"));
    assert!(is_valid_public_key_hex(&"aF".repeat(32)));
    assert!(!is_valid_public_key_hex(&"g".repeat(64)));
    assert!(is_valid_totp_code("012345"));
    assert!(!is_valid_totp_code("12345a"));
    assert!(!is_valid_totp_code("1234567"));
}

#[test]
fn constant_time_eq_cases() {
    assert!(constant_time_eq("secret-token", "secret-token"));
    assert!(!constant_time_eq("secret-token", "secret-tokem"));
    assert!(!constant_time_eq("short", "longer"));
    assert!(constant_time_eq("", ""));
}

#[test]
fn origin_normalization_and_checks() {
    assert_eq!(normalize_origin("  HTTP://LocalHost:1420// "), "http://localhost:1420");
    let defaults = load_allowed_origins("   ");
    assert!(defaults.contains("tauri://localhost"));
    assert!(ws_origin_allowed(Some("http://127.0.0.1:3000/"), true, false, &defaults));
    assert!(!ws_origin_allowed(Some("https://evil.example"), true, false, &defaults));
    assert!(!ws_origin_allowed(None, true, false, &defaults));
    assert!(ws_origin_allowed(None, true, true, &defaults));
    assert!(ws_origin_allowed(None, false, false, &defaults));
    let configured = load_allowed_origins("https://App.example/, ,https://b.example");
    assert!(configured.contains("https://app.example"));
    assert!(configured.contains("https://b.example"));
    assert!(!configured.contains("tauri://localhost"));
    assert_eq!(configured.to_vec().len(), 2);
    let only_blank = load_allowed_origins(" , / ");
    assert!(only_blank.contains("http://localhost:3000"));
}

#[test]
fn settings_parsing() {
    assert!(setting_flag(Some(" YES "), false));
    assert!(setting_flag(Some("1"), false));
    assert!(!setting_flag(Some("nope"), true));
    assert!(setting_flag(None, true));
    assert_eq!(setting_u32(Some("+42"), 7), 42);
    assert_eq!(setting_u32(Some("4294967296"), 7), 7);
    assert_eq!(setting_u32(Some(" 5"), 7), 7);
    assert_eq!(setting_u32(None, 7), 7);
    assert_eq!(setting_usize(Some("10000"), 1), 10000);
}

#[test]
fn normalizers_and_keys() {
    assert_eq!(normalize_email("  Foo@Example.COM "), "foo@example.com");
    assert_eq!(normalize_username(" JohnDoe "), "johndoe");
    assert_eq!(normalize_totp_secret("JBSW Y3DP\tEHPK 3PXP"), "JBSWY3DPEHPK3PXP");
    assert_eq!(rate_limit_key("login", "10.0.0.1"), "login:10.0.0.1");
    assert!(is_reasonable_password_input("x"));
    assert!(!is_reasonable_password_input(""));
    assert!(!is_reasonable_password_input(&"p".repeat(129)));
}

#[test]
fn token_extraction_from_headers() {
    assert_eq!(extract_session_token(Some("  abc  "), None), Some("abc".to_string()));
    assert_eq!(
        extract_session_token(Some("   "), Some("Bearer  tok ")),
        Some("tok".to_string())
    );
    assert_eq!(extract_session_token(None, Some("Basic tok")), None);
    assert_eq!(extract_session_token(None, Some("Bearer   ")), None);
    assert_eq!(extract_admin_token(Some(" raw "), None), Some(" raw ".to_string()));
    assert_eq!(extract_admin_token(Some(""), Some("Bearer t")), Some("t".to_string()));
}

#[test]
fn admin_token_check() {
    let expected = "0123456789abcdef0123456789abcdef";
    assert_eq!(assert_admin("short", Some("short")), Err(AdminAuthError::Disabled));
    assert_eq!(assert_admin(expected, None), Err(AdminAuthError::Invalid));
    assert_eq!(assert_admin(expected, Some("wrong")), Err(AdminAuthError::Invalid));
    assert_eq!(assert_admin(expected, Some(expected)), Ok(()));
    assert_eq!(AdminAuthError::Invalid.message(), "invalid admin token");
}

#[test]
fn signalling_checks() {
    let token = "t".repeat(40);
    assert_eq!(validate_common("short", "alice"), Err("Invalid session token"));
    assert_eq!(validate_common(&token, "a b"), Err("Invalid target username"));
    assert_eq!(validate_common(&token, "alice"), Ok(()));
    let offer = WebRtcOfferRequest {
        session_token: token.clone(),
        target_username: "alice".to_string(),
        sdp: String::new(),
    };
    assert_eq!(offer.validate(), Err("Invalid SDP size"));
    let cfg = webrtc_config(None);
    assert_eq!(cfg.ws_signaling_url, "ws://localhost:3000/ws");
    assert_eq!(cfg.candidate_endpoint, "/webrtc/candidate");
}

#[test]
fn auth_metrics_count_and_wrap() {
    let mut m = AuthMetrics::default();
    m.increment(AuthCounter::LoginAttempts);
    m.increment(AuthCounter::LoginAttempts);
    m.increment(AuthCounter::DbErrors);
    let s = m.metrics_snapshot();
    assert_eq!(s.login_attempts, 2);
    assert_eq!(s.db_errors, 1);
    assert_eq!(s.register_attempts, 0);
}

#[test]
fn admin_gate_rate_limits_then_checks_token() {
    let mut l = FixedWindowRateLimiter::new(2, 60_000_000_000, 100);
    let expected = "0123456789abcdef0123456789abcdef";
    assert_eq!(admin_gate(&mut l, "10.0.0.1", 0, expected, Some(expected), None), Ok(()));
    assert_eq!(
        admin_gate(&mut l, "10.0.0.1", 0, expected, None, Some("Bearer nope")),
        Err((401, "invalid admin token"))
    );
    assert_eq!(
        admin_gate(&mut l, "10.0.0.1", 0, expected, Some(expected), None),
        Err((429, "Too many admin requests"))
    );
    assert_eq!(
        admin_gate(&mut l, "10.0.0.2", 0, "short", Some("short"), None),
        Err((401, "admin panel disabled: set ADMIN_PANEL_TOKEN"))
    );
}

#[test]
fn public_bind_needs_explicit_permission() {
    let local = PeerAddr { ip: 0x7f00_0001, port: 3000, ipv6: false };
    let other_local = PeerAddr { ip: 0x7f12_3456, port: 3000, ipv6: false };
    let public = PeerAddr { ip: 0x0a00_0001, port: 3000, ipv6: false };
    let local6 = PeerAddr { ip: 1, port: 3000, ipv6: true };
    let mapped6 = PeerAddr { ip: 0xffff_7f00_0001, port: 3000, ipv6: true };
    assert!(is_loopback(&local));
    assert!(is_loopback(&other_local));
    assert!(is_loopback(&local6));
    assert!(!is_loopback(&public));
    assert!(!is_loopback(&mapped6));
    assert_eq!(check_public_bind_allowed(&local, None), Ok(()));
    assert_eq!(
        check_public_bind_allowed(&public, None),
        Err("refusing non-loopback bind without WAVRY_ALLOW_PUBLIC_BIND=1".to_string())
    );
    assert_eq!(check_public_bind_allowed(&public, Some(" Yes ")), Ok(()));
    assert!(check_public_bind_allowed(&public, Some("0")).is_err());
}
