use wavry_core::rate_limit::FixedWindowRateLimiter;
use wavry_core::security::{allow_auth_request, allow_ws_bind_request, auth_rate_limiter, ws_bind_rate_limiter};

const SEC: u64 = 1_000_000_000;

#[test]
fn limiter_allows_budget_then_refuses_until_window_passes() {
    let mut l = FixedWindowRateLimiter::new(3, 60 * SEC, 100);
    let t0 = 5 * SEC;
    assert!(l.allow("login:1.2.3.4", t0));
    assert!(l.allow("login:1.2.3.4", t0 + 1));
    assert!(l.allow("login:1.2.3.4", t0 + 2));
    assert!(!l.allow("login:1.2.3.4", t0 + 3));
    assert!(l.allow("login:5.6.7.8", t0 + 3));
    assert!(l.allow("login:1.2.3.4", t0 + 60 * SEC));
}

#[test]
fn limiter_over_key_capacity_evicts_stale_then_refuses() {
    let mut l = FixedWindowRateLimiter::new(10, 10 * SEC, 1);
    assert!(l.allow("a", 0));
    assert!(l.allow("b", 0));
    // Two keys tracked, above capacity one, none stale: refused.
    assert!(!l.allow("c", SEC));
    // Once both windows have passed they are evicted and requests go through.
    assert!(l.allow("c", 20 * SEC));
}

#[test]
fn configured_limiters_use_settings_or_defaults() {
    let mut l = ws_bind_rate_limiter(Some("1"), Some("0"), None);
    assert!(l.allow("k", 0));
    assert!(!l.allow("k", 1));
    // A window of "0" seconds is raised to one second.
    assert!(l.allow("k", SEC));
    let mut a = auth_rate_limiter(None, None, None);
    for i in 0..20u64 {
        assert!(allow_auth_request(&mut a, "ip", i));
    }
    assert!(!allow_auth_request(&mut a, "ip", 21));
}

#[test]
fn auth_default_budget_is_twenty_per_key_within_a_minute() {
    let mut l = auth_rate_limiter(None, None, None);
    let t0 = 7 * SEC;
    for i in 0..25u64 {
        let other = format!("other:{}", i);
        assert!(allow_auth_request(&mut l, &other, t0 + i));
        assert_eq!(allow_auth_request(&mut l, "login:9.9.9.9", t0 + i * SEC), i < 20);
    }
}

#[test]
fn ws_bind_window_opens_with_an_allowed_request() {
    let mut l = ws_bind_rate_limiter(None, None, None);
    let mut allowed = 0;
    for i in 0..15u64 {
        if allow_ws_bind_request(&mut l, "bind:1.1.1.1", i * SEC) {
            allowed += 1;
        }
    }
    assert_eq!(allowed, 10);
    assert!(allow_ws_bind_request(&mut l, "bind:1.1.1.1", 60 * SEC));
}
