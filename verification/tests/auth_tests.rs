use radio_backend::auth::{
    device_cookie_middleware, device_cookie_plan, extract_device_token, forwarded_entries, is_really_local,
    extract_device_token_from_cookie, generate_device_token, lookup_device_user,
    new_local_admin, promote_local_admin, request_is_secure, require_admin,
    require_device_token, validate_display_name, AuthUser, CookieRequest, DeviceUser,
    RequestHeaders,
};
use radio_backend::error::AppError;

fn headers(cookie: Option<&str>, x: Option<&str>, auth: Option<&str>) -> RequestHeaders {
    RequestHeaders {
        cookie: cookie.map(|s| s.to_string()),
        x_device_token: x.map(|s| s.to_string()),
        authorization: auth.map(|s| s.to_string()),
    }
}

#[test]
fn extracts_token_from_cookie() {
    let h = headers(Some("foo=bar; device_token=test-token-123; other=baz"), None, None);
    assert_eq!(extract_device_token(&h), Some("test-token-123".to_string()));
}

#[test]
fn extracts_token_from_x_device_token_header() {
    let h = headers(None, Some("test-token-456"), None);
    assert_eq!(extract_device_token(&h), Some("test-token-456".to_string()));
}

#[test]
fn extracts_token_from_authorization_bearer() {
    let h = headers(None, None, Some("Bearer test-token-789"));
    assert_eq!(extract_device_token(&h), Some("test-token-789".to_string()));
}

#[test]
fn cookie_takes_priority_over_headers() {
    let h = headers(Some("device_token=cookie-token"), Some("header-token"), None);
    assert_eq!(extract_device_token(&h), Some("cookie-token".to_string()));
}

#[test]
fn cookie_pairs_are_trimmed_and_first_match_wins() {
    let h = headers(Some("  device_token=a ;device_token=b"), None, None);
    assert_eq!(extract_device_token_from_cookie(&h), Some("a".to_string()));
    let none = headers(Some("foo=bar; xdevice_token=zz"), None, None);
    assert_eq!(extract_device_token_from_cookie(&none), None);
    let empty_value = headers(Some("device_token="), None, None);
    assert_eq!(extract_device_token_from_cookie(&empty_value), Some(String::new()));
}

#[test]
fn blank_headers_fall_through() {
    let h = headers(Some("foo=bar"), Some("   "), Some("Bearer  tok \t"));
    assert_eq!(extract_device_token(&h), Some("tok".to_string()));
    let h2 = headers(None, None, Some("Basic abc"));
    assert_eq!(extract_device_token(&h2), None);
    let h3 = headers(None, None, Some("Bearer    "));
    assert_eq!(extract_device_token(&h3), None);
    let h4 = headers(None, Some(" x1 "), Some("Bearer y"));
    assert_eq!(extract_device_token(&h4), Some("x1".to_string()));
}

fn user(role: &str) -> AuthUser {
    AuthUser { id: 1, display_name: "n".into(), role: role.into(), device_token: "t".into() }
}

#[test]
fn only_admins_pass() {
    assert!(require_admin(&user("admin")).is_ok());
    match require_admin(&user("user")) {
        Err(AppError::Forbidden(m)) => assert_eq!(m, "Admin privileges required"),
        other => panic!("unexpected {:?}", other),
    }
}

#[test]
fn banned_devices_are_refused() {
    let u = DeviceUser { id: 4, device_token: "t".into(), display_name: "d".into(), role: "user".into(), banned: true };
    assert!(matches!(lookup_device_user(Some(u)), Err(AppError::Banned)));
    let ok = DeviceUser { id: 5, device_token: "t5".into(), display_name: "d5".into(), role: "user".into(), banned: false };
    let a = lookup_device_user(Some(ok)).unwrap().unwrap();
    assert_eq!(a.id, 5);
    assert_eq!(a.device_token, "t5");
    assert!(matches!(lookup_device_user(None), Ok(None)));
}

#[test]
fn local_host_becomes_admin() {
    let (u, changed) = promote_local_admin(user("user"));
    assert_eq!(u.role, "admin");
    assert!(changed);
    let (u2, changed2) = promote_local_admin(user("admin"));
    assert_eq!(u2.role, "admin");
    assert!(!changed2);
    let fresh = new_local_admin(9, "tok");
    assert_eq!(fresh.display_name, "房主");
    assert_eq!(fresh.role, "admin");
    assert_eq!(fresh.id, 9);
}

#[test]
fn missing_token_is_unauthorized() {
    assert!(matches!(require_device_token(None), Err(AppError::Unauthorized)));
    assert_eq!(require_device_token(Some("a".into())).unwrap(), "a");
}

#[test]
fn display_names_are_validated() {
    assert_eq!(validate_display_name("  Mika  ").unwrap(), "Mika");
    match validate_display_name("   ") {
        Err(AppError::BadRequest(m)) => assert_eq!(m, "Display name cannot be empty"),
        other => panic!("unexpected {:?}", other),
    }
    let long = "a".repeat(33);
    match validate_display_name(&long) {
        Err(AppError::BadRequest(m)) => assert_eq!(m, "Display name must be 32 characters or less"),
        other => panic!("unexpected {:?}", other),
    }
    assert!(validate_display_name(&"a".repeat(32)).is_ok());
    // 11 CJK characters take 33 bytes.
    assert!(validate_display_name(&"房".repeat(11)).is_err());
    assert!(validate_display_name(&"房".repeat(10)).is_ok());
}

#[test]
fn https_forwarding_is_secure() {
    assert!(request_is_secure(&Some("HTTPS".into())));
    assert!(request_is_secure(&Some("https".into())));
    assert!(!request_is_secure(&Some("http".into())));
    assert!(!request_is_secure(&None));
}

fn cookie_request(cookie: Option<&str>, local: bool, path: &str, proto: Option<&str>) -> CookieRequest {
    CookieRequest {
        headers: headers(cookie, None, None),
        forwarded_proto: proto.map(|s| s.to_string()),
        is_really_local: local,
        path: path.into(),
    }
}

#[test]
fn cookie_plan_mints_token_for_new_device() {
    let req = cookie_request(Some("foo=bar"), true, "/api/queue", Some("https"));
    let p = device_cookie_plan(&req, "NEW".into(), 365, "/");
    assert_eq!(p.new_token.as_deref(), Some("NEW"));
    assert_eq!(p.request_cookie.as_deref(), Some("foo=bar; device_token=NEW"));
    assert_eq!(
        p.set_cookie.as_deref(),
        Some("device_token=NEW; Path=/; HttpOnly; SameSite=Lax; Max-Age=31536000; Secure")
    );
    assert_eq!(p.response_token.as_deref(), Some("NEW"));
    assert_eq!(p.local_admin_token.as_deref(), Some("NEW"));
}

#[test]
fn cookie_plan_keeps_existing_token() {
    let req = cookie_request(Some("device_token=OLD"), false, "/api/queue", None);
    let p = device_cookie_plan(&req, "NEW".into(), 1, "/radio");
    assert!(p.new_token.is_none());
    assert!(p.request_cookie.is_none());
    assert!(p.set_cookie.is_none());
    assert_eq!(p.response_token.as_deref(), Some("OLD"));
    assert!(p.local_admin_token.is_none());
    let req2 = cookie_request(None, true, "/stream", None);
    let p2 = device_cookie_plan(&req2, "T".into(), 1, "/radio");
    assert_eq!(p2.request_cookie.as_deref(), Some("device_token=T"));
    assert_eq!(p2.set_cookie.as_deref(), Some("device_token=T; Path=/radio; HttpOnly; SameSite=Lax; Max-Age=86400"));
    assert!(p2.local_admin_token.is_none());
}

#[test]
fn middleware_mints_uuid_tokens() {
    let req = cookie_request(None, false, "/", None);
    let p = device_cookie_middleware(&req, 365, "/");
    let t = p.new_token.expect("new token");
    assert_eq!(t.len(), 36);
    assert_eq!(p.response_token.as_deref(), Some(t.as_str()));
    let a = generate_device_token();
    let b = generate_device_token();
    assert_ne!(a, b);
    for (i, c) in a.chars().enumerate() {
        if [8, 13, 18, 23].contains(&i) {
            assert_eq!(c, '-');
        } else {
            assert!(c.is_ascii_hexdigit() && !c.is_ascii_uppercase());
        }
    }
    assert_eq!(a.chars().nth(14), Some('4'));
}

#[test]
fn middleware_sets_cookie_and_rewrites_request() {
    let req = cookie_request(Some("lang=zh"), true, "/api/me", Some("HTTPS"));
    let p = device_cookie_middleware(&req, 2, "/radio");
    let t = p.new_token.clone().expect("new token");
    assert_eq!(p.request_cookie, Some(format!("lang=zh; device_token={}", t)));
    assert_eq!(
        p.set_cookie,
        Some(format!("device_token={}; Path=/radio; HttpOnly; SameSite=Lax; Max-Age=172800; Secure", t))
    );
    assert_eq!(p.response_token.as_deref(), Some(t.as_str()));
    assert_eq!(p.local_admin_token.as_deref(), Some(t.as_str()));
}

#[test]
fn middleware_leaves_tokened_request_alone() {
    let req = cookie_request(Some("device_token=OLD"), true, "/api/me", None);
    let p = device_cookie_middleware(&req, 2, "/");
    assert!(p.new_token.is_none());
    assert!(p.set_cookie.is_none());
    assert!(p.request_cookie.is_none());
    assert_eq!(p.response_token.as_deref(), Some("OLD"));
    assert_eq!(p.local_admin_token.as_deref(), Some("OLD"));
}

#[test]
fn forwarded_entries_split_and_trim() {
    assert_eq!(forwarded_entries("127.0.0.1, ::1 ,10.0.0.2"), vec!["127.0.0.1", "::1", "10.0.0.2"]);
    assert_eq!(forwarded_entries(""), vec![""]);
    assert_eq!(forwarded_entries("a,,b"), vec!["a", "", "b"]);
    assert_eq!(forwarded_entries(" 127.0.0.1 "), vec!["127.0.0.1"]);
}

#[test]
fn local_only_when_peer_and_every_hop_are_loopback() {
    assert!(is_really_local(true, None));
    assert!(is_really_local(true, Some(vec![true, true])));
    assert!(!is_really_local(true, Some(vec![true, false])));
    assert!(!is_really_local(false, None));
    assert!(!is_really_local(false, Some(vec![true])));
}

#[test]
fn promoting_the_local_admin_twice_changes_nothing() {
    let (once, wrote) = promote_local_admin(user("user"));
    assert!(wrote);
    let (twice, wrote_again) = promote_local_admin(AuthUser {
        id: once.id,
        display_name: once.display_name.clone(),
        role: once.role.clone(),
        device_token: once.device_token.clone(),
    });
    assert!(!wrote_again);
    assert_eq!(twice.id, once.id);
    assert_eq!(twice.display_name, once.display_name);
    assert_eq!(twice.role, "admin");
    assert_eq!(twice.device_token, once.device_token);
}

#[test]
fn any_day_count_is_fine_when_no_token_is_minted() {
    let req = cookie_request(Some("device_token=OLD"), false, "/api/me", None);
    let p = device_cookie_middleware(&req, u64::MAX, "/");
    assert!(p.set_cookie.is_none());
    assert!(p.request_cookie.is_none());
    assert_eq!(p.response_token.as_deref(), Some("OLD"));
    assert!(p.local_admin_token.is_none());
}
