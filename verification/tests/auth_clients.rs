use claude_code_proxy::auth::{extract_key, hash_key, AuthHeaders, AuthRegistry, ClientConfig};
use claude_code_proxy::error::{ErrorKind, ProxyError};
use claude_code_proxy::rate::RateWindow;
use std::sync::Arc;
use tokio::sync::Semaphore;

const KEY: &str = "high-entropy-test-key-1234";

fn client(id: &str, key: &str, routes: &[&str], rpm: u32, concurrency: u32) -> ClientConfig {
    ClientConfig {
        id: id.to_string(),
        key: Ok(key.to_string()),
        allowed_routes: routes.iter().map(|r| r.to_string()).collect(),
        requests_per_minute: rpm,
        concurrent_requests: concurrency,
    }
}

fn headers(x_api_key: Option<&str>, authorization: Option<&str>) -> AuthHeaders {
    AuthHeaders {
        x_api_key: x_api_key.map(|v| v.as_bytes().to_vec()),
        authorization: authorization.map(|v| v.as_bytes().to_vec()),
    }
}

#[test]
fn accepts_both_supported_headers() {
    let registry = AuthRegistry::new(&[client("test", KEY, &[], 10, 2)]).unwrap();
    let by_bearer = headers(None, Some("Bearer high-entropy-test-key-1234"));
    assert_eq!(registry.authenticate(&by_bearer).unwrap().id, "test");
    let by_api_key = headers(Some("high-entropy-test-key-1234"), None);
    assert_eq!(registry.authenticate(&by_api_key).unwrap().id, "test");
}

#[test]
fn missing_and_invalid_keys_are_refused() {
    let registry = AuthRegistry::new(&[client("test", KEY, &[], 10, 2)]).unwrap();
    let missing = registry.authenticate(&headers(None, None)).err().unwrap();
    assert_eq!(missing.kind, ErrorKind::Authentication);
    assert_eq!(missing.message, "missing API key");
    assert_eq!(missing.status_code(), 401);
    let wrong = registry.authenticate(&headers(Some("another-key-that-is-long-enough"), None)).err().unwrap();
    assert_eq!(wrong.kind, ErrorKind::Authentication);
    assert_eq!(wrong.message, "invalid API key");
    assert_eq!(wrong.envelope().error.kind, "authentication_error");
    let no_bearer = registry.authenticate(&headers(None, Some(KEY))).err().unwrap();
    assert_eq!(no_bearer.message, "missing API key");
}

#[test]
fn api_key_header_wins_over_authorization() {
    let registry = AuthRegistry::new(&[
        client("first", KEY, &[], 10, 2),
        client("second", "second-key-with-enough-bytes", &[], 10, 2),
    ])
    .unwrap();
    let both = headers(Some("second-key-with-enough-bytes"), Some("Bearer high-entropy-test-key-1234"));
    assert_eq!(registry.authenticate(&both).unwrap().id, "second");
}

#[test]
fn non_text_api_key_falls_back_to_authorization() {
    let both = AuthHeaders {
        x_api_key: Some(vec![0xff, 0x41]),
        authorization: Some(b"Bearer abc".to_vec()),
    };
    assert_eq!(extract_key(&both), Some("abc".to_string()));
    let tab = headers(Some("a\tb"), None);
    assert_eq!(extract_key(&tab), Some("a\tb".to_string()));
    let control = AuthHeaders { x_api_key: Some(vec![0x01]), authorization: None };
    assert_eq!(extract_key(&control), None);
    assert_eq!(extract_key(&headers(None, Some("bearer abc"))), None);
    assert_eq!(extract_key(&headers(None, Some("Bearer "))), Some(String::new()));
}

#[test]
fn first_client_with_the_key_wins() {
    let registry = AuthRegistry::new(&[
        client("one", KEY, &[], 10, 2),
        client("two", KEY, &[], 10, 2),
    ])
    .unwrap();
    assert_eq!(registry.authenticate(&headers(Some(KEY), None)).unwrap().id, "one");
}

#[test]
fn short_keys_are_refused() {
    let refused = AuthRegistry::new(&[
        client("good", KEY, &[], 10, 2),
        client("short", "too-short", &[], 10, 2),
    ])
    .err()
    .unwrap();
    assert_eq!(refused.kind, ErrorKind::Internal);
    assert_eq!(refused.message, "client short key must be at least 24 bytes");
    // the length is counted in UTF-8 bytes: 12 characters of 2 bytes are enough
    assert!(AuthRegistry::new(&[client("utf8", "éééééééééééé", &[], 1, 1)]).is_ok());
    assert!(AuthRegistry::new(&[client("utf8", "ééééééééééé", &[], 1, 1)]).is_err());
}

#[test]
fn key_lookup_errors_come_first_in_order() {
    let mut broken = client("broken", KEY, &[], 10, 2);
    broken.key = Err(ProxyError::new(ErrorKind::Internal, "environment variable X is not set"));
    let refused = AuthRegistry::new(&[broken, client("short", "x", &[], 1, 1)]).err().unwrap();
    assert_eq!(refused.message, "environment variable X is not set");
    let refused = AuthRegistry::new(&[client("short", "x", &[], 1, 1), {
        let mut b = client("broken", KEY, &[], 10, 2);
        b.key = Err(ProxyError::new(ErrorKind::Internal, "unresolved"));
        b
    }])
    .err()
    .unwrap();
    assert_eq!(refused.message, "client short key must be at least 24 bytes");
}

#[test]
fn routes_are_checked() {
    let registry = AuthRegistry::new(&[
        client("open", KEY, &[], 10, 2),
        client("narrow", "narrow-key-with-enough-bytes", &["sonnet", "haiku"], 10, 2),
    ])
    .unwrap();
    let open = registry.authenticate(&headers(Some(KEY), None)).unwrap();
    assert!(open.allows_route("anything"));
    let narrow = registry.authenticate(&headers(Some("narrow-key-with-enough-bytes"), None)).unwrap();
    assert!(narrow.allows_route("haiku"));
    assert!(!narrow.allows_route("opus"));
}

#[test]
fn limits_rate_and_concurrency() {
    let registry = AuthRegistry::new(&[client("limited", KEY, &[], 2, 1)]).unwrap();
    let identity = registry.authenticate(&headers(Some(KEY), None)).unwrap();
    let first = identity.acquire().ok().unwrap();
    assert_eq!(first.identity.id, "limited");
    let busy = identity.acquire().err().unwrap();
    assert_eq!(busy.kind, ErrorKind::RateLimit);
    assert_eq!(busy.message, "client concurrency exceeded");
    assert_eq!(busy.retry_after_seconds, None);
    drop(first);
    // the refused second request still used up the minute's second slot
    let rate = identity.acquire().err().unwrap();
    assert_eq!(rate.kind, ErrorKind::RateLimit);
    assert_eq!(rate.message, "client request rate exceeded");
    assert_eq!(rate.retry_after_seconds, Some(1));
    assert_eq!(rate.status_code(), 429);
}

#[test]
fn hashes_keys_with_sha256() {
    let digest = hash_key("abc");
    assert_eq!(
        digest.iter().map(|b| format!("{:02x}", b)).collect::<String>(),
        "ba7816bf8f01cfea414140de5dae2223b00361a396177a9cb410ff61f20015ad"
    );
}

#[test]
fn window_check_uses_the_clients_own_limit() {
    let registry = AuthRegistry::new(&[client("windowed", KEY, &[], 2, 5)]).unwrap();
    let identity = registry.authenticate(&headers(Some(KEY), None)).unwrap();
    let mut window = RateWindow::new();
    assert!(identity.admit_request(&mut window, 1_000).is_ok());
    assert!(identity.admit_request(&mut window, 2_000).is_ok());
    let refused = identity.admit_request(&mut window, 3_000).err().unwrap();
    assert_eq!(refused.kind, ErrorKind::RateLimit);
    assert_eq!(refused.message, "client request rate exceeded");
    assert_eq!(refused.retry_after_seconds, Some(1));
    assert!(!refused.is_retryable);
    // a minute after the first request, its slot is free again
    assert!(identity.admit_request(&mut window, 60_000_001_000).is_ok());
    assert!(identity.admit_request(&mut window, 60_000_001_500).is_err());
}

#[test]
fn permits_become_admitted_requests() {
    let registry = AuthRegistry::new(&[client("permitted", KEY, &[], 10, 1)]).unwrap();
    let identity = registry.authenticate(&headers(Some(KEY), None)).unwrap();
    let semaphore = Arc::new(Semaphore::new(1));
    let granted = identity.grant_permit(semaphore.clone().try_acquire_owned()).ok().unwrap();
    assert!(Arc::ptr_eq(&granted.identity, &identity));
    let refused = identity.grant_permit(semaphore.clone().try_acquire_owned()).err().unwrap();
    assert_eq!(refused.kind, ErrorKind::RateLimit);
    assert_eq!(refused.message, "client concurrency exceeded");
    assert_eq!(refused.retry_after_seconds, None);
    drop(granted);
    assert!(identity.grant_permit(semaphore.try_acquire_owned()).is_ok());
}

#[test]
fn dropping_a_permit_frees_the_slot() {
    let registry = AuthRegistry::new(&[client("slots", KEY, &[], 10, 1)]).unwrap();
    let identity = registry.authenticate(&headers(Some(KEY), None)).unwrap();
    let first = identity.acquire().ok().unwrap();
    assert!(Arc::ptr_eq(&first.identity, &identity));
    assert_eq!(identity.acquire().err().unwrap().message, "client concurrency exceeded");
    drop(first);
    assert!(identity.acquire().is_ok());
}

#[test]
fn zero_rate_limit_refuses_every_request() {
    let registry = AuthRegistry::new(&[client("closed", KEY, &[], 0, 4)]).unwrap();
    let identity = registry.authenticate(&headers(Some(KEY), None)).unwrap();
    let refused = identity.acquire().err().unwrap();
    assert_eq!(refused.message, "client request rate exceeded");
    assert_eq!(refused.retry_after_seconds, Some(1));
}

#[test]
fn each_client_gets_its_configured_concurrency() {
    let registry = AuthRegistry::new(&[client("pair", KEY, &[], 100, 2)]).unwrap();
    let identity = registry.authenticate(&headers(Some(KEY), None)).unwrap();
    assert_eq!(identity.client_id(), "pair");
    let first = identity.acquire().ok().unwrap();
    let second = identity.acquire().ok().unwrap();
    assert!(Arc::ptr_eq(first.client(), &identity));
    assert!(Arc::ptr_eq(second.client(), &identity));
    assert_eq!(identity.acquire().err().unwrap().message, "client concurrency exceeded");
}
