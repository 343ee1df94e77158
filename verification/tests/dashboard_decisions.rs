use claude_code_proxy::dashboard::{
    found_or_answer,
    admits_dashboard_request,
    change_response, config_updated_message, database_error, has_session, hash_password,
    is_open_path, list_response, login_finish, login_start, lookup_response, next_config_version,
    reverted_message, verify_password, write_response, ApiResponse, AuthUser, DbClient, DbRoute,
    LoginOutcome, LoginRequest, LoginStart, SESSION_COOKIE, SESSION_VALUE,
};

fn request(username: &str, password: &str) -> LoginRequest {
    LoginRequest { username: username.to_string(), password: password.to_string() }
}

#[test]
fn api_responses() {
    let ok = ApiResponse::success(5);
    assert!(ok.success);
    assert_eq!(ok.data, Some(5));
    assert_eq!(ok.error, None);
    let failed: ApiResponse<i32> = ApiResponse::error("nope".to_string());
    assert!(!failed.success);
    assert_eq!(failed.data, None);
    assert_eq!(failed.error.as_deref(), Some("nope"));
}

#[test]
fn rows_become_routes_and_clients() {
    let route = DbRoute::from_columns("sonnet".to_string(), "model-*-large-*,large-*");
    assert_eq!(route.id, "sonnet");
    assert_eq!(route.models, vec!["model-*-large-*", "large-*"]);
    let client = DbClient::from_columns("engineering".to_string(), "sonnet, haiku", 600, 100);
    assert_eq!(client.id, "engineering");
    assert_eq!(client.allowed_routes, vec!["sonnet", "haiku"]);
    assert_eq!(client.requests_per_minute, 600);
    assert_eq!(client.concurrent_requests, 100);
}

#[test]
fn hashed_passwords_verify() {
    let hash = hash_password("admin-secret").unwrap();
    assert!(hash.starts_with("$argon2id$v=19$m=19456,t=2,p=1$"));
    let rest = &hash["$argon2id$v=19$m=19456,t=2,p=1$".len()..];
    assert_eq!(rest.find('$'), Some(22));
    assert_ne!(hash_password("admin-secret").unwrap(), hash);
    assert!(verify_password("admin-secret", &hash));
    assert!(!verify_password("other", &hash));
    assert!(!verify_password("admin-secret", "not a phc string"));
}

#[test]
fn login_needs_both_fields() {
    match login_start(&request("", "x"), "secret") {
        LoginStart::Done(LoginOutcome::Refused(m)) => assert_eq!(m, "Username and password are required"),
        _ => panic!("empty username accepted"),
    }
    match login_start(&request("admin", ""), "") {
        LoginStart::Done(LoginOutcome::Refused(m)) => assert_eq!(m, "Username and password are required"),
        _ => panic!("empty password accepted"),
    }
}

#[test]
fn admin_secret_signs_in() {
    assert!(matches!(login_start(&request("admin", "admin-secret"), "admin-secret"), LoginStart::Done(LoginOutcome::SignedIn)));
    assert!(matches!(login_start(&request("admin", "wrong"), "admin-secret"), LoginStart::LookUpUser));
    assert!(matches!(login_start(&request("alice", "admin-secret"), "admin-secret"), LoginStart::LookUpUser));
}

#[test]
fn stored_users_sign_in_with_their_password() {
    let user = AuthUser { id: 1, username: "admin".to_string(), password_hash: hash_password("pw").unwrap() };
    let same = AuthUser { id: 1, username: "admin".to_string(), password_hash: user.password_hash.clone() };
    assert!(matches!(login_finish(&request("admin", "pw"), Ok(Some(user))), LoginOutcome::SignedIn));
    match login_finish(&request("admin", "bad"), Ok(Some(same))) {
        LoginOutcome::Refused(m) => assert_eq!(m, "Invalid credentials"),
        LoginOutcome::SignedIn => panic!("wrong password accepted"),
    }
    match login_finish(&request("bob", "pw"), Ok(None)) {
        LoginOutcome::Refused(m) => assert_eq!(m, "Invalid credentials"),
        LoginOutcome::SignedIn => panic!("unknown user accepted"),
    }
    match login_finish(&request("bob", "pw"), Err("disk I/O error".to_string())) {
        LoginOutcome::Refused(m) => assert_eq!(m, "Database error: disk I/O error"),
        LoginOutcome::SignedIn => panic!("database failure accepted"),
    }
}

#[test]
fn sessions_and_open_paths() {
    assert_eq!(SESSION_COOKIE, "auth_token");
    assert!(has_session(Some(SESSION_VALUE)));
    assert!(!has_session(Some("authenticated ")));
    assert!(!has_session(None));
    assert!(is_open_path("/dashboard/login"));
    assert!(is_open_path("/static/app.js"));
    assert!(!is_open_path("/dashboard"));
    assert!(!is_open_path("/static"));
}

#[test]
fn dashboard_requests_need_a_session_or_an_open_path() {
    assert!(admits_dashboard_request("/dashboard/login", None));
    assert!(admits_dashboard_request("/static/style.css", Some("stale")));
    assert!(admits_dashboard_request("/api/clients", Some("authenticated")));
    assert!(!admits_dashboard_request("/api/clients", None));
    assert!(!admits_dashboard_request("/dashboard", Some("expired")));
}

#[test]
fn lookup_answers() {
    let found = lookup_response(Ok(Some(3)), "Client not found");
    assert_eq!(found.data, Some(3));
    let missing: ApiResponse<i32> = lookup_response(Ok(None), "Client not found");
    assert_eq!(missing.error.as_deref(), Some("Client not found"));
    let failed: ApiResponse<i32> = lookup_response(Err("locked".to_string()), "Client not found");
    assert_eq!(failed.error.as_deref(), Some("Database error: locked"));
    let listed = list_response(Ok(vec![1, 2]));
    assert_eq!(listed.data, Some(vec![1, 2]));
    let unlisted: ApiResponse<Vec<i32>> = list_response(Err("gone".to_string()));
    assert_eq!(unlisted.error.as_deref(), Some("Database error: gone"));
}

#[test]
fn write_and_change_answers() {
    let created = write_response(Ok(()), "Client created successfully");
    assert_eq!(created.data, Some("Client created successfully"));
    let refused = write_response(Err("UNIQUE constraint failed".to_string()), "Client created successfully");
    assert_eq!(refused.error.as_deref(), Some("Database error: UNIQUE constraint failed"));
    let updated = change_response(Ok(1), "Client updated successfully", "Client not found");
    assert!(updated.success);
    assert_eq!(updated.data, Some("Client updated successfully"));
    let absent = change_response(Ok(0), "Client deleted successfully", "Client not found");
    assert!(!absent.success);
    assert_eq!(absent.error.as_deref(), Some("Client not found"));
    assert_eq!(database_error("x"), "Database error: x");
}

#[test]
fn versions_count_up() {
    assert_eq!(next_config_version(None), 1);
    assert_eq!(next_config_version(Some(0)), 1);
    assert_eq!(next_config_version(Some(7)), 8);
    assert_eq!(config_updated_message(8), "Configuration updated to version 8");
    assert_eq!(reverted_message(3, 9), "Reverted to version 3 as version 9");
    assert_eq!(reverted_message(-1, 10), "Reverted to version -1 as version 10");
}

#[test]
fn lookups_yield_the_item_or_the_refusal() {
    let found: Result<String, ApiResponse<String>> =
        found_or_answer(Ok(Some("data".to_string())), "Version not found");
    assert_eq!(found.ok(), Some("data".to_string()));
    let missing: ApiResponse<String> =
        found_or_answer::<String, String>(Ok(None), "Version not found").err().unwrap();
    assert!(!missing.success);
    assert!(missing.data.is_none());
    assert_eq!(missing.error.as_deref(), Some("Version not found"));
    let failed: ApiResponse<String> =
        found_or_answer::<String, String>(Err("locked".to_string()), "Version not found").err().unwrap();
    assert_eq!(failed.error.as_deref(), Some("Database error: locked"));
    let stored = write_response(Ok(()), reverted_message(3, 7));
    assert_eq!(stored.data.as_deref(), Some("Reverted to version 3 as version 7"));
    let lost = write_response(Err("full".to_string()), reverted_message(3, 7));
    assert_eq!(lost.error.as_deref(), Some("Database error: full"));
}
