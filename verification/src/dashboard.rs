use vstd::prelude::*;
use vstd::utf8::*;
use argon2::password_hash::{PasswordHash, PasswordHasher, PasswordVerifier, SaltString};
use argon2::Argon2;
use rand_core::OsRng;
use crate::error::{ErrorKind, ProxyError, opt_text};
use crate::text::{comma_separated, int_text, split_comma_separated, starts_with, texts, decimal};

verus! {

#[verifier::external_type_specification]
#[verifier::external_body]
pub struct ExSaltString(argon2::password_hash::SaltString);

#[verifier::external_type_specification]
#[verifier::external_body]
pub struct ExPasswordHashError(argon2::password_hash::Error);

/// Whether Argon2 (default parameters) accepts `password` against the
/// stored PHC string `phc`.
pub uninterp spec fn argon2_accepts(password: Seq<u8>, phc: Seq<char>) -> bool;

/// Trusted: `PasswordHash::new` parses the stored PHC string (the
/// conversion of the argument), then `Argon2::default().verify_password`
/// checks the password against it; the answer is whether both succeed. It
/// depends on the two arguments alone, which `argon2_accepts` names.
#[verifier::external_body]
fn argon2_verify(password: &[u8], phc: &str) -> (r: bool)
    ensures
        r == argon2_accepts(password@, phc@),
{
    match PasswordHash::new(phc) {
        Ok(parsed) => Argon2::default().verify_password(password, &parsed).is_ok(),
        Err(_) => false,
    }
}

/// The start of the PHC string that Argon2 with default parameters writes:
/// the Argon2id algorithm, version 19, 19456 KiB of memory, 2 passes and 1
/// lane.
pub open spec fn argon2_phc_prefix() -> Seq<char> {
    "$argon2id$v=19$m=19456,t=2,p=1$"@
}

/// Trusted: `SaltString::generate` with the operating system's random
/// source (`rand_core::OsRng`), then `Argon2::default().hash_password` with
/// that salt, written in PHC string form; the salt is handed back as text
/// beside the result.
/// - The salt is 16 random bytes in unpadded B64, so 22 characters; which
///   ones is chance and not stated. Generating it panics only when the
///   operating system's random source fails.
/// - With such a salt and default parameters, the crate's source fails only
///   on a password longer than `MAX_PWD_LEN` (`0xFFFF_FFFF`) bytes.
/// - The PHC string is `$argon2id$v=19$m=19456,t=2,p=1$`, the salt, `$`
///   and the B64 digest; the crate's documentation shows that it verifies
///   against the same password with `Argon2::default().verify_password`.
#[verifier::external_body]
fn argon2_hash_fresh(password: &[u8]) -> (r: (String, Result<String, argon2::password_hash::Error>))
    ensures
        r.0@.len() == 22,
        password@.len() <= 0xFFFF_FFFF ==> r.1 is Ok,
        r.1 matches Ok(h) ==> argon2_accepts(password@, h@) && (argon2_phc_prefix() + r.0@
            + "$"@).is_prefix_of(h@),
{
    let salt = SaltString::generate(&mut OsRng);
    let hash = match Argon2::default().hash_password(password, &salt) {
        Ok(hash) => Ok(hash.to_string()),
        Err(error) => Err(error),
    };
    (salt.as_str().to_owned(), hash)
}

/// Trusted: the `Display` text of a `password_hash::Error`. Nothing is
/// stated of the text.
#[verifier::external_body]
fn password_hash_error_text(error: &argon2::password_hash::Error) -> String {
    format!("{}", error)
}

/// The answer to a dashboard API call: the data on success, the error
/// message otherwise.
pub struct ApiResponse<T> {
    pub success: bool,
    pub data: Option<T>,
    pub error: Option<String>,
}

impl<T> ApiResponse<T> {
    /// A successful answer carrying `data`.
    pub fn success(data: T) -> (r: Self)
        ensures
            r.success,
            r.data == Some(data),
            r.error is None,
    {
        ApiResponse { success: true, data: Some(data), error: None }
    }

    /// A failed answer carrying the error message.
    pub fn error(error: String) -> (r: Self)
        ensures
            !r.success,
            r.data is None,
            r.error == Some(error),
    {
        ApiResponse { success: false, data: None, error: Some(error) }
    }
}

/// A stored version of the proxy configuration.
pub struct ConfigVersion {
    pub id: i64,
    pub version: i32,
    pub config_data: String,
    pub created_at: String,
    pub created_by: String,
    pub is_current: bool,
}

/// A dashboard sign-in attempt.
pub struct LoginRequest {
    pub username: String,
    pub password: String,
}

/// A dashboard user as stored, with the PHC string of its password.
pub struct AuthUser {
    pub id: i64,
    pub username: String,
    pub password_hash: String,
}

/// A route as the dashboard lists it: its id and its model patterns.
pub struct DbRoute {
    pub id: String,
    pub models: Vec<String>,
}

/// A client as the dashboard lists it.
pub struct DbClient {
    pub id: String,
    pub allowed_routes: Vec<String>,
    pub requests_per_minute: u32,
    pub concurrent_requests: usize,
}

impl DbRoute {
    /// The route of a stored row, whose models are kept as one
    /// comma-separated column.
    pub fn from_columns(route_id: String, models: &str) -> (r: Self)
        ensures
            r.id == route_id,
            texts(r.models@) == comma_separated(models@),
    {
        DbRoute { id: route_id, models: split_comma_separated(models) }
    }
}

impl DbClient {
    /// The client of a stored row, whose allowed routes are kept as one
    /// comma-separated column.
    pub fn from_columns(
        client_id: String,
        allowed_routes: &str,
        requests_per_minute: u32,
        concurrent_requests: u32,
    ) -> (r: Self)
        ensures
            r.id == client_id,
            texts(r.allowed_routes@) == comma_separated(allowed_routes@),
            r.requests_per_minute == requests_per_minute,
            r.concurrent_requests == concurrent_requests as usize,
    {
        DbClient {
            id: client_id,
            allowed_routes: split_comma_separated(allowed_routes),
            requests_per_minute,
            concurrent_requests: concurrent_requests as usize,
        }
    }
}

/// The PHC string of the password, hashed with Argon2 (default parameters)
/// and a fresh random salt of 22 B64 characters, which the string embeds.
/// Only a password longer than `0xFFFF_FFFF` bytes cannot be hashed.
pub fn hash_password(password: &str) -> (r: Result<String, ProxyError>)
    ensures
        encode_utf8(password@).len() <= 0xFFFF_FFFF ==> r is Ok,
        r matches Ok(h) ==> argon2_accepts(encode_utf8(password@), h@) && exists|salt: Seq<char>|
            salt.len() == 22 && (#[trigger] (argon2_phc_prefix() + salt + "$"@)).is_prefix_of(h@),
        r matches Err(e) ==> e.kind == ErrorKind::Internal && "Failed to hash password: "@.is_prefix_of(
            e.message@,
        ) && e.request_id is None && e.retry_after_seconds is None && !e.is_retryable,
{
    let (salt, hashed) = argon2_hash_fresh(password.as_bytes());
    match hashed {
        Ok(hash) => {
            proof {
                let witness = salt@;
                assert(witness.len() == 22 && (argon2_phc_prefix() + witness + "$"@).is_prefix_of(
                    hash@,
                ));
            }
            Ok(hash)
        },
        Err(error) => {
            let mut message = "Failed to hash password: ".to_owned();
            let detail = password_hash_error_text(&error);
            message.append(detail.as_str());
            Err(ProxyError::new(ErrorKind::Internal, message.as_str()))
        },
    }
}

/// Whether the password matches the stored PHC string.
pub fn verify_password(password: &str, password_hash: &str) -> (r: bool)
    ensures
        r == argon2_accepts(encode_utf8(password@), password_hash@),
{
    argon2_verify(password.as_bytes(), password_hash)
}

/// The text of the error reported for a failed database call.
pub fn database_error(detail: &str) -> (r: String)
    ensures
        r@ == "Database error: "@ + detail@,
{
    let mut message = "Database error: ".to_owned();
    message.append(detail);
    message
}


/// Name of the cookie that carries a dashboard session.
pub const SESSION_COOKIE: &'static str = "auth_token";

/// Value of the session cookie once signed in.
pub const SESSION_VALUE: &'static str = "authenticated";

/// Whether a dashboard path is open without a session: the sign-in page
/// and the static files.
pub fn is_open_path(path: &str) -> (r: bool)
    ensures
        r == ("/dashboard/login"@.is_prefix_of(path@) || "/static/"@.is_prefix_of(path@)),
{
    starts_with(path, "/dashboard/login") || starts_with(path, "/static/")
}

/// Whether the session cookie, if any, shows a signed-in user.
pub fn has_session(cookie_value: Option<&str>) -> (r: bool)
    ensures
        r == (cookie_value matches Some(v) && v@ == SESSION_VALUE@),
{
    match cookie_value {
        Some(value) => crate::text::same_text(value, SESSION_VALUE),
        None => false,
    }
}

/// Whether a dashboard request goes through without being sent to the
/// sign-in page: an open path, or a request with a signed-in session.
pub fn admits_dashboard_request(path: &str, cookie_value: Option<&str>) -> (r: bool)
    ensures
        r == (("/dashboard/login"@.is_prefix_of(path@) || "/static/"@.is_prefix_of(path@)) || (
        cookie_value matches Some(v) && v@ == SESSION_VALUE@)),
{
    is_open_path(path) || has_session(cookie_value)
}

/// What a sign-in attempt comes to: a session, or a refusal with its message.
pub enum LoginOutcome {
    SignedIn,
    Refused(String),
}

/// The first step of a sign-in: decided at once, or the stored user must be
/// looked up.
pub enum LoginStart {
    Done(LoginOutcome),
    LookUpUser,
}

/// Whether a sign-in attempt leaves a field empty.
pub open spec fn missing_field(request: LoginRequest) -> bool {
    request.username@.len() == 0 || request.password@.len() == 0
}

/// Whether a sign-in attempt is the administrator with the admin secret.
pub open spec fn is_admin_login(request: LoginRequest, admin_secret: Seq<char>) -> bool {
    request.username@ == "admin"@ && request.password@ == admin_secret
}

/// Decides a sign-in attempt from the request alone where it can: empty
/// fields are refused, the administrator with the admin secret is signed in,
/// any other attempt needs the stored user.
pub fn login_start(request: &LoginRequest, admin_secret: &str) -> (r: LoginStart)
    ensures
        missing_field(*request) ==> (r matches LoginStart::Done(LoginOutcome::Refused(m)) && m@
            == "Username and password are required"@),
        !missing_field(*request) && is_admin_login(*request, admin_secret@) ==> r
            matches LoginStart::Done(LoginOutcome::SignedIn),
        !missing_field(*request) && !is_admin_login(*request, admin_secret@) ==> r is LookUpUser,
{
    if request.username.as_str().is_empty() || request.password.as_str().is_empty() {
        return LoginStart::Done(
            LoginOutcome::Refused("Username and password are required".to_owned()),
        );
    }
    if crate::text::same_text(request.username.as_str(), "admin") && crate::text::same_text(
        request.password.as_str(),
        admin_secret,
    ) {
        LoginStart::Done(LoginOutcome::SignedIn)
    } else {
        LoginStart::LookUpUser
    }
}

/// The outcome of a sign-in, as a plain value: `Ok` when signed in, else
/// the refusal's message.
pub open spec fn login_verdict(password: Seq<char>, stored: Result<Option<Seq<char>>, Seq<char>>) -> Result<(), Seq<char>> {
    match stored {
        Ok(Some(phc)) => if argon2_accepts(encode_utf8(password), phc) {
            Ok(())
        } else {
            Err("Invalid credentials"@)
        },
        Ok(None) => Err("Invalid credentials"@),
        Err(e) => Err("Database error: "@ + e),
    }
}

/// The outcome as a plain value.
pub open spec fn outcome_view(o: LoginOutcome) -> Result<(), Seq<char>> {
    match o {
        LoginOutcome::SignedIn => Ok(()),
        LoginOutcome::Refused(m) => Err(m@),
    }
}

/// The stored password of a looked-up user, as a plain value.
pub open spec fn stored_password(lookup: Result<Option<AuthUser>, String>) -> Result<Option<Seq<char>>, Seq<char>> {
    match lookup {
        Ok(Some(user)) => Ok(Some(user.password_hash@)),
        Ok(None) => Ok(None),
        Err(e) => Err(e@),
    }
}

/// Decides a sign-in attempt from the user looked up by its name: the
/// password must match the user's stored hash.
pub fn login_finish(request: &LoginRequest, lookup: Result<Option<AuthUser>, String>) -> (r: LoginOutcome)
    ensures
        outcome_view(r) == login_verdict(request.password@, stored_password(lookup)),
{
    match lookup {
        Ok(Some(user)) => {
            if verify_password(request.password.as_str(), user.password_hash.as_str()) {
                LoginOutcome::SignedIn
            } else {
                LoginOutcome::Refused("Invalid credentials".to_owned())
            }
        },
        Ok(None) => LoginOutcome::Refused("Invalid credentials".to_owned()),
        Err(e) => LoginOutcome::Refused(database_error(e.as_str())),
    }
}

/// Law: a user whose stored hash was made from a password by
/// [`hash_password`] signs in with that password.
pub proof fn lemma_hashed_password_signs_in(password: Seq<char>, phc: Seq<char>)
    requires
        argon2_accepts(encode_utf8(password), phc),
    ensures
        login_verdict(password, Ok(Some(phc))) == Ok::<(), Seq<char>>(()),
{
}

/// The answer to a lookup of one stored item.
pub fn lookup_response<T>(result: Result<Option<T>, String>, not_found: &str) -> (r: ApiResponse<T>)
    ensures
        match result {
            Ok(Some(d)) => r.success && r.data == Some(d) && r.error is None,
            Ok(None) => !r.success && r.data is None && opt_text(r.error) == Some(not_found@),
            Err(e) => !r.success && r.data is None && opt_text(r.error) == Some(
                "Database error: "@ + e@,
            ),
        },
{
    match result {
        Ok(Some(data)) => ApiResponse::success(data),
        Ok(None) => ApiResponse::error(not_found.to_owned()),
        Err(e) => ApiResponse::error(database_error(e.as_str())),
    }
}

/// The answer to a listing of stored items.
pub fn list_response<T>(result: Result<Vec<T>, String>) -> (r: ApiResponse<Vec<T>>)
    ensures
        match result {
            Ok(items) => r.success && r.data == Some(items) && r.error is None,
            Err(e) => !r.success && r.data is None && opt_text(r.error) == Some(
                "Database error: "@ + e@,
            ),
        },
{
    match result {
        Ok(items) => ApiResponse::success(items),
        Err(e) => ApiResponse::error(database_error(e.as_str())),
    }
}

/// The answer to a write that needs no match: `done` when it succeeded.
pub fn write_response<T>(result: Result<(), String>, done: T) -> (r: ApiResponse<T>)
    ensures
        match result {
            Ok(_) => r.success && r.data == Some(done) && r.error is None,
            Err(e) => !r.success && r.data is None && opt_text(r.error) == Some(
                "Database error: "@ + e@,
            ),
        },
{
    match result {
        Ok(()) => ApiResponse::success(done),
        Err(e) => ApiResponse::error(database_error(e.as_str())),
    }
}

/// The item a lookup found, or the failed answer that reports why there is
/// none: `not_found` when nothing matched, the database error when the
/// lookup failed.
pub fn found_or_answer<T, U>(result: Result<Option<T>, String>, not_found: &str) -> (r: Result<T, ApiResponse<U>>)
    ensures
        match result {
            Ok(Some(d)) => r == Ok::<T, ApiResponse<U>>(d),
            Ok(None) => r matches Err(a) && !a.success && a.data is None && opt_text(a.error)
                == Some(not_found@),
            Err(e) => r matches Err(a) && !a.success && a.data is None && opt_text(a.error)
                == Some("Database error: "@ + e@),
        },
{
    match result {
        Ok(Some(data)) => Ok(data),
        Ok(None) => Err(ApiResponse::error(not_found.to_owned())),
        Err(e) => Err(ApiResponse::error(database_error(e.as_str()))),
    }
}

/// The answer to an update or delete of one stored item, from the number of
/// rows it changed: `done` when some row changed, `not_found` when none did.
pub fn change_response(result: Result<u64, String>, done: &'static str, not_found: &str) -> (r: ApiResponse<&'static str>)
    ensures
        match result {
            Ok(rows) => if rows > 0 {
                r.success && r.data == Some(done) && r.error is None
            } else {
                !r.success && r.data is None && opt_text(r.error) == Some(not_found@)
            },
            Err(e) => !r.success && r.data is None && opt_text(r.error) == Some(
                "Database error: "@ + e@,
            ),
        },
{
    match result {
        Ok(rows) => {
            if rows > 0 {
                ApiResponse::success(done)
            } else {
                ApiResponse::error(not_found.to_owned())
            }
        },
        Err(e) => ApiResponse::error(database_error(e.as_str())),
    }
}

/// The number of the next configuration version: one above the highest
/// stored, or 1 when none is known.
pub fn next_config_version(latest: Option<i32>) -> (r: i32)
    requires
        latest matches Some(v) ==> v < i32::MAX,
    ensures
        r == match latest {
            Some(v) => v + 1,
            None => 1,
        },
{
    match latest {
        Some(v) => v + 1,
        None => 1,
    }
}

/// The message that reports a stored configuration update.
pub fn config_updated_message(version: i32) -> (r: String)
    ensures
        r@ == "Configuration updated to version "@ + int_text(version as int),
{
    let mut message = "Configuration updated to version ".to_owned();
    let number = decimal(version as i64);
    message.append(number.as_str());
    message
}

/// The message that reports a revert to an earlier version, stored anew.
pub fn reverted_message(from: i32, to: i32) -> (r: String)
    ensures
        r@ == "Reverted to version "@ + int_text(from as int) + " as version "@ + int_text(
            to as int,
        ),
{
    let mut message = "Reverted to version ".to_owned();
    let first = decimal(from as i64);
    message.append(first.as_str());
    message.append(" as version ");
    let second = decimal(to as i64);
    message.append(second.as_str());
    message
}

} // verus!
