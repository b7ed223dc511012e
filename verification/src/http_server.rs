//! The answers of the HTTP interface and its settings; serving is the program's part.
use vstd::prelude::*;
use crate::clock::now_seconds;
use crate::text::owned;
use crate::auth_system::{AuthManager, AuthView};
use crate::assoc::upsert;

verus! {

/// How the server listens.
#[derive(Debug)]
pub struct HttpServerConfig {
    pub host: String,
    pub port: u16,
    pub request_timeout_secs: u64,
    pub max_body_size_mb: usize,
    pub enable_cors: bool,
    pub allowed_origins: Vec<String>,
}

impl Default for HttpServerConfig {
    /// Local port 8080, thirty seconds per request, bodies up to 10 MB, CORS open to all.
    fn default() -> (r: Self)
        ensures
            r.host@ == "127.0.0.1"@,
            r.port == 8080,
            r.request_timeout_secs == 30,
            r.max_body_size_mb == 10,
            r.enable_cors,
            r.allowed_origins@.len() == 1 && r.allowed_origins@[0]@ == "*"@,
    {
        let mut origins: Vec<String> = Vec::new();
        origins.push(owned("*"));
        HttpServerConfig {
            host: owned("127.0.0.1"),
            port: 8080,
            request_timeout_secs: 30,
            max_body_size_mb: 10,
            enable_cors: true,
            allowed_origins: origins,
        }
    }
}

/// An answer of the interface.
#[derive(Debug)]
pub struct ApiResponse<T> {
    pub success: bool,
    pub data: Option<T>,
    pub error: Option<String>,
    /// Unix seconds.
    pub timestamp: i64,
}

impl<T> ApiResponse<T> {
    /// A successful answer carrying `data`, stamped `now`.
    pub fn success_at(data: T, now: i64) -> (r: Self)
        ensures
            r.success && r.data == Some(data) && r.error is None && r.timestamp == now,
    {
        ApiResponse { success: true, data: Some(data), error: None, timestamp: now }
    }

    /// A failed answer carrying `error`, stamped `now`.
    pub fn error_at(error: String, now: i64) -> (r: Self)
        ensures
            !r.success && r.data is None && r.error == Some(error) && r.timestamp == now,
    {
        ApiResponse { success: false, data: None, error: Some(error), timestamp: now }
    }

    /// A successful answer carrying `data`, stamped now.
    pub fn success(data: T) -> (r: Self)
        ensures
            r.success && r.data == Some(data) && r.error is None,
    {
        Self::success_at(data, now_seconds())
    }

    /// A failed answer carrying `error`, stamped now.
    pub fn error(error: String) -> (r: Self)
        ensures
            !r.success && r.data is None && r.error == Some(error),
    {
        Self::error_at(error, now_seconds())
    }
}

/// A chat request: the message and, optionally, the protocol to use.
#[derive(Debug)]
pub struct ChatRequest {
    pub message: String,
    pub protocol: Option<String>,
}

/// A login request.
#[derive(Debug)]
pub struct LoginRequest {
    pub username: String,
    pub password: String,
}

/// The answer to a login: the tokens and how long the access token lasts.
#[derive(Debug)]
pub struct LoginResponse {
    pub access_token: String,
    pub refresh_token: String,
    /// Seconds.
    pub expires_in: u64,
}

/// Answers a login: credentials are not yet checked, so every request gets a token pair for the
/// placeholder user `user_id` (name `username`, role `user`), whose access token is
/// `access_token` (the claims `auth.issue_claims` gives for that user, written out), announced
/// to last an hour.
pub fn login_handler(auth: &mut AuthManager, request: &LoginRequest, access_token: String, now: i64) -> (r: Result<
    ApiResponse<LoginResponse>,
    String,
>)
    ensures
        r is Ok,
        r matches Ok(resp) ==> resp.success && resp.error is None && resp.timestamp == now && resp.data is Some,
        r matches Ok(resp) ==> (resp.data matches Some(d) ==> (d.access_token@ == access_token@
            && d.refresh_token@ == "refresh_user_id"@ && d.expires_in == 3600)),
        final(auth)@ == (AuthView { sessions: upsert(old(auth)@.sessions, "user_id"@, "username"@), ..old(auth)@ }),
{
    let pair = auth.generate_token_pair("user_id", "username", access_token, now);
    match pair {
        Ok(p) => {
            proof {
                reveal_strlit("refresh_");
                reveal_strlit("user_id");
                reveal_strlit("refresh_user_id");
                assert(p.refresh_token@ =~= "refresh_user_id"@);
            }
            Ok(ApiResponse::success_at(
                LoginResponse { access_token: p.access_token, refresh_token: p.refresh_token, expires_in: 3600 },
                now,
            ))
        },
        Err(e) => Err(e),
    }
}

} // verus!
