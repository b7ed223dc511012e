use o_sovereign::auth_system::{AuthConfig, AuthManager};
use o_sovereign::http_server::{login_handler, ApiResponse, HttpServerConfig, LoginRequest};

#[test]
fn test_api_response() {
    let response: ApiResponse<String> = ApiResponse::success("test".to_string());
    assert!(response.success);
    assert_eq!(response.data, Some("test".to_string()));

    let error_response: ApiResponse<String> = ApiResponse::error("error".to_string());
    assert!(!error_response.success);
    assert_eq!(error_response.error, Some("error".to_string()));
}

#[test]
fn test_stamped_responses_and_config() {
    let r: ApiResponse<u32> = ApiResponse::success_at(7, 100);
    assert_eq!(r.timestamp, 100);
    assert_eq!(r.data, Some(7));
    assert!(r.error.is_none());
    let e: ApiResponse<u32> = ApiResponse::error_at("bad".to_string(), 5);
    assert_eq!(e.timestamp, 5);
    assert!(e.data.is_none());
    let c = HttpServerConfig::default();
    assert_eq!(c.host, "127.0.0.1");
    assert_eq!(c.port, 8080);
    assert_eq!(c.request_timeout_secs, 30);
    assert_eq!(c.max_body_size_mb, 10);
    assert!(c.enable_cors);
    assert_eq!(c.allowed_origins, vec!["*".to_string()]);
}

#[test]
fn login_answers_with_placeholder_user() {
    let mut auth = AuthManager::new(AuthConfig::default());
    let req = LoginRequest { username: "ann".to_string(), password: "pw".to_string() };
    let r = login_handler(&mut auth, &req, "tok".to_string(), 50).unwrap();
    assert!(r.success);
    assert_eq!(r.timestamp, 50);
    let d = r.data.unwrap();
    assert_eq!(d.access_token, "tok");
    assert_eq!(d.refresh_token, "refresh_user_id");
    assert_eq!(d.expires_in, 3600);
    assert!(auth.has_session("user_id"));
}
