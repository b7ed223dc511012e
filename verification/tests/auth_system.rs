use o_sovereign::auth_system::{AuthConfig, AuthManager, Claims};

fn claims(exp: u64) -> Claims {
    Claims {
        sub: "u1".to_string(),
        exp,
        iat: 0,
        user_id: "u1".to_string(),
        username: "Ann".to_string(),
        roles: vec!["admin".to_string()],
    }
}

#[test]
fn test_auth_defaults() {
    let c = AuthConfig::default();
    assert_eq!(c.jwt_secret, "change-this-in-production");
    assert_eq!(c.access_token_ttl_secs, 3600);
    assert_eq!(c.refresh_token_ttl_secs, 604800);
}

#[test]
fn test_token_pair_and_sessions() {
    let mut auth = AuthManager::new(AuthConfig::default());
    let c = auth.issue_claims("u1", "Ann", &vec!["admin".to_string()], 1000);
    assert_eq!(c.exp, 4600);
    assert_eq!(c.iat, 1000);
    assert_eq!(c.roles, vec!["admin".to_string()]);
    let pair = auth.generate_token_pair("u1", "Ann", "{\"sub\":\"u1\"}".to_string(), 1000).unwrap();
    assert_eq!(pair.access_token, "{\"sub\":\"u1\"}");
    assert_eq!(pair.refresh_token, "refresh_u1");
    assert_eq!(pair.expires_in, 3600);
    assert_eq!(pair.token_type, "Bearer");
    assert!(auth.has_session("u1"));
    auth.logout("u1").unwrap();
    assert!(!auth.has_session("u1"));
    let near_end = auth.issue_claims("u2", "Bo", &vec![], u64::MAX - 1);
    assert_eq!(near_end.exp, u64::MAX);
}

#[test]
fn test_verify_token() {
    let mut auth = AuthManager::new(AuthConfig::default());
    let ok = auth.verify_token("t", Ok(claims(100)), 50).unwrap();
    assert_eq!(ok.username, "Ann");
    assert_eq!(auth.verify_token("t", Ok(claims(100)), 101).unwrap_err(), "Token expired");
    assert_eq!(auth.verify_token("t", Err("bad json".to_string()), 0).unwrap_err(), "bad json");
    auth.revoke_token("t", 5).unwrap();
    assert_eq!(auth.verify_token("t", Ok(claims(100)), 50).unwrap_err(), "Token revoked");
    assert!(auth.verify_token("other", Ok(claims(100)), 50).is_ok());
}
