use auth_core::authorize::{authenticate, authorize_request, AuthorizeError};
use auth_core::claims::Claims;
use auth_core::cookie::{cookie_authenticate, CookieAuthError};
use auth_core::extract::{bearer_token, cookie_token, extract_token, CredentialSource};
use auth_core::jwt::{jwt_authenticate, AuthError};
use auth_core::jwt_authorize::JwtAuth;
use auth_core::socket::{socket_reply, SocketAction, SocketMessage};

const SECRET: &str = "guard-secret";
const NOW: i64 = 1_000_000;

fn token_for(sub: &str, roles: Vec<&str>, policies: Vec<&str>) -> String {
    let c = Claims {
        sub: sub.to_string(),
        iat: NOW - 100,
        exp: NOW + 1000,
        roles: roles.into_iter().map(String::from).collect(),
        policies: policies.into_iter().map(String::from).collect(),
    };
    c.encode(SECRET).unwrap()
}

#[test]
fn bearer_token_strips_exactly_one_prefix() {
    assert_eq!(bearer_token("Bearer abc"), Some("abc".to_string()));
    assert_eq!(bearer_token("Bearer Bearer x"), Some("Bearer x".to_string()));
    assert_eq!(bearer_token("bearer abc"), None);
    assert_eq!(bearer_token("Basic abc"), None);
    assert_eq!(bearer_token("Bearer"), None);
    assert_eq!(bearer_token("Bearer "), Some("".to_string()));
}

#[test]
fn cookie_token_finds_the_auth_cookie() {
    assert_eq!(cookie_token("auth=tok"), Some("tok".to_string()));
    assert_eq!(cookie_token("other=1; auth=tok"), Some("tok".to_string()));
    assert_eq!(cookie_token("  auth=tok  ; other=1"), Some("tok".to_string()));
    assert_eq!(cookie_token("authx=tok"), None);
    assert_eq!(cookie_token("other=1"), None);
    assert_eq!(cookie_token("auth=a=b"), Some("a=b".to_string()));
    assert_eq!(cookie_token(""), None);
}

#[test]
fn extraction_prefers_the_header() {
    let r = extract_token(Some("Bearer h"), Some("auth=c"));
    assert_eq!(r, Some((CredentialSource::Header, "h".to_string())));
    let r = extract_token(None, Some("auth=c"));
    assert_eq!(r, Some((CredentialSource::Cookie, "c".to_string())));
    // an empty bearer token does not shadow the cookie
    let r = extract_token(Some("Bearer "), Some("auth=c"));
    assert_eq!(r, Some((CredentialSource::Cookie, "c".to_string())));
    assert_eq!(extract_token(None, None), None);
    assert_eq!(extract_token(Some("Basic x"), Some("auth=")), None);
}

#[test]
fn precedence_header_claims_win() {
    let header = format!("Bearer {}", token_for("alice", vec![], vec![]));
    let cookie = format!("auth={}", token_for("bob", vec![], vec![]));
    let c = authorize_request(Some(&header), Some(&cookie), SECRET, NOW, &[], &[]).unwrap();
    assert_eq!(c.sub, "alice");
    // with no header, the cookie's claims are used
    let c = authorize_request(None, Some(&cookie), SECRET, NOW, &[], &[]).unwrap();
    assert_eq!(c.sub, "bob");
}

#[test]
fn role_or_semantics_in_the_guard() {
    let header = format!("Bearer {}", token_for("alice", vec!["editor"], vec![]));
    // any one qualifying role suffices
    let r = authorize_request(Some(&header), None, SECRET, NOW, &["admin", "editor"], &[]);
    assert_eq!(r.unwrap().sub, "alice");
    // no qualifying role: forbidden
    let r = authorize_request(Some(&header), None, SECRET, NOW, &["admin"], &[]);
    assert_eq!(r.unwrap_err(), AuthorizeError::Forbidden);
    // empty requirement restricts nothing
    let r = authorize_request(Some(&header), None, SECRET, NOW, &[], &[]);
    assert!(r.is_ok());
}

#[test]
fn policy_and_semantics_in_the_guard() {
    let header = format!("Bearer {}", token_for("alice", vec![], vec!["read"]));
    // all declared policies must be held
    let r = authorize_request(Some(&header), None, SECRET, NOW, &[], &["read", "write"]);
    assert_eq!(r.unwrap_err(), AuthorizeError::Forbidden);
    let r = authorize_request(Some(&header), None, SECRET, NOW, &[], &["read"]);
    assert!(r.is_ok());
}

#[test]
fn role_check_on_claims() {
    let c = Claims {
        sub: "alice".to_string(),
        iat: 0,
        exp: 10,
        roles: vec!["editor".to_string()],
        policies: vec![],
    };
    assert!(c.has_any_role(&["admin", "editor"]));
    assert!(!c.has_any_role(&["admin"]));
    assert!(c.has_any_role(&[]));
}

#[test]
fn policy_check_on_claims() {
    let c = Claims {
        sub: "alice".to_string(),
        iat: 0,
        exp: 10,
        roles: vec![],
        policies: vec!["read".to_string()],
    };
    assert!(!c.has_all_policies(&["read", "write"]));
    assert!(c.has_all_policies(&["read"]));
    assert!(c.has_all_policies(&[]));
}

#[test]
fn missing_credentials_is_distinct_from_invalid_token() {
    let r = authorize_request(None, None, SECRET, NOW, &[], &[]);
    assert_eq!(r.unwrap_err(), AuthorizeError::MissingCredentials);
    let r = authorize_request(Some("Bearer junk"), None, SECRET, NOW, &[], &[]);
    assert_eq!(r.unwrap_err(), AuthorizeError::InvalidToken);
    // an expired token is invalid, not missing
    let header = format!("Bearer {}", token_for("alice", vec![], vec![]));
    let r = authorize_request(Some(&header), None, SECRET, NOW + 10_000, &[], &[]);
    assert_eq!(r.unwrap_err(), AuthorizeError::InvalidToken);
}

#[test]
fn guard_status_codes_and_messages() {
    assert_eq!(AuthorizeError::MissingCredentials.status_code(), 401);
    assert_eq!(AuthorizeError::InvalidToken.status_code(), 401);
    assert_eq!(AuthorizeError::Forbidden.status_code(), 403);
    assert_eq!(
        AuthorizeError::MissingCredentials.message(),
        "Missing authentication credentials"
    );
    assert_eq!(AuthorizeError::InvalidToken.message(), "Invalid token");
    assert_eq!(AuthorizeError::Forbidden.message(), "Insufficient permissions");
}

#[test]
fn authentication_only_never_forbids() {
    let header = format!("Bearer {}", token_for("alice", vec![], vec![]));
    let a = authenticate(Some(&header), None, SECRET, NOW).unwrap();
    assert_eq!(a.0.sub, "alice");
    let r = authenticate(None, None, SECRET, NOW);
    assert!(matches!(r, Err(AuthorizeError::MissingCredentials)));
}

#[test]
fn builder_guard_matches_the_requirement() {
    let header = format!("Bearer {}", token_for("alice", vec!["editor"], vec!["read"]));
    let guard = JwtAuth::new();
    assert!(guard.authorize(Some(&header), None, SECRET, NOW).is_ok());
    let guard = JwtAuth::with_roles(vec!["admin"]);
    assert_eq!(
        guard.authorize(Some(&header), None, SECRET, NOW).unwrap_err(),
        AuthorizeError::Forbidden
    );
    let guard = JwtAuth::with_policies(vec!["read"]);
    assert!(guard.authorize(Some(&header), None, SECRET, NOW).is_ok());
    let guard = JwtAuth::with_rules(vec!["editor"], vec!["read", "write"]);
    assert_eq!(
        guard.authorize(Some(&header), None, SECRET, NOW).unwrap_err(),
        AuthorizeError::Forbidden
    );
    // the cookie source feeds the same guard
    let cookie = format!("auth={}", token_for("carol", vec![], vec![]));
    let guard = JwtAuth::new();
    assert_eq!(
        guard.authorize(None, Some(&cookie), SECRET, NOW).unwrap().sub,
        "carol"
    );
}

#[test]
fn bearer_only_authentication() {
    let header = format!("Bearer {}", token_for("alice", vec![], vec![]));
    let j = jwt_authenticate(Some(&header), SECRET, NOW).unwrap();
    assert_eq!(j.0.sub, "alice");
    assert_eq!(jwt_authenticate(None, SECRET, NOW).unwrap_err(), AuthError::MissingToken);
    assert_eq!(
        jwt_authenticate(Some("Basic x"), SECRET, NOW).unwrap_err(),
        AuthError::InvalidToken
    );
    assert_eq!(AuthError::MissingToken.status_code(), 401);
    assert_eq!(AuthError::MissingToken.message(), "Missing authorization token");
    assert_eq!(AuthError::InvalidToken.message(), "Invalid token");
}

#[test]
fn cookie_only_authentication() {
    let cookie = format!("auth={}", token_for("alice", vec![], vec![]));
    let a = cookie_authenticate(Some(&cookie), SECRET, NOW).unwrap();
    assert_eq!(a.0.sub, "alice");
    assert_eq!(
        cookie_authenticate(None, SECRET, NOW).unwrap_err(),
        CookieAuthError::MissingCookie
    );
    assert_eq!(
        cookie_authenticate(Some("other=1"), SECRET, NOW).unwrap_err(),
        CookieAuthError::MissingCookie
    );
    assert_eq!(
        cookie_authenticate(Some("auth=junk"), SECRET, NOW).unwrap_err(),
        CookieAuthError::InvalidToken
    );
    assert_eq!(CookieAuthError::MissingCookie.status_code(), 401);
    assert_eq!(CookieAuthError::MissingCookie.message(), "Missing auth cookie");
}

#[test]
fn socket_echo_decisions() {
    match socket_reply(SocketMessage::Text("hi".to_string())) {
        SocketAction::Reply(SocketMessage::Text(t)) => assert_eq!(t, "hi"),
        _ => panic!("text must be echoed"),
    }
    match socket_reply(SocketMessage::Binary(vec![1, 2])) {
        SocketAction::Reply(SocketMessage::Binary(d)) => assert_eq!(d, vec![1, 2]),
        _ => panic!("binary must be echoed"),
    }
    match socket_reply(SocketMessage::Ping(vec![7])) {
        SocketAction::Reply(SocketMessage::Pong(d)) => assert_eq!(d, vec![7]),
        _ => panic!("ping must be answered with a pong"),
    }
    assert!(matches!(socket_reply(SocketMessage::Pong(vec![])), SocketAction::Ignore));
    assert!(matches!(socket_reply(SocketMessage::Close), SocketAction::Stop));
}
