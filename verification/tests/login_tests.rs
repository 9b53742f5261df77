use auth_core::authorize::{authorize_request, AuthorizeError};
use auth_core::claims::Claims;
use auth_core::config::{parse_origins, Config};
use auth_core::controllers::{
    mock_users_v2, LoginController, OrderController, OrderRes, ProtectedResponse, UserController,
};
use auth_core::grpc;
use auth_core::login::{login_cookie, login_jwt, logout_cookie, LoginError, LoginRequest};
use auth_core::services::{
    create_order_service, mock_orders, mock_users, OrderService, OrderServiceFactory,
    OrderServiceFactoryImpl, UserService, UserServiceImpl,
};
use std::sync::Arc;

const SECRET: &str = "login-secret";

fn req(username: &str, password: &str) -> LoginRequest {
    LoginRequest {
        username: username.to_string(),
        password: password.to_string(),
    }
}

#[test]
fn validation_collects_both_messages() {
    let r = req("", "ab").validate();
    let e = r.unwrap_err();
    assert_eq!(
        e.errors,
        vec![
            "username is required".to_string(),
            "password must be at least 6 characters".to_string(),
        ]
    );
    assert_eq!(e.status_code(), 400);
}

#[test]
fn validation_rules_one_by_one() {
    assert!(req("alice", "secret1").validate().is_ok());
    let e = req("   ", "secret1").validate().unwrap_err();
    assert_eq!(e.errors, vec!["username is required".to_string()]);
    let e = req("alice", "").validate().unwrap_err();
    assert_eq!(e.errors, vec!["password is required".to_string()]);
    let e = req("alice", "12345").validate().unwrap_err();
    assert_eq!(
        e.errors,
        vec!["password must be at least 6 characters".to_string()]
    );
    // exactly six characters pass
    assert!(req("alice", "123456").validate().is_ok());
}

#[test]
fn login_rejects_invalid_input_with_all_errors() {
    match login_jwt(&req("", ""), SECRET) {
        Err(LoginError::Validation(v)) => {
            assert_eq!(
                v.errors,
                vec![
                    "username is required".to_string(),
                    "password is required".to_string(),
                ]
            );
        }
        other => panic!("expected a validation error, got {:?}", other.is_ok()),
    }
}

#[test]
fn end_to_end_login_then_protected_routes() {
    // login returns a token
    let resp = login_jwt(&req("alice", "secret1"), SECRET).unwrap();
    let header = format!("Bearer {}", resp.token);
    let now = chrono::Utc::now().timestamp();

    // presenting it on a protected route succeeds with the right subject
    let c = authorize_request(Some(&header), None, SECRET, now, &[], &[]).unwrap();
    assert_eq!(c.sub, "alice");
    let body = ProtectedResponse::for_claims(&c);
    assert_eq!(body.user, "alice");
    assert_eq!(body.message, "You have access to protected content!");

    // presenting no credential is a 401
    let r = authorize_request(None, None, SECRET, now, &[], &[]);
    assert_eq!(r.as_ref().unwrap_err().status_code(), 401);
    assert_eq!(r.unwrap_err(), AuthorizeError::MissingCredentials);

    // a role the subject does not hold is a 403
    let r = authorize_request(Some(&header), None, SECRET, now, &["admin"], &[]);
    assert_eq!(r.as_ref().unwrap_err().status_code(), 403);
    assert_eq!(r.unwrap_err(), AuthorizeError::Forbidden);
}

#[test]
fn cookie_login_sets_the_session_cookie() {
    let (cookie, msg) = login_cookie(&req("alice", "secret1"), SECRET).unwrap();
    assert_eq!(cookie.name, "auth");
    assert_eq!(cookie.path, "/");
    assert!(cookie.http_only);
    assert!(cookie.same_site_strict);
    assert_eq!(cookie.max_age_seconds, 24 * 3600);
    assert_eq!(msg.message, "Login successful");

    // the cookie value authenticates on the cookie path
    let header = format!("auth={}", cookie.value);
    let now = chrono::Utc::now().timestamp();
    let c = authorize_request(None, Some(&header), SECRET, now, &[], &[]).unwrap();
    assert_eq!(c.sub, "alice");
}

#[test]
fn logout_clears_the_cookie() {
    let (cookie, msg) = logout_cookie();
    assert_eq!(cookie.name, "auth");
    assert_eq!(cookie.value, "");
    assert_eq!(cookie.path, "/");
    assert_eq!(cookie.max_age_seconds, 0);
    assert_eq!(msg.message, "Logout successful");
}

#[test]
fn login_controller_wraps_a_bearer_credential() {
    let lc = LoginController::new("tok".to_string());
    assert_eq!(lc.token, "tok");
    assert_eq!(lc.token_type, "Bearer");
}

#[test]
fn config_defaults_apply_exactly() {
    let c = Config::from_parts(None, None, None, None, None, None);
    assert_eq!(c.host, "127.0.0.1");
    assert_eq!(c.http_port, 8080);
    assert_eq!(c.grpc_port, 50051);
    assert_eq!(c.jwt_secret, "default-secret-change-in-production");
    assert_eq!(c.jwt_ttl, 3600);
    assert!(c.cors_origins.is_empty());

    let c = Config::from_parts(
        Some("0.0.0.0".to_string()),
        Some(80),
        Some(81),
        Some("s".to_string()),
        Some(60),
        Some("https://a.example, , https://b.example "),
    );
    assert_eq!(c.host, "0.0.0.0");
    assert_eq!(c.http_port, 80);
    assert_eq!(c.grpc_port, 81);
    assert_eq!(c.jwt_secret, "s");
    assert_eq!(c.jwt_ttl, 60);
    assert_eq!(
        c.cors_origins,
        vec!["https://a.example".to_string(), "https://b.example".to_string()]
    );
}

#[test]
fn origin_list_is_split_trimmed_and_filtered() {
    assert_eq!(parse_origins(""), Vec::<String>::new());
    assert_eq!(parse_origins(" , ,"), Vec::<String>::new());
    assert_eq!(
        parse_origins("a, b ,c"),
        vec!["a".to_string(), "b".to_string(), "c".to_string()]
    );
}

#[test]
fn sample_services_return_their_fixed_data() {
    let users = UserServiceImpl.get_users();
    assert_eq!(users, vec!["Alice".to_string(), "Bob".to_string()]);
    assert_eq!(mock_users(), users);

    let orders = create_order_service().get_orders("u1");
    assert_eq!(orders.len(), 2);
    assert_eq!(orders[0].id, "1");
    assert_eq!(orders[0].user_id, "u1");
    assert_eq!(orders[0].product, "Laptop");
    assert_eq!(orders[0].quantity, 1);
    assert_eq!(orders[1].id, "2");
    assert_eq!(orders[1].user_id, "u1");
    assert_eq!(orders[1].product, "Mouse");
    assert_eq!(orders[1].quantity, 2);
    assert_eq!(mock_orders("u1").len(), 2);

    let via_factory = OrderServiceFactoryImpl.create().get_orders("u2");
    assert_eq!(via_factory[0].user_id, "u2");
}

#[test]
fn endpoints_shape_service_results() {
    let orders_ep = grpc::OrderEndpoint::new(Arc::new(OrderServiceFactoryImpl));
    let OrderController(orders) = orders_ep.get_orders("u3");
    assert_eq!(orders.len(), 2);
    assert!(orders.iter().all(|o| o.user_id == "u3"));

    let users_ep = grpc::UserEndpoint::new(Arc::new(UserServiceImpl));
    let UserController(users) = users_ep.get_users();
    assert_eq!(users, vec!["Alice".to_string(), "Bob".to_string()]);

    let oc = grpc::OrderController::new(Arc::new(OrderServiceFactoryImpl));
    assert_eq!(oc.get_orders("u4")[1].product, "Mouse");
    let uc = grpc::UserController::new(Arc::new(UserServiceImpl));
    assert_eq!(uc.get_users().len(), 2);

    let row = OrderRes::from_order(mock_orders("u5").remove(0));
    assert_eq!(row.user_id, "u5");
    assert_eq!(row.product, "Laptop");

    let v2 = mock_users_v2();
    assert_eq!(v2.len(), 1);
    assert_eq!(v2[0].name, "Alice V2");
    assert_eq!(v2[0].email, "alice@example.com");
}

#[test]
fn logged_out_token_stays_valid_until_expiry() {
    // logout performs no server-side invalidation: a captured token still
    // decodes until its natural expiry
    let resp = login_jwt(&req("alice", "secret1"), SECRET).unwrap();
    let _ = logout_cookie();
    let now = chrono::Utc::now().timestamp();
    assert!(Claims::decode(&resp.token, SECRET, now).is_ok());
}
