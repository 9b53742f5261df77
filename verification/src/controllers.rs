//! Response shapes handed to the transport layer, and the controllers that
//! build them from service results.  Everything here is plain data; the
//! HTTP and RPC layers only render it.

use vstd::prelude::*;
use crate::claims::Claims;
use crate::services::Order;

verus! {

/// A successful login, presented as a bearer credential.
#[derive(Clone)]
pub struct LoginController {
    pub token: String,
    pub token_type: String,
}

impl LoginController {
    /// Wraps a freshly issued token; the token type is always `Bearer`.
    pub fn new(token: String) -> (r: Self)
        ensures
            r.token@ == token@,
            r.token_type@ == "Bearer"@,
    {
        LoginController { token, token_type: String::from_str("Bearer") }
    }
}

/// An order list response.
pub struct OrderController(pub Vec<Order>);

impl OrderController {
    /// Carries the orders over unchanged.
    pub fn from_orders(orders: Vec<Order>) -> (r: Self)
        ensures
            r.0 == orders,
    {
        OrderController(orders)
    }
}

/// A user list response.
pub struct UserController(pub Vec<String>);

impl UserController {
    /// Carries the user names over unchanged.
    pub fn from_users(users: Vec<String>) -> (r: Self)
        ensures
            r.0 == users,
    {
        UserController(users)
    }
}

/// The body of a protected route: a greeting and the caller's subject.
pub struct ProtectedResponse {
    pub message: String,
    pub user: String,
}

impl ProtectedResponse {
    /// What an authenticated caller of a protected route is shown.
    pub fn for_claims(claims: &Claims) -> (r: Self)
        ensures
            r.message@ == "You have access to protected content!"@,
            r.user@ == claims@.sub,
    {
        ProtectedResponse {
            message: String::from_str("You have access to protected content!"),
            user: claims.sub.clone(),
        }
    }
}

/// A user row of the directory listing.
pub struct UserRes {
    pub id: u32,
    pub name: String,
}

/// An order row of the order listing.
pub struct OrderRes {
    pub id: String,
    pub user_id: String,
    pub product: String,
    pub quantity: i32,
}

impl OrderRes {
    /// Carries an order's fields over unchanged.
    pub fn from_order(o: Order) -> (r: Self)
        ensures
            r.id@ == o.id@,
            r.user_id@ == o.user_id@,
            r.product@ == o.product@,
            r.quantity == o.quantity,
    {
        OrderRes { id: o.id, user_id: o.user_id, product: o.product, quantity: o.quantity }
    }
}

/// A user row of the second directory version.
pub struct UserV2 {
    pub id: u32,
    pub name: String,
    pub email: String,
}

/// The fixed sample listing of the second directory version.
pub fn mock_users_v2() -> (r: Vec<UserV2>)
    ensures
        r@.len() == 1,
        r@[0].id == 1u32,
        r@[0].name@ == "Alice V2"@,
        r@[0].email@ == "alice@example.com"@,
{
    let mut r: Vec<UserV2> = Vec::new();
    r.push(
        UserV2 {
            id: 1,
            name: String::from_str("Alice V2"),
            email: String::from_str("alice@example.com"),
        },
    );
    r
}

} // verus!
