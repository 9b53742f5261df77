//! The demonstration business services behind the protected routes: a user
//! directory and an order store, both returning fixed sample data.  The
//! service traits are what a real deployment implements; the three
//! construction disciplines (shared instance, factory, plain function)
//! mirror how the services are meant to be wired into a server.

use vstd::prelude::*;

verus! {

/// One order of a user.
pub struct Order {
    pub id: String,
    pub user_id: String,
    pub product: String,
    pub quantity: i32,
}

/// A source of orders.  Whatever the implementation, every order returned
/// belongs to the user that was asked about.
pub trait OrderService {
    fn get_orders(&self, user_id: &str) -> (r: Vec<Order>)
        ensures
            forall|i: int| 0 <= i < r@.len() ==> (#[trigger] r@[i]).user_id@ == user_id@,
    ;
}

/// The fixed sample orders for a user: one laptop and two mice.
pub fn mock_orders(user_id: &str) -> (r: Vec<Order>)
    ensures
        r@.len() == 2,
        r@[0].id@ == "1"@ && r@[0].user_id@ == user_id@ && r@[0].product@ == "Laptop"@
            && r@[0].quantity == 1,
        r@[1].id@ == "2"@ && r@[1].user_id@ == user_id@ && r@[1].product@ == "Mouse"@
            && r@[1].quantity == 2,
{
    let mut r: Vec<Order> = Vec::new();
    r.push(
        Order {
            id: String::from_str("1"),
            user_id: user_id.to_owned(),
            product: String::from_str("Laptop"),
            quantity: 1,
        },
    );
    r.push(
        Order {
            id: String::from_str("2"),
            user_id: user_id.to_owned(),
            product: String::from_str("Mouse"),
            quantity: 2,
        },
    );
    r
}

/// The sample order store.
pub struct OrderServiceImpl;

impl OrderService for OrderServiceImpl {
    fn get_orders(&self, user_id: &str) -> (r: Vec<Order>) {
        mock_orders(user_id)
    }
}

/// Builds one order service per request (the scoped discipline).
pub trait OrderServiceFactory {
    type Svc: OrderService;

    fn create(&self) -> Self::Svc;
}

/// The factory for the sample order store.
pub struct OrderServiceFactoryImpl;

impl OrderServiceFactory for OrderServiceFactoryImpl {
    type Svc = OrderServiceImpl;

    fn create(&self) -> OrderServiceImpl {
        OrderServiceImpl
    }
}

/// Builds a fresh order service on every call (the transient discipline).
pub fn create_order_service() -> OrderServiceImpl {
    OrderServiceImpl
}

/// A source of user names.
pub trait UserService {
    fn get_users(&self) -> Vec<String>;
}

/// The fixed sample users.
pub fn mock_users() -> (r: Vec<String>)
    ensures
        r.deep_view() == seq!["Alice"@, "Bob"@],
{
    let mut r: Vec<String> = Vec::new();
    r.push(String::from_str("Alice"));
    r.push(String::from_str("Bob"));
    proof {
        assert(r.deep_view() =~= seq!["Alice"@, "Bob"@]);
    }
    r
}

/// The sample user directory.
pub struct UserServiceImpl;

impl UserService for UserServiceImpl {
    fn get_users(&self) -> Vec<String> {
        mock_users()
    }
}

} // verus!
