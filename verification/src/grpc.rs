//! The RPC-facing endpoints: thin holders that wire a service (shared) or
//! a service factory (scoped, one instance per request) to the request
//! handlers.  The transport layer owns the sockets; these own the logic.

use vstd::prelude::*;
use std::sync::Arc;
use crate::controllers;
use crate::services::{Order, OrderService, OrderServiceFactory, UserService};

verus! {

/// Serves order lookups; a new service instance is created per request.
pub struct OrderController<F: OrderServiceFactory> {
    order_service_factory: Arc<F>,
}

impl<F: OrderServiceFactory> OrderController<F> {
    pub fn new(order_service_factory: Arc<F>) -> Self {
        OrderController { order_service_factory }
    }

    /// Looks up the orders of one user; every order returned is theirs.
    pub fn get_orders(&self, user_id: &str) -> (r: Vec<Order>)
        ensures
            forall|i: int| 0 <= i < r@.len() ==> (#[trigger] r@[i]).user_id@ == user_id@,
    {
        let service = self.order_service_factory.create();
        service.get_orders(user_id)
    }
}

/// Serves user lookups from one shared service instance.
pub struct UserController<S: UserService> {
    user_service: Arc<S>,
}

impl<S: UserService> UserController<S> {
    pub fn new(user_service: Arc<S>) -> Self {
        UserController { user_service }
    }

    /// Lists all user names the service knows.
    pub fn get_users(&self) -> Vec<String> {
        self.user_service.get_users()
    }
}

/// Serves order lookups and shapes the response for the transport.
pub struct OrderEndpoint<F: OrderServiceFactory> {
    order_service_factory: Arc<F>,
}

impl<F: OrderServiceFactory> OrderEndpoint<F> {
    pub fn new(order_service_factory: Arc<F>) -> Self {
        OrderEndpoint { order_service_factory }
    }

    /// Looks up one user's orders and wraps them for the response.
    pub fn get_orders(&self, user_id: &str) -> (r: controllers::OrderController)
        ensures
            forall|i: int| 0 <= i < r.0@.len() ==> (#[trigger] r.0@[i]).user_id@ == user_id@,
    {
        let service = self.order_service_factory.create();
        let orders = service.get_orders(user_id);
        controllers::OrderController::from_orders(orders)
    }
}

/// Serves user lookups and shapes the response for the transport.
pub struct UserEndpoint<S: UserService> {
    user_service: Arc<S>,
}

impl<S: UserService> UserEndpoint<S> {
    pub fn new(user_service: Arc<S>) -> Self {
        UserEndpoint { user_service }
    }

    /// Lists all user names and wraps them for the response.
    pub fn get_users(&self) -> controllers::UserController {
        let users = self.user_service.get_users();
        controllers::UserController::from_users(users)
    }
}

} // verus!
