//! Request-authentication and authorization core: a signed session-token
//! codec, credential extraction from request headers, role and policy
//! checks, and login validation, with machine-checked contracts.

pub mod authorize;
pub mod claims;
pub mod codec;
pub mod config;
pub mod controllers;
pub mod cookie;
pub mod extract;
pub mod grpc;
pub mod jwt;
pub mod jwt_authorize;
pub mod login;
pub mod payload;
pub mod services;
pub mod socket;
