//! Accounts and access: user and school records, password hashing, signed
//! access tokens, the request handlers and the bearer-token check.

pub mod models;
pub mod service;
pub mod middleware;
pub mod handlers;
