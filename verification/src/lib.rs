//! A school portal back end: schools, users with roles, students and their
//! payments, password hashing and signed access tokens.
//!
//! Everything here is plain, synchronous logic over an in-memory store; the
//! HTTP server, environment and shared locking live in the binary crate.

pub mod text;
pub mod models;
pub mod errors;
pub mod ids;
pub mod auth;
