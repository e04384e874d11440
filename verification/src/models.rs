//! Students, payments and the in-memory application store, with the school
//! slugs the store keys schools by.

pub mod slug;
pub mod records;
pub mod store;
