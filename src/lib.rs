//! Identity and access core of a personal dashboard: credential hashing,
//! authorization policy, session identity, and the owner-scoped user and
//! app tables with atomic resequencing.

pub mod errors;
pub mod validate;
pub mod crypto;
pub mod app;
pub mod policy;
pub mod user;
pub mod auth;
pub mod password;
pub mod setting;
pub mod session;
pub mod proxy;
pub mod file;
pub mod settings;
