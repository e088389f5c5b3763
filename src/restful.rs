//! The earlier, name-only form of the token interface.
pub mod auth;
