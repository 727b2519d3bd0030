//! Client connections: who may connect, where the daemon listens, and what a
//! connection may ask.
pub mod auth;
pub mod client;
pub mod listener;
pub mod session;
