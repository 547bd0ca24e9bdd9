//! Core of an inbound interaction webhook service for a chat platform:
//! request authentication, resolution of nested command invocations against a
//! registered command tree, dispatch to handlers, per-guild configuration
//! storage, and idempotent synchronization of registered command metadata.

pub mod options;
pub mod tree;
pub mod resolver;
pub mod envelope;
pub mod dispatch;
pub mod text;
pub mod store;
pub mod error;
pub mod roles;
pub mod policy;
pub mod sync;
pub mod auth;
