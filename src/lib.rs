//! Access control and quota engine of a legal-assistant service: accounts
//! and their entitlements, login sessions, the anonymous-trial throttle, the
//! soft-delete lifecycle and the reconciliation of billing state.
pub mod account;
pub mod entitlement;
pub mod lifecycle;
pub mod store;
pub mod sessions;
pub mod throttle;
pub mod text;
pub mod billing;
pub mod identity;
pub mod tokens;
pub mod plans;
pub mod requests;
pub mod laws;
