//! A verified request-authorization, rate-limiting, gas-sponsorship and
//! settlement-tracking pipeline for a dark-pool trading gateway.
//!
//! The gateway sits in front of a trade-matching backend (the relayer).
//! It authenticates each caller, enforces per-caller token-bucket limits,
//! decides how a request is forwarded, rewrites successful responses to
//! carry a third-party-funded gas refund, and credits the caller's limits
//! once the resulting bundle is observed settled on chain.
//!
//! All decision logic lives here, verified; the surrounding HTTP, JSON and
//! chain I/O hands this library plain values and performs what it decides.

pub mod auth;
pub mod cache;
pub mod gateway;
pub mod price_server;
pub mod rate_limit;
pub mod sponsorship;
pub mod types;
pub mod watcher;
