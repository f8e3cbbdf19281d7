//! Verified core of a food-delivery marketplace backend.
//!
//! The crate models the order/delivery lifecycle: a cross-role state machine
//! over order statuses, the authorization gate that checks identity claims
//! against allowed roles and resource ownership, an order store whose only
//! mutation primitive is an atomic conditional update, a stale-order reaper,
//! and the pure reporting utilities (date ranges, earnings aggregation).

pub mod auth;
pub mod clock;
pub mod credentials;
pub mod dates;
pub mod earnings;
pub mod engine;
pub mod errors;
pub mod incidents;
pub mod laws;
pub mod listings;
pub mod order;
pub mod reaper;
pub mod reports;
pub mod seqext;
pub mod status;
pub mod store;
pub mod strutil;
pub mod views;
