//! Trading-journal core: performance analytics over closed trades, the
//! parameterised queries that fetch and update them, and the small rules
//! around accounts, tokens and subscriptions.
pub mod amount;
pub mod analytics;
pub mod auth;
pub mod config;
pub mod error;
pub mod grouping;
pub mod query;
pub mod subscription;
pub mod text;
pub mod trade;
pub mod webhook;
