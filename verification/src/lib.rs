//! An API-gateway data plane: per-key authentication, plan-driven rate
//! limiting, prefix routing, and minute-bucketed usage accounting.

pub mod apikey;
pub mod assoc;
pub mod config;
pub mod hashing;
pub mod metric;
pub mod pipeline;
pub mod replica;
pub mod store;
pub mod throttle;
pub mod timefmt;
pub mod strutil;
pub mod upstream;
pub mod usage;
