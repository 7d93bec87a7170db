//! Sleep-tracking analytics core.
//!
//! The crate holds the rules of a personal sleep tracker as verified code:
//! validated input models, daylight-saving-aware duration computation,
//! order statistics on daily samples, rolling-window comparison, the metric
//! and recommendation rules built on them, and the request checks that guard
//! the service in front of them. Every executable function carries a contract
//! that Verus proves; the few calls into other crates stand behind wrappers
//! whose contracts are stated, not proved.

pub mod auth;
pub mod calendar;
pub mod config;
pub mod domain;
pub mod error;
pub mod friction;
pub mod handlers;
pub mod metrics;
pub mod middleware;
pub mod models;
pub mod personalization;
pub mod quality_factors;
pub mod recommend;
pub mod requests;
pub mod sample;
pub mod security;
pub mod stats;
pub mod text;
pub mod time;
pub mod trends;
pub mod window;
