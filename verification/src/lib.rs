//! Verified core of the Biubo web application firewall: request screening
//! rules, encoded-payload and attack-progression signals, challenge tokens,
//! rate limiting, circuit breaking, the proxy checkpoint, settings, metrics,
//! statistics, the key-value store behind write-behind flushing, plugin and
//! patch bookkeeping, behaviour profiling, and the
//! cluster's membership, elections, shared threats and configuration sync.
use vstd::prelude::*;

pub mod circuit_breaker;
pub mod text;
pub mod encoding;
pub mod clock;
pub mod challenge;
pub mod rate_limit;
pub mod regex_ops;
pub mod threat_signals;
pub mod json;
pub mod plugins;
pub mod rules;
pub mod waf_engine;
pub mod detection_cache;
pub mod multipart;
pub mod metrics;
pub mod proxy;
pub mod patching;
pub mod paths;
pub mod models;
pub mod errors;
pub mod storage;
pub mod database;
pub mod settings;
pub mod setup;
pub mod llm;
pub mod auth;
pub mod analytics;
pub mod events;
pub mod cluster;
pub mod behavior;
pub mod reputation;
pub mod queue;
pub mod log_gc;
pub mod threat_share;
pub mod config_sync;

verus! {

} // verus!
