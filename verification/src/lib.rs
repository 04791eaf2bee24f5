//! Core logic for a small game-server monitoring suite: telemetry
//! collection (resource sampling, throughput rates, metric batches),
//! identity resolution, bearer-token authentication, and log tailing.

pub mod auth;
pub mod collector;
pub mod digits;
pub mod emit;
pub mod identity;
pub mod jsonmeta;
pub mod metrics;
pub mod netif;
pub mod router;
pub mod sample;
pub mod state;
pub mod strutil;
pub mod tail;
