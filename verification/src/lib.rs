//! A tunnelling HTTP/HTTPS proxy: the decisions it makes on requests,
//! replies, tunnels and metrics, with their contracts.

pub mod config;
pub mod counters;
pub mod metrics;
pub mod proxy;
pub mod request;
pub mod text;
pub mod tunnel;
