//! Netvan network monitor: the verified core of the collectors, the
//! settings store codec and the decisions of the collector engine.

pub mod numfmt;
pub mod paths;
pub mod ping;
pub mod queries;
pub mod service;
pub mod clock;
pub mod engine;
pub mod settings;
pub mod settings_store;
pub mod speedtest;
pub mod text;
pub mod traceroute;
pub mod traffic_full;
pub mod traffic_process;
