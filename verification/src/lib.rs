//! Exchange connection manager for real-time cryptocurrency price feeds.
//!
//! The crate models the lifecycle of WebSocket ticker connections to two
//! exchanges (Binance: one socket per symbol; Coinbase: one shared socket
//! for all symbols), the decoding of their wire frames into canonical
//! `PriceUpdate` events, linear-backoff reconnection, a fan-in delivery
//! queue, and graceful shutdown.  Every decision is a pure, verified
//! transition; the surrounding process performs the socket I/O that the
//! transitions request and feeds the observed events back in.

use vstd::prelude::*;

pub mod config;
pub mod error;
pub mod logger;
pub mod models;
pub mod policy;
pub mod bus;
pub mod bytes;
pub mod json;
pub mod decode;
pub mod conn;
pub mod binance;
pub mod coinbase;
pub mod consumer;

use config::Config;
use logger::Logger;

verus! {

/// Shared application state: the process configuration plus the
/// structured event log.
#[derive(Debug)]
pub struct AppState {
    pub config: Config,
    pub logger: Logger,
}

impl AppState {
    /// Wraps a configuration together with a fresh, empty logger.
    pub fn new(config: Config) -> (s: AppState)
        ensures
            s.config == config,
            s.logger.entries@.len() == 0,
    {
        AppState { config, logger: Logger::new() }
    }
}

} // verus!
