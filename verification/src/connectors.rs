//! Connectors to market data sources.

pub mod ccxt_connector;
pub mod tq_connector;
pub mod ts_connector;
