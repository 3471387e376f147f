//! Verified core of an EMA-crossover backtester for the Phemex exchange:
//! request signing, request building, rolling indicator windows and the
//! position state machine that the trading loop runs.

pub mod decimal;
pub mod market;
pub mod position;
pub mod signing;
pub mod window;
