//! Walk-forward backtesting of trade signals over historical candles.

pub mod alpaca;
pub mod config;
pub mod decimal;
pub mod domain;
pub mod entry;
pub mod failure;
pub mod feed;
pub mod friction;
pub mod indicators;
pub mod killzone;
pub mod ledger;
pub mod manage;
pub mod report;
pub mod rules;
pub mod simulation;
pub mod text;
pub mod time;
pub mod trade;
pub mod trend;
