//! Backtesting of trading strategies over historical price bars.
//!
//! An [`account::Account`] is the ledger of one run: its fund, its position
//! and the histories of its trades and valuations, in fixed-point amounts
//! ([`decimal::Decimal`]). A trader ([`traders::GenericTrader`]) turns the
//! signals of a signal source ([`indicators::BinanceIndicatorInstance`]) into
//! sized trades with their fees. A run ([`backtest::loop_kline`]) takes a
//! trader and an account through the bars, and [`strategies::backtest`] runs
//! several strategies over the same bars, each on an account of its own.
//!
//! Every function states what it returns and changes, over the ledger as a
//! mathematical value ([`account::Ledger`]). What holds of every ledger and of
//! every run is proved in [`ledger_laws`], [`run_laws`] and
//! [`strategy_laws`].

pub mod account;
pub mod backtest;
pub mod calendar;
pub mod data;
pub mod decimal;
pub mod error;
pub mod indicators;
pub mod ledger_laws;
pub mod run_laws;
pub mod strategies;
pub mod strategy_laws;
pub mod traders;
