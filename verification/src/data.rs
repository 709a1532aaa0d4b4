//! Market data: bars, and the lines of text that they are read from.

pub mod archive;
pub mod binance;
pub mod text;

pub use binance::BinanceKline;
