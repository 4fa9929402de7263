//! Order-book reconstruction from IEX DEEP market data.
//!
//! The crate decodes IEX-TP transport headers and DEEP price level update
//! messages from raw bytes, keeps a per-symbol order book of price levels,
//! and replays captured packets into that book up to a point in time.
pub mod bytes;
pub mod fs;
pub mod iex;
pub mod order_book;
pub mod replay;
pub mod text;
