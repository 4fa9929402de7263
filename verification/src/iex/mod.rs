//! IEX-TP transport headers and DEEP messages.
pub mod body;
pub mod dt;
pub mod header;
pub mod message;
