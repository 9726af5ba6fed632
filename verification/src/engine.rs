//! Engine protocol support.

pub mod uci;
