//! Addresses of known feeds on the main network, by protocol.

pub mod chainlink;
pub mod pyth;
pub mod switchboard;
