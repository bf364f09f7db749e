//! The three protocols: for each, the record of one feed with its byte
//! layout, and the registry that keeps the records and writes them through.

pub mod chainlink;
pub mod pyth;
pub mod switchboard;
