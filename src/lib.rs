//! Time-windowed activity statistics for a network dashboard: decoding of
//! paginated operation and account feeds, multi-window aggregation, ranked
//! selections, and the snapshot served to readers.

pub mod aggregate;
pub mod bridge;
pub mod config;
pub mod cycle;
pub mod json;
pub mod keys;
pub mod page;
pub mod pgu64;
pub mod ranking;
pub mod records;
pub mod request;
pub mod select;
pub mod stats;
pub mod status;
pub mod time;
pub mod wallets;
