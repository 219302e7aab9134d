//! Finds the latest stable release and prerelease of a GitHub repository and
//! fetches release assets. The library decides and builds every request; the
//! transport that performs them is handed in by the caller.

pub mod config;
pub mod error;
pub mod http;
pub mod manager;
pub mod progress;
pub mod records;
pub mod search;
pub mod select;
