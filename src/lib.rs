//! Filtering, aggregation and upload planning for line-coverage reports.
pub mod text;
pub mod path;
pub mod filter;
pub mod config;
pub mod aggregate;
pub mod upload;
