//! A drain-before-release access layer for a pooled, partitioned row store.

pub mod config;
pub mod error;
pub mod schema;
pub mod stream;
pub mod protocol;
pub mod table;
pub mod store;
