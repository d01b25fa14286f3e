//! The PostgreSQL frontend.
pub mod error_map;
pub mod handler;
pub mod laws;
pub mod row;
pub mod types;
