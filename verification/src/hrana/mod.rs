//! The Hrana protocol over HTTP.
pub mod blob;
pub mod http;
pub mod laws;
pub mod types;
