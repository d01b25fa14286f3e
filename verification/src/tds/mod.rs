//! The TDS (SQL Server) frontend.
pub mod handler;
pub mod laws;
pub mod packet;
pub mod token;
pub mod token_laws;
