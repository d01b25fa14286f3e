//! Protocol logic of a wire-protocol front for SQLite: statement screening,
//! write admission, session state, and the MySQL, PostgreSQL, TDS and Hrana
//! message layers. Everything here computes on plain values; sockets, threads
//! and database handles live with the application.
pub mod backend;
pub mod buffer;
pub mod hrana;
pub mod mysql;
pub mod postgres;
pub mod session;
pub mod statement;
pub mod tds;
pub mod text;
pub mod text_laws;
pub mod utf16;
pub mod wire;
