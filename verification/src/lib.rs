//! A minimal HTTP book server, as a verified library.
//!
//! The library holds everything the server decides or computes: the routing
//! table (API routes first, static files as the fallback), the health reply,
//! the book lookup reply with its exact JSON body, and the decimal parsing
//! and formatting those rest on. Listening on a socket and reading files
//! stay outside; they hand the library plain strings and take plain
//! responses back.

pub mod decimal;
pub mod handlers;
pub mod models;
pub mod routes;
