//! Verified core of a small HTTP service over a SQLite `user` table.
//!
//! The library holds the service's logic: reading numeric query and body
//! fields, building the SQL that the handlers send, the pagination defaults,
//! the payload validation and the mapping of errors to HTTP answers.
//! Sockets, the runtime, the database connection and the HTTP framework
//! live in the application crate around it.
pub mod biz;
pub mod api;
pub mod server;
pub mod svr;
