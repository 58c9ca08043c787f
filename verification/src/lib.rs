//! A web server whose pages are made by scripts.
//!
//! Scripts register a handler for each path, connect to a database and keep a
//! cached document. This crate decides: which handler a request calls and with
//! what, how its result becomes a reply, what the cache holds, how a statement is
//! bound and how a database is opened. The program around it runs the scripts and
//! does the input and output.
pub mod auth;
pub mod cache;
pub mod connect;
pub mod dispatch;
pub mod json;
pub mod ops;
pub mod plain;
pub mod reply;
pub mod request;
pub mod routes;
pub mod run;
pub mod setup;
pub mod sql;
