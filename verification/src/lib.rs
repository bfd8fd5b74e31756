//! A gateway library for listing an account's virtual machines.
//!
//! The library is the query-translation and response-shaping core of a
//! CloudAPI-style `GET /{account}/machines` endpoint backed by an internal
//! VM-management service.  It validates client query parameters, translates
//! them into the upstream query vocabulary, maps raw upstream VM records to
//! public `Machine` records, orders and paginates the result set with opaque
//! continuation tokens, and shapes the final HTTP response (status, headers
//! and JSON body).  All transport concerns (the HTTP server itself and the
//! outbound call to the VM service) live outside the library and hand it
//! plain values.

pub mod error;
pub mod json;
pub mod machine;
pub mod order;
pub mod page;
pub mod query;
pub mod respond;
pub mod text;
pub mod token;
