//! A minimal single-endpoint HTTP server library.
//!
//! The library holds the logic of a server that answers one request per
//! connection: reading header lines until the blank-line terminator,
//! classifying the request line, and assembling a framed HTTP/1.1 response
//! whose body is a JSON payload (a fixed table of user scores on
//! `GET / HTTP/1.1`, a method-not-allowed error otherwise).

pub mod json;
pub mod http;
pub mod parse;
pub mod reader;
