//! A minimal HTTP/1.1 client core: it turns a URL into a connection target,
//! renders GET and POST requests exactly as they go on the wire, and splits a
//! raw response into headers and body. The socket work is left to the caller,
//! who drives an [`exchange::Exchange`] one step at a time.

pub mod ascii;
pub mod client;
pub mod decimal;
pub mod error;
pub mod exchange;
pub mod request;
pub mod response;
pub mod target;

pub use client::SimpleHttpClient;
