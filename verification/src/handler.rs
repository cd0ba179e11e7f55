//! The decision halves of the request handlers: permission gating and the
//! store operation, taking and returning plain values. The unverified outer
//! layer does the transport: it parses requests and serializes results.

pub mod articles;
pub mod comments;
pub mod users;
