//! A small HTTP gateway that answers block-hash queries over one shared
//! connection to a blockchain node.
//!
//! The verified library holds the decisions of that service:
//! - [`route`]: which request path asks for which block;
//! - [`response`]: how a resolved hash is written into the response body;
//! - [`guardian`]: how the outcome of one query collapses into a hash result;
//! - [`startup`]: the connection lifecycle, retried until it is established.
pub mod guardian;
pub mod response;
pub mod route;
pub mod startup;
