//! What the library writes into requests to the remote service, and what it
//! reads out of the replies.

pub mod endpoints;
pub mod pagination;
