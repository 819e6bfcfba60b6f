//! The HTTP tracker protocol: identifiers, announce events, and the
//! requests and responses that the swarm handles.

pub mod common;
pub mod request;
pub mod response;
pub mod scrape_files;
