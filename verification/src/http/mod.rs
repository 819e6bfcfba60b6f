//! The HTTP tracker: configuration, request routing, errors and the
//! torrents of the swarm.

pub mod common;
pub mod config;
pub mod connection;
pub mod request;
pub mod swarm;
