//! The UDP tracker: protocol model, swarm storage, connection validation and
//! pending scrape bookkeeping.

pub mod common;
pub mod config;
pub mod handler;
pub mod peer_clients;
pub mod pending_scrape;
pub mod protocol;
pub mod send_buffers;
pub mod startup;
pub mod statistics;
pub mod swarm;
pub mod torrents;
pub mod validator;
pub mod worker_steps;
