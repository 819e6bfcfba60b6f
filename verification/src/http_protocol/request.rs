//! The requests of the HTTP tracker protocol, as the swarm sees them.

use vstd::prelude::*;

use crate::http_protocol::common::{AnnounceEvent, InfoHash, PeerId};

verus! {

#[derive(Debug, Clone, PartialEq, Eq)]
pub struct AnnounceRequest {
    pub info_hash: InfoHash,
    pub peer_id: PeerId,
    pub port: u16,
    pub bytes_uploaded: usize,
    pub bytes_downloaded: usize,
    pub bytes_left: usize,
    pub event: AnnounceEvent,
    /// Number of response peers wanted
    pub numwant: Option<usize>,
    pub key: Option<String>,
}

#[derive(Debug, Clone, PartialEq, Eq)]
pub struct ScrapeRequest {
    pub info_hashes: Vec<InfoHash>,
}

#[derive(Debug, Clone, PartialEq, Eq)]
pub enum Request {
    Announce(AnnounceRequest),
    Scrape(ScrapeRequest),
}

} // verus!
