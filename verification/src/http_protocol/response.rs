//! The responses of the HTTP tracker protocol, as the swarm makes them.
//! Addresses are held as their integer forms: an IPv4 address as a `u32`,
//! an IPv6 address as a `u128`.

use vstd::prelude::*;

use crate::http_protocol::common::InfoHash;

verus! {

#[derive(Debug, Clone, Copy, PartialEq, Eq, Hash)]
pub struct ResponsePeer<I> {
    pub ip_address: I,
    pub port: u16,
}

#[derive(Debug, Clone, PartialEq, Eq)]
pub struct ResponsePeerListV4(pub Vec<ResponsePeer<u32>>);

#[derive(Debug, Clone, PartialEq, Eq)]
pub struct ResponsePeerListV6(pub Vec<ResponsePeer<u128>>);

#[derive(Debug, Clone, PartialEq, Eq)]
pub struct AnnounceResponse {
    pub announce_interval: usize,
    pub complete: usize,
    pub incomplete: usize,
    pub peers: ResponsePeerListV4,
    pub peers6: ResponsePeerListV6,
    pub warning_message: Option<String>,
}

#[derive(Debug, Clone, Copy, PartialEq, Eq, Structural)]
pub struct ScrapeStatistics {
    pub complete: usize,
    pub incomplete: usize,
    pub downloaded: usize,
}

/// The statistics of each scraped info hash, each info hash once
#[derive(Debug, Clone, PartialEq, Eq)]
pub struct ScrapeResponse {
    pub files: Vec<(InfoHash, ScrapeStatistics)>,
}

#[derive(Debug, Clone, PartialEq, Eq)]
pub struct FailureResponse {
    pub failure_reason: String,
}

#[derive(Debug, Clone, PartialEq, Eq)]
pub enum Response {
    Announce(AnnounceResponse),
    Scrape(ScrapeResponse),
    Failure(FailureResponse),
}

} // verus!
