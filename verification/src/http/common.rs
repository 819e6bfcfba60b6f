//! Request routing and errors of the HTTP tracker.

use vstd::prelude::*;

use crate::common::CanonicalSocketAddr;
use crate::http::config::Config;
use crate::http_protocol::common::InfoHash;

verus! {

/// Index of a swarm worker that consumes requests
#[derive(Copy, Clone, Debug, PartialEq, Eq, Structural)]
pub struct ConsumerId(pub usize);

/// The swarm worker that handles a torrent's requests: the first byte of
/// its info hash modulo the number of swarm workers
pub fn calculate_request_consumer_index(config: &Config, info_hash: InfoHash) -> (r: usize)
    requires
        config.swarm_workers > 0,
    ensures
        r == (info_hash.0[0] as usize) % config.swarm_workers,
        r < config.swarm_workers,
{
    (info_hash.0[0] as usize) % config.swarm_workers
}

/// The IP version of an address, as metrics label it: "4" or "6"
pub fn peer_addr_to_ip_version_str(addr: &CanonicalSocketAddr) -> (r: &'static str)
    ensures
        r@ == (if addr@ is V4 { "4"@ } else { "6"@ }),
{
    if addr.is_ipv4() {
        "4"
    } else {
        "6"
    }
}

/// Error of parsing a request
#[derive(Debug, Clone, PartialEq, Eq)]
pub enum RequestParseError {
    /// Required peer ip header missing or invalid
    RequiredPeerIpHeaderMissing(String),
    /// More data needed
    MoreDataNeeded,
    Other(String),
}

/// Error that ends a connection
#[derive(Debug, Clone, PartialEq, Eq)]
pub enum ConnectionError {
    Inactive,
    NoSocketPeerAddr(String),
    RequestBufferFull,
    ResponseBufferFull,
    ResponseBufferWrite(String),
    PeerClosed,
    ResponseSenderClosed,
    ScrapeChannelError(&'static str),
    Other(String),
}

} // verus!
