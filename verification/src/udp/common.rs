//! Statistics messages, peer count histograms and worker indices of the
//! UDP tracker.

use vstd::prelude::*;

use hdrhistogram::Histogram;

use crate::udp::config::Config;
use crate::udp::protocol::{InfoHash, PeerId};

verus! {

pub const BUFFER_SIZE: usize = 8192;

/// A histogram of peer counts: an `hdrhistogram::Histogram<u64>` in a
/// private field, reached only through the wrappers below
#[verifier::external_body]
pub struct PeerHistogram {
    pub histogram: Histogram<u64>,
}

/// A histogram of peer counts with three significant digits
/// (`Histogram::new(3)`). With three significant digits and the bounds that
/// `new` takes (1 and 2, resizing itself) the creation always succeeds.
#[verifier::external_body]
pub fn new_peer_histogram() -> (r: Option<PeerHistogram>)
    ensures
        r is Some,
{
    Histogram::new(3).ok().map(|histogram| PeerHistogram { histogram })
}

/// Records one value in the histogram (`Histogram::record`); the result
/// tells whether that succeeded. Nothing more is promised.
#[verifier::external_body]
pub fn record_in_histogram(histogram: &mut PeerHistogram, value: u64) -> (r: bool) {
    histogram.histogram.record(value).is_ok()
}

pub enum StatisticsMessage {
    Ipv4PeerHistogram(PeerHistogram),
    Ipv6PeerHistogram(PeerHistogram),
    PeerAdded(PeerId),
    PeerRemoved(PeerId),
}

#[derive(Clone, Copy, Debug, PartialEq, Eq, Structural)]
pub enum IpVersion {
    V4,
    V6,
}

impl IpVersion {
    pub fn prometheus_str(&self) -> (r: &'static str)
        ensures
            r@ == (if *self is V4 { "4"@ } else { "6"@ }),
    {
        match self {
            Self::V4 => "4",
            Self::V6 => "6",
        }
    }
}

#[derive(Default)]
pub struct IpVersionStatistics<T> {
    pub ipv4: T,
    pub ipv6: T,
}

impl<T> IpVersionStatistics<T> {
    pub fn by_ip_version(&self, ip_version: IpVersion) -> (r: &T)
        ensures
            *r == (if ip_version is V4 { self.ipv4 } else { self.ipv6 }),
    {
        match ip_version {
            IpVersion::V4 => &self.ipv4,
            IpVersion::V6 => &self.ipv6,
        }
    }
}

/// What one socket worker counted for one IP version since the counters
/// were last read: requests, responses of each kind, and bytes
#[derive(Clone, Copy, Debug, Default, PartialEq, Eq, Structural)]
pub struct SocketWorkerStatistics {
    pub requests: usize,
    pub responses_connect: usize,
    pub responses_announce: usize,
    pub responses_scrape: usize,
    pub responses_error: usize,
    pub bytes_received: usize,
    pub bytes_sent: usize,
}

/// Index of a swarm worker
#[derive(Clone, Copy, Debug, PartialEq, Eq, Structural, Hash)]
pub struct SwarmWorkerIndex(pub usize);

impl SwarmWorkerIndex {
    pub open spec fn spec_from_info_hash(swarm_workers: usize, info_hash: InfoHash) -> Self {
        SwarmWorkerIndex((info_hash.0[0] as usize % swarm_workers) as usize)
    }

    /// The swarm worker responsible for a torrent: first info hash byte
    /// modulo the number of swarm workers
    pub fn from_info_hash(config: &Config, info_hash: InfoHash) -> (r: Self)
        requires
            config.swarm_workers > 0,
        ensures
            r == Self::spec_from_info_hash(config.swarm_workers, info_hash),
            r.0 < config.swarm_workers,
    {
        Self((info_hash.0[0] as usize) % config.swarm_workers)
    }
}

} // verus!
