//! Plain-value model of the BitTorrent UDP tracker protocol messages
//! that the tracker logic works on.

use vstd::prelude::*;

verus! {

#[derive(PartialEq, Eq, Clone, Copy, Debug, Hash, PartialOrd, Ord)]
pub struct InfoHash(pub [u8; 20]);

#[derive(PartialEq, Eq, Clone, Copy, Debug, Hash, PartialOrd, Ord)]
pub struct PeerId(pub [u8; 20]);

#[derive(PartialEq, Eq, Clone, Copy, Debug, Hash, Structural)]
pub struct ConnectionId(pub i64);

#[derive(PartialEq, Eq, Clone, Copy, Debug, Hash, Structural)]
pub struct TransactionId(pub i32);

#[derive(PartialEq, Eq, Clone, Copy, Debug, Hash, Structural)]
pub struct AnnounceInterval(pub i32);

#[derive(PartialEq, Eq, Clone, Copy, Debug, Hash, Structural)]
pub struct NumberOfPeers(pub i32);

#[derive(PartialEq, Eq, Clone, Copy, Debug, Hash, Structural)]
pub struct NumberOfDownloads(pub i32);

#[derive(PartialEq, Eq, Clone, Copy, Debug, Hash, Structural)]
pub struct NumberOfBytes(pub i64);

#[derive(PartialEq, Eq, Clone, Copy, Debug, Hash, Structural)]
pub struct Port(pub u16);

#[derive(PartialEq, Eq, Clone, Copy, Debug, Hash, Structural)]
pub struct PeerKey(pub u32);

/// IPv4 address as a big-endian integer
#[derive(PartialEq, Eq, Clone, Copy, Debug, Hash, Structural)]
pub struct Ipv4AddrBytes(pub u32);

/// IPv6 address as a big-endian integer
#[derive(PartialEq, Eq, Clone, Copy, Debug, Hash, Structural)]
pub struct Ipv6AddrBytes(pub u128);

/// An IP address type that can be packed into 128 bits without loss
pub trait Ip: Copy + Sized {
    spec fn spec_bits(self) -> u128;

    spec fn spec_from_bits(bits: u128) -> Self;

    fn bits(&self) -> (r: u128)
        ensures
            r == self.spec_bits(),
    ;

    fn from_bits(bits: u128) -> (r: Self)
        ensures
            r == Self::spec_from_bits(bits),
    ;

    proof fn lemma_bits_roundtrip(ip: Self)
        ensures
            Self::spec_from_bits(ip.spec_bits()) == ip,
    ;
}

impl Ip for Ipv4AddrBytes {
    open spec fn spec_bits(self) -> u128 {
        self.0 as u128
    }

    open spec fn spec_from_bits(bits: u128) -> Self {
        Ipv4AddrBytes(bits as u32)
    }

    fn bits(&self) -> (r: u128) {
        self.0 as u128
    }

    fn from_bits(bits: u128) -> (r: Self) {
        Ipv4AddrBytes(bits as u32)
    }

    proof fn lemma_bits_roundtrip(ip: Self) {
        let x = ip.0;
        assert((x as u128) as u32 == x) by (bit_vector);
    }
}

impl Ip for Ipv6AddrBytes {
    open spec fn spec_bits(self) -> u128 {
        self.0
    }

    open spec fn spec_from_bits(bits: u128) -> Self {
        Ipv6AddrBytes(bits)
    }

    fn bits(&self) -> (r: u128) {
        self.0
    }

    fn from_bits(bits: u128) -> (r: Self) {
        Ipv6AddrBytes(bits)
    }

    proof fn lemma_bits_roundtrip(ip: Self) {
    }
}

#[derive(PartialEq, Eq, Clone, Copy, Debug, Hash, Structural)]
pub struct ResponsePeer<I> {
    pub ip_address: I,
    pub port: Port,
}

#[derive(PartialEq, Eq, Clone, Copy, Debug, Hash, Structural)]
pub enum AnnounceEvent {
    Started,
    Stopped,
    Completed,
    Empty,
}

#[derive(PartialEq, Eq, Clone, Copy, Debug)]
pub struct ConnectRequest {
    pub transaction_id: TransactionId,
}

#[derive(PartialEq, Eq, Clone, Copy, Debug)]
pub struct AnnounceRequest {
    pub connection_id: ConnectionId,
    pub transaction_id: TransactionId,
    pub info_hash: InfoHash,
    pub peer_id: PeerId,
    pub bytes_downloaded: NumberOfBytes,
    pub bytes_uploaded: NumberOfBytes,
    pub bytes_left: NumberOfBytes,
    pub event: AnnounceEvent,
    pub ip_address: Ipv4AddrBytes,
    pub key: PeerKey,
    pub peers_wanted: NumberOfPeers,
    pub port: Port,
}

#[derive(PartialEq, Eq, Clone, Debug)]
pub struct ScrapeRequest {
    pub connection_id: ConnectionId,
    pub transaction_id: TransactionId,
    pub info_hashes: Vec<InfoHash>,
}

#[derive(PartialEq, Eq, Clone, Debug)]
pub enum Request {
    Connect(ConnectRequest),
    Announce(AnnounceRequest),
    Scrape(ScrapeRequest),
}

#[derive(PartialEq, Eq, Clone, Copy, Debug, Hash, Structural)]
pub struct AnnounceResponseFixedData {
    pub transaction_id: TransactionId,
    pub announce_interval: AnnounceInterval,
    pub leechers: NumberOfPeers,
    pub seeders: NumberOfPeers,
}

#[derive(PartialEq, Eq, Clone, Debug)]
pub struct AnnounceResponse<I> {
    pub fixed: AnnounceResponseFixedData,
    pub peers: Vec<ResponsePeer<I>>,
}

#[derive(PartialEq, Eq, Clone, Copy, Debug, Hash, Structural)]
pub struct TorrentScrapeStatistics {
    pub seeders: NumberOfPeers,
    pub completed: NumberOfDownloads,
    pub leechers: NumberOfPeers,
}

#[derive(PartialEq, Eq, Clone, Copy, Debug, Hash, Structural)]
pub struct ConnectResponse {
    pub connection_id: ConnectionId,
    pub transaction_id: TransactionId,
}

#[derive(PartialEq, Eq, Clone, Debug)]
pub struct ScrapeResponse {
    pub transaction_id: TransactionId,
    pub torrent_stats: Vec<TorrentScrapeStatistics>,
}

#[derive(PartialEq, Eq, Clone, Debug)]
pub struct ErrorResponse {
    pub transaction_id: TransactionId,
    pub message: String,
}

#[derive(PartialEq, Eq, Clone, Debug)]
pub enum Response {
    Connect(ConnectResponse),
    AnnounceIpv4(AnnounceResponse<Ipv4AddrBytes>),
    AnnounceIpv6(AnnounceResponse<Ipv6AddrBytes>),
    Scrape(ScrapeResponse),
    Error(ErrorResponse),
}

} // verus!
