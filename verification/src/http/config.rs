//! aquatic_http configuration as plain values

use vstd::prelude::*;

use crate::common::access_list::AccessListConfig;
use crate::common::cli::LogLevel;
use crate::common::{SocketAddrV4, SocketAddrV6};

verus! {

/// How the peer IP address is found in the reverse proxy's header
#[derive(Clone, Copy, Debug, PartialEq, Eq, Structural)]
pub enum ReverseProxyPeerIpHeaderFormat {
    /// The last address of the header's comma-separated list
    LastAddress,
}

impl Default for ReverseProxyPeerIpHeaderFormat {
    fn default() -> (r: Self)
        ensures
            r == ReverseProxyPeerIpHeaderFormat::LastAddress,
    {
        Self::LastAddress
    }
}

/// aquatic_http configuration
#[derive(Clone, Debug, PartialEq)]
pub struct Config {
    pub socket_workers: usize,
    pub swarm_workers: usize,
    pub log_level: LogLevel,
    pub network: NetworkConfig,
    pub protocol: ProtocolConfig,
    pub cleaning: CleaningConfig,
    pub access_list: AccessListConfig,
}

impl Default for Config {
    fn default() -> (r: Self)
        ensures
            r.socket_workers == 1,
            r.swarm_workers == 1,
            r.log_level == LogLevel::Warn,
            r.protocol == ProtocolConfig::spec_default(),
            r.cleaning == CleaningConfig::spec_default(),
            network_is_default(r.network),
            access_list_is_default(r.access_list),
    {
        Self {
            socket_workers: 1,
            swarm_workers: 1,
            log_level: LogLevel::default(),
            network: NetworkConfig::default(),
            protocol: ProtocolConfig::default(),
            cleaning: CleaningConfig::default(),
            access_list: AccessListConfig::default(),
        }
    }
}

/// The default access list configuration: off, with the default path
pub open spec fn access_list_is_default(c: AccessListConfig) -> bool {
    &&& c.mode is Off
    &&& c.path@ == "./access-list.txt"@
}

#[derive(Clone, Debug, PartialEq)]
pub struct NetworkConfig {
    pub use_ipv4: bool,
    pub use_ipv6: bool,
    pub address_ipv4: SocketAddrV4,
    pub address_ipv6: SocketAddrV6,
    pub tcp_backlog: i32,
    pub enable_tls: bool,
    pub tls_certificate_path: String,
    pub tls_private_key_path: String,
    pub keep_alive: bool,
    pub runs_behind_reverse_proxy: bool,
    pub reverse_proxy_ip_header_name: String,
    pub reverse_proxy_ip_header_format: ReverseProxyPeerIpHeaderFormat,
    pub set_only_ipv6: bool,
}

/// The default network configuration: both IP versions on port 3000 of
/// every address, no TLS, keep-alive, not behind a reverse proxy
pub open spec fn network_is_default(n: NetworkConfig) -> bool {
    &&& n.use_ipv4
    &&& n.use_ipv6
    &&& n.address_ipv4 == (SocketAddrV4 { ip: 0, port: 3000 })
    &&& n.address_ipv6 == (SocketAddrV6 { ip: 0, port: 3000, flowinfo: 0, scope_id: 0 })
    &&& !n.enable_tls
    &&& n.tls_certificate_path@ == Seq::<char>::empty()
    &&& n.tls_private_key_path@ == Seq::<char>::empty()
    &&& n.tcp_backlog == 1024
    &&& n.keep_alive
    &&& !n.runs_behind_reverse_proxy
    &&& n.reverse_proxy_ip_header_name@ == "X-Forwarded-For"@
    &&& n.reverse_proxy_ip_header_format == ReverseProxyPeerIpHeaderFormat::LastAddress
    &&& n.set_only_ipv6
}

impl Default for NetworkConfig {
    fn default() -> (r: Self)
        ensures
            network_is_default(r),
    {
        Self {
            use_ipv4: true,
            use_ipv6: true,
            address_ipv4: SocketAddrV4 { ip: 0, port: 3000 },
            address_ipv6: SocketAddrV6 { ip: 0, port: 3000, flowinfo: 0, scope_id: 0 },
            enable_tls: false,
            tls_certificate_path: String::new(),
            tls_private_key_path: String::new(),
            tcp_backlog: 1024,
            keep_alive: true,
            runs_behind_reverse_proxy: false,
            reverse_proxy_ip_header_name: String::from_str("X-Forwarded-For"),
            reverse_proxy_ip_header_format: ReverseProxyPeerIpHeaderFormat::default(),
            set_only_ipv6: true,
        }
    }
}

#[derive(Clone, Copy, Debug, PartialEq, Eq, Structural)]
pub struct ProtocolConfig {
    /// Maximum number of torrents to accept in scrape request
    pub max_scrape_torrents: usize,
    /// Maximum number of requested peers to return in announce response
    pub max_peers: usize,
    /// Ask peers to announce this often (seconds)
    pub peer_announce_interval: usize,
}

impl ProtocolConfig {
    pub open spec fn spec_default() -> Self {
        ProtocolConfig { max_scrape_torrents: 100, max_peers: 50, peer_announce_interval: 120 }
    }
}

impl Default for ProtocolConfig {
    fn default() -> (r: Self)
        ensures
            r == Self::spec_default(),
    {
        Self { max_scrape_torrents: 100, max_peers: 50, peer_announce_interval: 120 }
    }
}

#[derive(Clone, Copy, Debug, PartialEq, Eq, Structural)]
pub struct CleaningConfig {
    /// Clean peers this often (seconds)
    pub torrent_cleaning_interval: u64,
    /// Clean connections this often (seconds)
    pub connection_cleaning_interval: u64,
    /// Remove peers that have not announced for this long (seconds)
    pub max_peer_age: u32,
    /// Remove connections that haven't seen valid requests for this long (seconds)
    pub max_connection_idle: u32,
}

impl CleaningConfig {
    pub open spec fn spec_default() -> Self {
        CleaningConfig {
            torrent_cleaning_interval: 30,
            connection_cleaning_interval: 60,
            max_peer_age: 1800,
            max_connection_idle: 180,
        }
    }
}

impl Default for CleaningConfig {
    fn default() -> (r: Self)
        ensures
            r == Self::spec_default(),
    {
        Self {
            torrent_cleaning_interval: 30,
            connection_cleaning_interval: 60,
            max_peer_age: 1800,
            max_connection_idle: 180,
        }
    }
}

} // verus!
