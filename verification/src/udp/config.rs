//! aquatic_udp configuration as plain values

use vstd::prelude::*;

use crate::common::access_list::{AccessListConfig, AccessListMode};
use crate::common::cli::LogLevel;
use crate::common::{SocketAddrV4, SocketAddrV6};

verus! {

/// aquatic_udp configuration
#[derive(Clone, Debug, PartialEq)]
pub struct Config {
    /// Number of socket workers
    ///
    /// 0 = automatically set to number of available virtual CPUs
    pub socket_workers: usize,
    /// Number of swarm workers
    pub swarm_workers: usize,
    pub log_level: LogLevel,
    pub network: NetworkConfig,
    pub protocol: ProtocolConfig,
    pub statistics: StatisticsConfig,
    pub cleaning: CleaningConfig,
    /// Access list configuration
    pub access_list: AccessListConfig,
}

impl Default for Config {
    fn default() -> (r: Self)
        ensures
            r.socket_workers == 1,
            r.swarm_workers == 1,
            r.log_level == LogLevel::Error,
            r.protocol == ProtocolConfig::spec_default(),
            r.cleaning == CleaningConfig::spec_default(),
            r.access_list.mode == AccessListMode::Off,
            r.statistics.interval == 5,
            !r.statistics.torrent_peer_histograms,
            !r.statistics.peer_clients,
            !r.statistics.print_to_stdout,
            !r.statistics.write_html_to_file,
    {
        Self {
            socket_workers: 1,
            swarm_workers: 1,
            log_level: LogLevel::Error,
            network: NetworkConfig::default(),
            protocol: ProtocolConfig::default(),
            statistics: StatisticsConfig::default(),
            cleaning: CleaningConfig::default(),
            access_list: AccessListConfig::default(),
        }
    }
}

#[derive(Clone, Debug, PartialEq)]
pub struct NetworkConfig {
    /// Use IPv4
    pub use_ipv4: bool,
    /// Use IPv6
    pub use_ipv6: bool,
    /// IPv4 address and port
    pub address_ipv4: SocketAddrV4,
    /// IPv6 address and port
    pub address_ipv6: SocketAddrV6,
    /// Size of socket recv buffer. Use 0 for OS default.
    pub socket_recv_buffer_size: usize,
    /// Poll timeout in milliseconds (mio backend only)
    pub poll_timeout_ms: u64,
    /// Store this many responses at most for retrying (once) on send failure
    pub resend_buffer_max_len: usize,
    /// Set flag on IPv6 socket to only accept IPv6 traffic.
    pub set_only_ipv6: bool,
}

impl NetworkConfig {
    pub fn ipv4_active(&self) -> (r: bool)
        ensures
            r == self.use_ipv4,
    {
        self.use_ipv4
    }

    pub fn ipv6_active(&self) -> (r: bool)
        ensures
            r == self.use_ipv6,
    {
        self.use_ipv6
    }
}

impl Default for NetworkConfig {
    fn default() -> (r: Self)
        ensures
            r.use_ipv4 && r.use_ipv6,
            r.address_ipv4 == (SocketAddrV4 { ip: 0, port: 3000 }),
            r.address_ipv6 == (SocketAddrV6 { ip: 0, port: 3000, flowinfo: 0, scope_id: 0 }),
            r.socket_recv_buffer_size == 8_000_000,
            r.poll_timeout_ms == 50,
            r.resend_buffer_max_len == 0,
            r.set_only_ipv6,
    {
        Self {
            use_ipv4: true,
            use_ipv6: true,
            address_ipv4: SocketAddrV4 { ip: 0, port: 3000 },
            address_ipv6: SocketAddrV6 { ip: 0, port: 3000, flowinfo: 0, scope_id: 0 },
            socket_recv_buffer_size: 8_000_000,
            poll_timeout_ms: 50,
            resend_buffer_max_len: 0,
            set_only_ipv6: true,
        }
    }
}

#[derive(Clone, Copy, Debug, PartialEq, Eq, Structural)]
pub struct ProtocolConfig {
    /// Maximum number of torrents to allow in scrape request
    pub max_scrape_torrents: u8,
    /// Maximum number of peers to return in announce response
    pub max_response_peers: usize,
    /// Ask peers to announce this often (seconds)
    pub peer_announce_interval: i32,
}

impl ProtocolConfig {
    pub open spec fn spec_default() -> Self {
        ProtocolConfig { max_scrape_torrents: 70, max_response_peers: 30, peer_announce_interval: 900 }
    }

}

impl Default for ProtocolConfig {
    fn default() -> (r: Self)
        ensures
            r == Self::spec_default(),
    {
        ProtocolConfig { max_scrape_torrents: 70, max_response_peers: 30, peer_announce_interval: 900 }
    }
}

#[derive(Clone, Debug, PartialEq)]
pub struct StatisticsConfig {
    /// Collect and print/write statistics this often (seconds)
    pub interval: u64,
    /// Collect statistics on number of peers per torrent
    pub torrent_peer_histograms: bool,
    /// Collect statistics on peer clients.
    pub peer_clients: bool,
    /// Print statistics to standard output
    pub print_to_stdout: bool,
    /// Save statistics as HTML to a file
    pub write_html_to_file: bool,
    /// Path to save HTML file to
    pub html_file_path: String,
}

impl StatisticsConfig {
    pub open spec fn spec_active(&self) -> bool {
        (self.interval != 0) && (self.print_to_stdout || self.write_html_to_file)
    }

    #[verifier::when_used_as_spec(spec_active)]
    pub fn active(&self) -> (r: bool)
        ensures
            r == self.spec_active(),
    {
        (self.interval != 0) && (self.print_to_stdout || self.write_html_to_file)
    }

}

impl Default for StatisticsConfig {
    fn default() -> (r: Self)
        ensures
            r.interval == 5,
            !r.torrent_peer_histograms,
            !r.peer_clients,
            !r.print_to_stdout,
            !r.write_html_to_file,
            r.html_file_path@ == "tmp/statistics.html"@,
    {
        Self {
            interval: 5,
            torrent_peer_histograms: false,
            peer_clients: false,
            print_to_stdout: false,
            write_html_to_file: false,
            html_file_path: String::from_str("tmp/statistics.html"),
        }
    }
}

#[derive(Clone, Copy, Debug, PartialEq, Eq, Structural)]
pub struct CleaningConfig {
    /// Clean torrents this often (seconds)
    pub torrent_cleaning_interval: u64,
    /// Allow clients to use a connection token for this long (seconds)
    pub max_connection_age: u32,
    /// Remove peers who have not announced for this long (seconds)
    pub max_peer_age: u32,
}

impl CleaningConfig {
    pub open spec fn spec_default() -> Self {
        CleaningConfig { torrent_cleaning_interval: 120, max_connection_age: 120, max_peer_age: 1200 }
    }

}

impl Default for CleaningConfig {
    fn default() -> (r: Self)
        ensures
            r == Self::spec_default(),
    {
        CleaningConfig { torrent_cleaning_interval: 120, max_connection_age: 120, max_peer_age: 1200 }
    }
}

} // verus!
