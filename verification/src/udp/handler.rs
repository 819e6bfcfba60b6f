//! What a socket worker answers to each request: connection ids for connect
//! requests, and announce and scrape responses for requests that carry a
//! valid connection id.

use vstd::prelude::*;

use rand::rngs::SmallRng;

use crate::common::access_list::{allows_spec, AccessList};
use crate::common::{CanonicalSocketAddr, ValidUntil};
use crate::udp::common::{IpVersionStatistics, SocketWorkerStatistics, StatisticsMessage};
use crate::udp::config::Config;
use crate::udp::protocol::{ConnectResponse, ConnectionId, ErrorResponse, Request, Response, TransactionId};
use crate::udp::torrents::{torrent_statistics, TorrentMaps};
use crate::udp::validator::{
    connection_id_accepted, connection_id_of, law_created_connection_id_accepted, ConnectionValidator,
};

verus! {

/// The state that a socket worker answers requests with
pub struct WorkerSharedData {
    pub config: Config,
    pub validator: ConnectionValidator,
    pub rng: SmallRng,
    /// Until when an announcing peer stays valid
    pub peer_valid_until: ValidUntil,
}

/// Whether a request's connection id is accepted from the address
pub open spec fn request_connection_accepted(
    validator: ConnectionValidator,
    src: CanonicalSocketAddr,
    connection_id: ConnectionId,
) -> bool {
    connection_id_accepted(
        validator.key(),
        validator.max_connection_age(),
        validator.seconds_since_start(),
        src@.spec_ip(),
        connection_id.0,
    )
}

impl WorkerSharedData {
    /// Answer a request from `src`. A connect request gets a new connection
    /// id. An announce or scrape request whose connection id is not
    /// accepted gets no answer; an announce for an info hash that the
    /// access list does not allow gets an error response.
    pub fn handle_request(
        &mut self,
        torrent_maps: &mut TorrentMaps,
        access_list: &AccessList,
        statistics_messages: &mut Vec<StatisticsMessage>,
        request: Request,
        src: CanonicalSocketAddr,
    ) -> (r: Option<Response>)
        requires
            old(self).validator.wf(),
            old(torrent_maps).wf(),
        ensures
            final(self).validator == old(self).validator,
            final(self).config == old(self).config,
            final(self).peer_valid_until == old(self).peer_valid_until,
            final(torrent_maps).wf(),
            match request {
                Request::Connect(connect) => {
                    &&& r == Some(
                        Response::Connect(
                            ConnectResponse {
                                connection_id: ConnectionId(
                                    connection_id_of(
                                        old(self).validator.key(),
                                        old(self).validator.seconds_since_start(),
                                        src@.spec_ip(),
                                    ),
                                ),
                                transaction_id: connect.transaction_id,
                            },
                        ),
                    )
                    &&& *final(torrent_maps) == *old(torrent_maps)
                    &&& final(statistics_messages)@ == old(statistics_messages)@
                },
                Request::Announce(announce) => if !request_connection_accepted(
                    old(self).validator,
                    src,
                    announce.connection_id,
                ) {
                    &&& r is None
                    &&& *final(torrent_maps) == *old(torrent_maps)
                    &&& final(statistics_messages)@ == old(statistics_messages)@
                } else if !allows_spec(access_list@, old(self).config.access_list.mode, announce.info_hash.0) {
                    &&& r matches Some(Response::Error(e)) && e.transaction_id == announce.transaction_id
                        && e.message@ == "Info hash not allowed"@
                    &&& *final(torrent_maps) == *old(torrent_maps)
                    &&& final(statistics_messages)@ == old(statistics_messages)@
                } else {
                    r matches Some(response) && TorrentMaps::announced(
                        *old(torrent_maps),
                        *final(torrent_maps),
                        &old(self).config,
                        announce,
                        src,
                        old(self).peer_valid_until,
                        response,
                        old(statistics_messages)@,
                        final(statistics_messages)@,
                    )
                },
                Request::Scrape(scrape) => if !request_connection_accepted(
                    old(self).validator,
                    src,
                    scrape.connection_id,
                ) {
                    &&& r is None
                    &&& *final(torrent_maps) == *old(torrent_maps)
                    &&& final(statistics_messages)@ == old(statistics_messages)@
                } else {
                    &&& *final(torrent_maps) == *old(torrent_maps)
                    &&& final(statistics_messages)@ == old(statistics_messages)@
                    &&& r matches Some(Response::Scrape(s)) && s.transaction_id == scrape.transaction_id
                        && s.torrent_stats@.len() == scrape.info_hashes@.len() && forall|i: int|
                        0 <= i < s.torrent_stats@.len() ==> s.torrent_stats@[i] == torrent_statistics(
                            old(torrent_maps).torrents_of(src),
                            scrape.info_hashes@[i],
                        )
                },
            },
    {
        let access_list_mode = self.config.access_list.mode;

        match request {
            Request::Connect(request) => {
                return Some(
                    Response::Connect(
                        ConnectResponse {
                            connection_id: self.validator.create_connection_id(src),
                            transaction_id: request.transaction_id,
                        },
                    ),
                );
            },
            Request::Announce(request) => {
                if self.validator.connection_id_valid(src, request.connection_id) {
                    if access_list.allows(access_list_mode, &request.info_hash.0) {
                        let response = torrent_maps.announce(
                            &self.config,
                            statistics_messages,
                            &mut self.rng,
                            &request,
                            src,
                            self.peer_valid_until,
                        );

                        return Some(response);
                    } else {
                        return Some(
                            Response::Error(
                                ErrorResponse {
                                    transaction_id: request.transaction_id,
                                    message: String::from_str("Info hash not allowed"),
                                },
                            ),
                        );
                    }
                }
            },
            Request::Scrape(request) => {
                if self.validator.connection_id_valid(src, request.connection_id) {
                    return Some(Response::Scrape(torrent_maps.scrape(request, src)));
                }
            },
        }

        None
    }
}


/// Bytes of data transmitted when sending an IPv4 UDP packet, in addition
/// to payload size: ethernet frame, MAC header and checksum, IPv4 header,
/// UDP header
pub const EXTRA_PACKET_SIZE_IPV4: usize = 8 + 18 + 20 + 8;

/// Bytes of data transmitted when sending an IPv6 UDP packet, in addition
/// to payload size: ethernet frame, MAC header and checksum, IPv6 header,
/// UDP header
pub const EXTRA_PACKET_SIZE_IPV6: usize = 8 + 18 + 40 + 8;

/// Why a datagram is no request: with the ids to answer it with an error,
/// or not answerable
#[derive(Debug, Clone, PartialEq, Eq)]
pub enum RequestParseError {
    Sendable { connection_id: ConnectionId, transaction_id: TransactionId, message: String },
    Unsendable,
}

/// What to do with a datagram
#[derive(Debug, Clone, PartialEq, Eq)]
pub enum DatagramAction {
    Ignore,
    /// Handle the request (`handle_request`)
    Handle(Request),
    /// Send this response
    Answer(Response),
}

/// The counter after adding `n`, wrapping around as an atomic counter does
pub open spec fn counter_plus(counter: usize, n: usize) -> usize {
    vstd::wrapping::usize_specs::wrapping_add(counter, n)
}

/// The counters of the IP version of the address
pub open spec fn counters_of(
    statistics: IpVersionStatistics<SocketWorkerStatistics>,
    src: CanonicalSocketAddr,
) -> SocketWorkerStatistics {
    if src@ is V4 {
        statistics.ipv4
    } else {
        statistics.ipv6
    }
}

/// `new` is `old` with the counters of the address's IP version replaced
pub open spec fn counters_updated(
    old: IpVersionStatistics<SocketWorkerStatistics>,
    new: IpVersionStatistics<SocketWorkerStatistics>,
    src: CanonicalSocketAddr,
    counters: SocketWorkerStatistics,
) -> bool {
    if src@ is V4 {
        new.ipv4 == counters && new.ipv6 == old.ipv6
    } else {
        new.ipv6 == counters && new.ipv4 == old.ipv4
    }
}

/// The extra bytes of a packet to or from the address
pub open spec fn extra_packet_size(src: CanonicalSocketAddr) -> usize {
    if src@ is V4 {
        EXTRA_PACKET_SIZE_IPV4
    } else {
        EXTRA_PACKET_SIZE_IPV6
    }
}

fn extra_packet_size_of(src: CanonicalSocketAddr) -> (r: usize)
    ensures
        r == extra_packet_size(src),
{
    if src.is_ipv4() {
        EXTRA_PACKET_SIZE_IPV4
    } else {
        EXTRA_PACKET_SIZE_IPV6
    }
}

fn counters_mut(
    statistics: &mut IpVersionStatistics<SocketWorkerStatistics>,
    src: CanonicalSocketAddr,
) -> (r: &mut SocketWorkerStatistics)
    ensures
        *r == counters_of(*old(statistics), src),
        counters_updated(*old(statistics), *final(statistics), src, *final(r)),
{
    if src.is_ipv4() {
        &mut statistics.ipv4
    } else {
        &mut statistics.ipv6
    }
}

impl WorkerSharedData {
    /// What to do with a datagram of `bytes_read` bytes from `src` (sent from
    /// `src_port`), once parsed. When statistics are active, the bytes (with
    /// the packet overhead of the address's IP version) and each request
    /// are counted. A datagram from port zero is ignored; a request is to be
    /// handled; a parse error is answered with an error response if it
    /// carries a connection id that is accepted from the address, else
    /// ignored.
    pub fn handle_datagram(
        &mut self,
        statistics: &mut IpVersionStatistics<SocketWorkerStatistics>,
        bytes_read: usize,
        src_port: u16,
        src: CanonicalSocketAddr,
        parsed: Result<Request, RequestParseError>,
    ) -> (r: DatagramAction)
        requires
            old(self).validator.wf(),
            bytes_read <= usize::MAX - EXTRA_PACKET_SIZE_IPV6,
        ensures
            final(self).validator == old(self).validator,
            final(self).config == old(self).config,
            final(self).peer_valid_until == old(self).peer_valid_until,
            !old(self).config.statistics.spec_active() ==> *final(statistics) == *old(statistics),
            old(self).config.statistics.spec_active() ==> {
                let before = counters_of(*old(statistics), src);
                let requests = if src_port != 0 && parsed is Ok {
                    counter_plus(before.requests, 1)
                } else {
                    before.requests
                };
                counters_updated(
                    *old(statistics),
                    *final(statistics),
                    src,
                    SocketWorkerStatistics {
                        bytes_received: counter_plus(before.bytes_received, (bytes_read + extra_packet_size(src)) as usize),
                        requests,
                        ..before
                    },
                )
            },
            src_port == 0 ==> r == DatagramAction::Ignore,
            src_port != 0 ==> match parsed {
                Ok(request) => r == DatagramAction::Handle(request),
                Err(RequestParseError::Sendable { connection_id, transaction_id, message }) => if request_connection_accepted(
                    old(self).validator,
                    src,
                    connection_id,
                ) {
                    r == DatagramAction::Answer(Response::Error(ErrorResponse { transaction_id, message }))
                } else {
                    r == DatagramAction::Ignore
                },
                Err(RequestParseError::Unsendable) => r == DatagramAction::Ignore,
            },
    {
        // Use canonical address for statistics
        let active = self.config.statistics.active();
        if active {
            let extra = extra_packet_size_of(src);
            let counters = counters_mut(statistics, src);
            counters.bytes_received = counters.bytes_received.wrapping_add(bytes_read + extra);
        }

        if src_port == 0 {
            return DatagramAction::Ignore;
        }

        match parsed {
            Ok(request) => {
                if active {
                    let counters = counters_mut(statistics, src);
                    counters.requests = counters.requests.wrapping_add(1);
                }
                DatagramAction::Handle(request)
            },
            Err(RequestParseError::Sendable { connection_id, transaction_id, message }) => {
                if self.validator.connection_id_valid(src, connection_id) {
                    DatagramAction::Answer(Response::Error(ErrorResponse { transaction_id, message }))
                } else {
                    DatagramAction::Ignore
                }
            },
            Err(RequestParseError::Unsendable) => DatagramAction::Ignore,
        }
    }

    /// Count a response of `bytes_sent` bytes sent to `addr`, when
    /// statistics are active: the bytes with the packet overhead of the
    /// address's IP version, and one response of the response's kind
    pub fn count_sent_response(
        &self,
        statistics: &mut IpVersionStatistics<SocketWorkerStatistics>,
        addr: CanonicalSocketAddr,
        response: &Response,
        bytes_sent: usize,
    )
        requires
            bytes_sent <= usize::MAX - EXTRA_PACKET_SIZE_IPV6,
        ensures
            !self.config.statistics.spec_active() ==> *final(statistics) == *old(statistics),
            self.config.statistics.spec_active() ==> {
                let before = counters_of(*old(statistics), addr);
                let with_bytes = SocketWorkerStatistics {
                    bytes_sent: counter_plus(before.bytes_sent, (bytes_sent + extra_packet_size(addr)) as usize),
                    ..before
                };
                counters_updated(
                    *old(statistics),
                    *final(statistics),
                    addr,
                    match response {
                        Response::Connect(_) => SocketWorkerStatistics {
                            responses_connect: counter_plus(before.responses_connect, 1),
                            ..with_bytes
                        },
                        Response::AnnounceIpv4(_) | Response::AnnounceIpv6(_) => SocketWorkerStatistics {
                            responses_announce: counter_plus(before.responses_announce, 1),
                            ..with_bytes
                        },
                        Response::Scrape(_) => SocketWorkerStatistics {
                            responses_scrape: counter_plus(before.responses_scrape, 1),
                            ..with_bytes
                        },
                        Response::Error(_) => SocketWorkerStatistics {
                            responses_error: counter_plus(before.responses_error, 1),
                            ..with_bytes
                        },
                    },
                )
            },
    {
        if !self.config.statistics.active() {
            return;
        }
        let extra = extra_packet_size_of(addr);
        let counters = counters_mut(statistics, addr);
        counters.bytes_sent = counters.bytes_sent.wrapping_add(bytes_sent + extra);
        match response {
            Response::Connect(_) => {
                counters.responses_connect = counters.responses_connect.wrapping_add(1);
            },
            Response::AnnounceIpv4(_) | Response::AnnounceIpv6(_) => {
                counters.responses_announce = counters.responses_announce.wrapping_add(1);
            },
            Response::Scrape(_) => {
                counters.responses_scrape = counters.responses_scrape.wrapping_add(1);
            },
            Response::Error(_) => {
                counters.responses_error = counters.responses_error.wrapping_add(1);
            },
        }
    }
}

/// A client that connects and then announces or scrapes from the same
/// address, before the validator's clock moves on, has its connection id
/// accepted exactly when connection ids may be used for a while at all.
pub proof fn law_connect_then_request_accepted(validator: ConnectionValidator, src: CanonicalSocketAddr)
    ensures
        request_connection_accepted(
            validator,
            src,
            ConnectionId(connection_id_of(validator.key(), validator.seconds_since_start(), src@.spec_ip())),
        ) == (validator.max_connection_age() > 0),
{
    law_created_connection_id_accepted(
        validator.key(),
        validator.max_connection_age(),
        validator.seconds_since_start(),
        src@.spec_ip(),
    );
}

} // verus!
