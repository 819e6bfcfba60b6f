use aquatic::common::access_list::{AccessList, AccessListMode};
use aquatic::common::{CanonicalSocketAddr, SecondsSinceServerStart, SocketAddr, SocketAddrV4, ValidUntil};
use aquatic::udp::common::{IpVersionStatistics, SocketWorkerStatistics};
use aquatic::udp::config::Config;
use aquatic::udp::handler::{DatagramAction, RequestParseError};
use aquatic::udp::handler::WorkerSharedData;
use aquatic::udp::protocol::{
    AnnounceEvent, AnnounceRequest, ConnectRequest, ConnectResponse, ErrorResponse, ConnectionId, InfoHash, Ipv4AddrBytes, NumberOfBytes,
    NumberOfPeers, PeerId, PeerKey, Port, Request, Response, ScrapeRequest, TransactionId,
};
use aquatic::udp::swarm::PeerStatus;
use aquatic::udp::torrents::TorrentMaps;
use aquatic::udp::validator::ConnectionValidator;
use rand::rngs::SmallRng;
use rand::SeedableRng;

#[test]
fn test_peer_status_from_event_and_bytes_left() {
    let f = PeerStatus::from_event_and_bytes_left;

    assert_eq!(PeerStatus::Stopped, f(AnnounceEvent::Stopped, NumberOfBytes(0)));
    assert_eq!(PeerStatus::Stopped, f(AnnounceEvent::Stopped, NumberOfBytes(1)));

    assert_eq!(PeerStatus::Seeding, f(AnnounceEvent::Started, NumberOfBytes(0)));
    assert_eq!(PeerStatus::Leeching, f(AnnounceEvent::Started, NumberOfBytes(1)));

    assert_eq!(PeerStatus::Seeding, f(AnnounceEvent::Completed, NumberOfBytes(0)));
    assert_eq!(PeerStatus::Leeching, f(AnnounceEvent::Completed, NumberOfBytes(1)));

    assert_eq!(PeerStatus::Seeding, f(AnnounceEvent::Empty, NumberOfBytes(0)));
    assert_eq!(PeerStatus::Leeching, f(AnnounceEvent::Empty, NumberOfBytes(1)));
}

fn make_request_and_src(i: u8, torrent: u8) -> (AnnounceRequest, CanonicalSocketAddr) {
    let request = AnnounceRequest {
        connection_id: ConnectionId(0),
        transaction_id: TransactionId(0),
        info_hash: InfoHash([torrent; 20]),
        peer_id: PeerId([i; 20]),
        bytes_downloaded: NumberOfBytes(0),
        bytes_uploaded: NumberOfBytes(0),
        bytes_left: NumberOfBytes(1),
        event: AnnounceEvent::Started,
        ip_address: Ipv4AddrBytes(0),
        key: PeerKey(0),
        peers_wanted: NumberOfPeers(0),
        port: Port(1),
    };

    let src = CanonicalSocketAddr::new(SocketAddr::V4(SocketAddrV4 {
        ip: u32::from_be_bytes([127, 0, 0, i + 1]),
        port: 1024,
    }));

    (request, src)
}

/// The time since the server started is given to cleaning instead of being
/// waited for: peers valid until 0 s and until 4 s, cleaned at 1 s and 5 s.
#[test]
fn test_cleaning() {
    const NUM_TORRENTS: u8 = 2;
    const NUM_PEERS: u8 = 50;

    let mut config = Config::default();

    config.protocol.max_response_peers = 100;
    config.statistics.print_to_stdout = true; // Just to enable calculating statistics

    let mut torrent_maps = TorrentMaps::default();
    let mut rng = SmallRng::seed_from_u64(0);
    let mut statistics_messages = Vec::new();
    let access_list = AccessList::new();

    let start = SecondsSinceServerStart(0);
    let short = ValidUntil::new_with_now(start, 0);
    let long = ValidUntil::new_with_now(start, 4);

    for i in 0..NUM_TORRENTS {
        for j in 0..NUM_PEERS {
            let (request, src) = make_request_and_src(j, i);

            let valid_until = if j % 2 == 0 { short } else { long };

            let response =
                torrent_maps.announce(&config, &mut statistics_messages, &mut rng, &request, src, valid_until);

            match response {
                Response::AnnounceIpv4(announce) => {
                    assert_eq!(announce.peers.len(), j as usize);
                }
                _ => panic!("Wrong response type"),
            }
        }
    }

    // Clean out half

    let (ipv4, _) = torrent_maps.clean_and_update_statistics_at(
        &config,
        &mut statistics_messages,
        &access_list,
        SecondsSinceServerStart(1),
    );

    assert_eq!(ipv4.peers, (NUM_PEERS as usize * NUM_TORRENTS as usize) / 2);
    assert_eq!(ipv4.torrents, NUM_TORRENTS as usize);

    for i in 0..NUM_TORRENTS {
        let (request, src) = make_request_and_src(NUM_PEERS, i);

        let response = torrent_maps.announce(&config, &mut statistics_messages, &mut rng, &request, src, short);

        match response {
            Response::AnnounceIpv4(announce) => {
                assert_eq!(announce.peers.len(), NUM_PEERS as usize / 2);
            }
            _ => panic!("Wrong response type"),
        }
    }

    // Clean out rest

    let (ipv4, _) = torrent_maps.clean_and_update_statistics_at(
        &config,
        &mut statistics_messages,
        &access_list,
        SecondsSinceServerStart(5),
    );

    assert_eq!(ipv4.peers, 0);
    assert_eq!(ipv4.torrents, 0);

    for i in 0..NUM_TORRENTS {
        let (request, src) = make_request_and_src(NUM_PEERS, i);

        let response = torrent_maps.announce(&config, &mut statistics_messages, &mut rng, &request, src, short);

        match response {
            Response::AnnounceIpv4(announce) => {
                assert_eq!(announce.peers.len(), 0);
            }
            _ => panic!("Wrong response type"),
        }
    }
}

fn announce_request(connection_id: ConnectionId, info_hash: InfoHash) -> Request {
    Request::Announce(AnnounceRequest {
        connection_id,
        transaction_id: TransactionId(1),
        info_hash,
        peer_id: PeerId([0; 20]),
        bytes_downloaded: NumberOfBytes(0),
        bytes_uploaded: NumberOfBytes(0),
        bytes_left: NumberOfBytes(10),
        event: AnnounceEvent::Started,
        ip_address: Ipv4AddrBytes(0),
        key: PeerKey(0),
        peers_wanted: NumberOfPeers(10),
        port: Port(1),
    })
}

/// The requests go to the request handler of a socket worker instead of
/// through a socket.
fn test_access_list(info_hash_success: InfoHash, info_hash_fail: InfoHash, info_hash_in_list: InfoHash, mode: AccessListMode) {
    let access_list = AccessList::create_from_lines(&vec![hex::encode_upper(info_hash_in_list.0)]).unwrap();

    let mut config = Config::default();
    config.network.use_ipv6 = false;
    config.access_list.mode = mode;

    let validator = ConnectionValidator::new(&config).unwrap();
    let mut worker = WorkerSharedData {
        config: config.clone(),
        validator,
        rng: SmallRng::seed_from_u64(1),
        peer_valid_until: ValidUntil::new_with_now(SecondsSinceServerStart(0), 100),
    };
    let mut torrent_maps = TorrentMaps::default();
    let mut statistics_messages = Vec::new();

    let peer_addr = CanonicalSocketAddr::new(SocketAddr::V4(SocketAddrV4 { ip: u32::from_be_bytes([127, 0, 0, 1]), port: 1 }));

    let connection_id = match worker.handle_request(
        &mut torrent_maps,
        &access_list,
        &mut statistics_messages,
        Request::Connect(ConnectRequest { transaction_id: TransactionId(0) }),
        peer_addr,
    ) {
        Some(Response::Connect(response)) => response.connection_id,
        other => panic!("not connect response: {:?}", other),
    };

    let response = worker.handle_request(
        &mut torrent_maps,
        &access_list,
        &mut statistics_messages,
        announce_request(connection_id, info_hash_fail),
        peer_addr,
    );

    assert!(matches!(response, Some(Response::Error(_))), "response should be error but is {:?}", response);

    let response = worker.handle_request(
        &mut torrent_maps,
        &access_list,
        &mut statistics_messages,
        announce_request(connection_id, info_hash_success),
        peer_addr,
    );

    assert!(matches!(response, Some(Response::AnnounceIpv4(_))));
}

#[test]
fn test_access_list_deny() {
    let deny = InfoHash([0; 20]);
    let allow = InfoHash([1; 20]);

    test_access_list(allow, deny, deny, AccessListMode::Deny);
}

#[test]
fn test_access_list_allow() {
    let allow = InfoHash([0; 20]);
    let deny = InfoHash([1; 20]);

    test_access_list(allow, deny, allow, AccessListMode::Allow);
}

fn worker_with_seed(seed: u64) -> WorkerSharedData {
    let mut config = Config::default();
    config.network.use_ipv6 = false;
    WorkerSharedData {
        config: config.clone(),
        validator: ConnectionValidator::new(&config).unwrap(),
        rng: SmallRng::seed_from_u64(seed),
        peer_valid_until: ValidUntil::new_with_now(SecondsSinceServerStart(0), 100),
    }
}

fn connect(worker: &mut WorkerSharedData, torrent_maps: &mut TorrentMaps, peer_addr: CanonicalSocketAddr) -> ConnectionId {
    let mut statistics_messages = Vec::new();
    match worker.handle_request(
        torrent_maps,
        &AccessList::new(),
        &mut statistics_messages,
        Request::Connect(ConnectRequest { transaction_id: TransactionId(0) }),
        peer_addr,
    ) {
        Some(Response::Connect(response)) => response.connection_id,
        other => panic!("not connect response: {:?}", other),
    }
}

/// The requests go to the request handler of a socket worker instead of
/// through a socket.
#[test]
fn test_invalid_connection_id() {
    let mut worker = worker_with_seed(2);
    let mut torrent_maps = TorrentMaps::default();
    let mut statistics_messages = Vec::new();
    let access_list = AccessList::new();
    let peer_addr = CanonicalSocketAddr::new(SocketAddr::V4(SocketAddrV4 { ip: 0x7f00_0001, port: 1 }));

    // The tracker answers valid requests
    let connection_id = connect(&mut worker, &mut torrent_maps, peer_addr);
    let invalid_connection_id = ConnectionId(!connection_id.0);

    let response = worker.handle_request(
        &mut torrent_maps,
        &access_list,
        &mut statistics_messages,
        announce_request(invalid_connection_id, InfoHash([0; 20])),
        peer_addr,
    );
    assert!(response.is_none());

    let response = worker.handle_request(
        &mut torrent_maps,
        &access_list,
        &mut statistics_messages,
        Request::Scrape(ScrapeRequest { connection_id: invalid_connection_id, transaction_id: TransactionId(0), info_hashes: vec![InfoHash([0; 20])] }),
        peer_addr,
    );
    assert!(response.is_none());
}

/// Twenty peers connect, announce and scrape one after the other; the
/// requests go to the request handler of a socket worker.
#[test]
fn test_multiple_connect_announce_scrape() {
    const PEER_PORT_START: u16 = 30_000;
    const PEERS_WANTED: usize = 10;

    let mut worker = worker_with_seed(5);
    let mut torrent_maps = TorrentMaps::default();
    let mut statistics_messages = Vec::new();
    let access_list = AccessList::new();
    let info_hash = InfoHash([0; 20]);

    let mut num_seeders = 0;
    let mut num_leechers = 0;

    for i in 0..20usize {
        let is_seeder = i % 3 == 0;
        let peer_addr = CanonicalSocketAddr::new(SocketAddr::V4(SocketAddrV4 { ip: 0x7f00_0001, port: 50_000 + i as u16 }));
        let connection_id = connect(&mut worker, &mut torrent_maps, peer_addr);

        let request = Request::Announce(AnnounceRequest {
            connection_id,
            transaction_id: TransactionId(i as i32),
            info_hash,
            peer_id: PeerId([i as u8; 20]),
            bytes_downloaded: NumberOfBytes(0),
            bytes_uploaded: NumberOfBytes(0),
            bytes_left: NumberOfBytes(if is_seeder { 0 } else { 1 }),
            event: AnnounceEvent::Started,
            ip_address: Ipv4AddrBytes(0),
            key: PeerKey(0),
            peers_wanted: NumberOfPeers(PEERS_WANTED as i32),
            port: Port(PEER_PORT_START + i as u16),
        });
        let announce_response = match worker.handle_request(&mut torrent_maps, &access_list, &mut statistics_messages, request, peer_addr) {
            Some(Response::AnnounceIpv4(response)) => response,
            other => panic!("not announce response: {:?}", other),
        };

        assert_eq!(announce_response.peers.len(), i.min(PEERS_WANTED));
        assert_eq!(announce_response.fixed.seeders.0, num_seeders);
        assert_eq!(announce_response.fixed.leechers.0, num_leechers);

        let mut response_peer_ports: Vec<u16> = announce_response.peers.iter().map(|p| p.port.0).collect();
        response_peer_ports.sort();
        response_peer_ports.dedup();
        assert_eq!(response_peer_ports.len(), announce_response.peers.len());
        let expected_peer_ports: Vec<u16> = (0..i).map(|i| PEER_PORT_START + i as u16).collect();
        if i > PEERS_WANTED {
            assert!(response_peer_ports.iter().all(|p| expected_peer_ports.contains(p)));
        } else {
            assert_eq!(response_peer_ports, expected_peer_ports);
        }

        // The announcing peer is counted only after its announce
        if is_seeder {
            num_seeders += 1;
        } else {
            num_leechers += 1;
        }

        let request = Request::Scrape(ScrapeRequest { connection_id, transaction_id: TransactionId(0), info_hashes: vec![info_hash, InfoHash([1; 20])] });
        let scrape_response = match worker.handle_request(&mut torrent_maps, &access_list, &mut statistics_messages, request, peer_addr) {
            Some(Response::Scrape(response)) => response,
            other => panic!("not scrape response: {:?}", other),
        };
        assert_eq!(scrape_response.torrent_stats[0].seeders.0, num_seeders);
        assert_eq!(scrape_response.torrent_stats[0].leechers.0, num_leechers);
        assert_eq!(scrape_response.torrent_stats[1].seeders.0, 0);
        assert_eq!(scrape_response.torrent_stats[1].leechers.0, 0);
    }
}

#[test]
fn test_scrape_counts_announced_peer() {
    let config = Config::default();
    let mut worker = WorkerSharedData {
        config: config.clone(),
        validator: ConnectionValidator::new(&config).unwrap(),
        rng: SmallRng::seed_from_u64(3),
        peer_valid_until: ValidUntil::new_with_now(SecondsSinceServerStart(0), 100),
    };
    let mut torrent_maps = TorrentMaps::default();
    let mut statistics_messages = Vec::new();
    let access_list = AccessList::new();
    let peer_addr = CanonicalSocketAddr::new(SocketAddr::V4(SocketAddrV4 { ip: 7, port: 7 }));

    let connection_id = match worker.handle_request(
        &mut torrent_maps,
        &access_list,
        &mut statistics_messages,
        Request::Connect(ConnectRequest { transaction_id: TransactionId(0) }),
        peer_addr,
    ) {
        Some(Response::Connect(response)) => response.connection_id,
        other => panic!("not connect response: {:?}", other),
    };

    match worker.handle_request(&mut torrent_maps, &access_list, &mut statistics_messages, announce_request(connection_id, InfoHash([5; 20])), peer_addr) {
        Some(Response::AnnounceIpv4(announce)) => {
            assert_eq!(announce.fixed.leechers.0, 0);
            assert_eq!(announce.fixed.seeders.0, 0);
            assert_eq!(announce.fixed.announce_interval.0, 900);
        }
        other => panic!("not announce response: {:?}", other),
    }

    match worker.handle_request(
        &mut torrent_maps,
        &access_list,
        &mut statistics_messages,
        Request::Scrape(ScrapeRequest { connection_id, transaction_id: TransactionId(9), info_hashes: vec![InfoHash([5; 20]), InfoHash([6; 20])] }),
        peer_addr,
    ) {
        Some(Response::Scrape(scrape)) => {
            assert_eq!(scrape.transaction_id, TransactionId(9));
            assert_eq!(scrape.torrent_stats.len(), 2);
            assert_eq!(scrape.torrent_stats[0].leechers.0, 1);
            assert_eq!(scrape.torrent_stats[0].seeders.0, 0);
            assert_eq!(scrape.torrent_stats[1].leechers.0, 0);
        }
        other => panic!("not scrape response: {:?}", other),
    }
}

#[test]
fn test_datagram_handling_and_counting() {
    let mut config = Config::default();
    config.statistics.interval = 5;
    config.statistics.print_to_stdout = true;
    let mut worker = WorkerSharedData {
        config: config.clone(),
        validator: ConnectionValidator::new(&config).unwrap(),
        rng: SmallRng::seed_from_u64(4),
        peer_valid_until: ValidUntil::new_with_now(SecondsSinceServerStart(0), 100),
    };
    let mut statistics: IpVersionStatistics<SocketWorkerStatistics> = IpVersionStatistics::default();
    let src = CanonicalSocketAddr::new(SocketAddr::V4(SocketAddrV4 { ip: 9, port: 9 }));

    let request = Request::Connect(ConnectRequest { transaction_id: TransactionId(3) });
    let action = worker.handle_datagram(&mut statistics, 16, 9, src, Ok(request.clone()));
    assert_eq!(action, DatagramAction::Handle(request.clone()));
    assert_eq!(statistics.ipv4.bytes_received, 16 + 54);
    assert_eq!(statistics.ipv4.requests, 1);
    assert_eq!(statistics.ipv6.bytes_received, 0);

    // Port zero: counted as received, not handled
    let action = worker.handle_datagram(&mut statistics, 16, 0, src, Ok(request));
    assert_eq!(action, DatagramAction::Ignore);
    assert_eq!(statistics.ipv4.bytes_received, 2 * (16 + 54));
    assert_eq!(statistics.ipv4.requests, 1);

    // A parse error with an unknown connection id gets no answer
    let error = RequestParseError::Sendable { connection_id: ConnectionId(1), transaction_id: TransactionId(5), message: "bad".into() };
    assert_eq!(worker.handle_datagram(&mut statistics, 16, 9, src, Err(error)), DatagramAction::Ignore);
    assert_eq!(worker.handle_datagram(&mut statistics, 16, 9, src, Err(RequestParseError::Unsendable)), DatagramAction::Ignore);

    // With a valid connection id, it gets an error response
    let connection_id = worker.validator.create_connection_id(src);
    let error = RequestParseError::Sendable { connection_id, transaction_id: TransactionId(5), message: "bad".into() };
    assert_eq!(
        worker.handle_datagram(&mut statistics, 16, 9, src, Err(error)),
        DatagramAction::Answer(Response::Error(ErrorResponse { transaction_id: TransactionId(5), message: "bad".into() }))
    );

    let response = Response::Connect(ConnectResponse { connection_id, transaction_id: TransactionId(3) });
    worker.count_sent_response(&mut statistics, src, &response, 16);
    assert_eq!(statistics.ipv4.bytes_sent, 16 + 54);
    assert_eq!(statistics.ipv4.responses_connect, 1);
    assert_eq!(statistics.ipv4.responses_error, 0);

    let src6 = CanonicalSocketAddr::new(SocketAddr::V6(aquatic::common::SocketAddrV6 { ip: 1, port: 9, flowinfo: 0, scope_id: 0 }));
    worker.count_sent_response(&mut statistics, src6, &response, 16);
    assert_eq!(statistics.ipv6.bytes_sent, 16 + 74);

    // Without active statistics nothing is counted
    worker.config.statistics.print_to_stdout = false;
    worker.count_sent_response(&mut statistics, src, &response, 16);
    assert_eq!(statistics.ipv4.responses_connect, 1);
}

#[test]
fn test_validator_with_random_key_and_elapsed_seconds() {
    let config = Config::default();
    assert!(ConnectionValidator::with_random_key(&config, Err(getrandom::Error::UNSUPPORTED)).is_err());

    let mut validator = ConnectionValidator::with_random_key(&config, Ok([7; 32])).unwrap();
    let other = ConnectionValidator::with_random_key(&config, Ok([7; 32])).unwrap();
    let peer_addr = CanonicalSocketAddr::new(SocketAddr::V4(SocketAddrV4 { ip: 0x7f00_0001, port: 1 }));

    // The same key and time give the same id
    let connection_id = validator.create_connection_id(peer_addr);
    let mut other = other;
    assert_eq!(other.create_connection_id(peer_addr), connection_id);
    // The low half holds the seconds since the start
    assert_eq!(connection_id.0 as u64 as u32, 0);

    validator.set_elapsed(119);
    assert!(validator.connection_id_valid(peer_addr, connection_id));
    validator.set_elapsed(120);
    assert!(!validator.connection_id_valid(peer_addr, connection_id));

    // Only the low 32 bits of the elapsed seconds are kept
    validator.set_elapsed((1u64 << 32) + 5);
    let later_id = validator.create_connection_id(peer_addr);
    assert_eq!(later_id.0 as u64 as u32, 5);
}
