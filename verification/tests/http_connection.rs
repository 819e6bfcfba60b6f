use aquatic::common::{CanonicalSocketAddr, SocketAddr, SocketAddrV4, SocketAddrV6};
use aquatic::http::common::peer_addr_to_ip_version_str;
use aquatic::common::access_list::{AccessList, AccessListMode};
use aquatic::http::common::ConnectionError;
use aquatic::http::config::Config;
use aquatic::http::connection::{merge_scrape_responses, route_request, write_response, Routing};
use aquatic::http_protocol::common::{AnnounceEvent, InfoHash, PeerId};
use aquatic::http_protocol::request::{AnnounceRequest, Request, ScrapeRequest};
use aquatic::http_protocol::response::{ScrapeResponse, ScrapeStatistics};

fn announce(info_hash: u8) -> AnnounceRequest {
    AnnounceRequest {
        info_hash: InfoHash([info_hash; 20]),
        peer_id: PeerId([0; 20]),
        port: 1,
        bytes_uploaded: 0,
        bytes_downloaded: 0,
        bytes_left: 0,
        event: AnnounceEvent::Started,
        numwant: None,
        key: None,
    }
}

#[test]
fn test_route_announce() {
    let mut config = Config::default();
    config.swarm_workers = 4;
    let access_list = AccessList::new();

    assert_eq!(
        route_request(&config, &access_list, Request::Announce(announce(7))),
        Routing::Announce { consumer_index: 3, request: announce(7) }
    );

    config.access_list.mode = AccessListMode::Allow;
    match route_request(&config, &access_list, Request::Announce(announce(7))) {
        Routing::Failure(failure) => assert_eq!(failure.failure_reason, "Info hash not allowed"),
        other => panic!("not a failure: {:?}", other),
    }
}

#[test]
fn test_route_scrape_by_worker() {
    let mut config = Config::default();
    config.swarm_workers = 3;
    let access_list = AccessList::new();

    let hashes = vec![InfoHash([5; 20]), InfoHash([3; 20]), InfoHash([2; 20]), InfoHash([6; 20])];
    match route_request(&config, &access_list, Request::Scrape(ScrapeRequest { info_hashes: hashes })) {
        Routing::Scrape(parts) => {
            assert_eq!(parts.len(), 2);
            assert_eq!(parts[0].0, 0);
            assert_eq!(parts[0].1.info_hashes, vec![InfoHash([3; 20]), InfoHash([6; 20])]);
            assert_eq!(parts[1].0, 2);
            assert_eq!(parts[1].1.info_hashes, vec![InfoHash([5; 20]), InfoHash([2; 20])]);
        }
        other => panic!("not a scrape: {:?}", other),
    }
}

#[test]
fn test_merge_scrape_responses() {
    let stats = |n| ScrapeStatistics { complete: n, incomplete: 0, downloaded: 0 };
    let merged = merge_scrape_responses(vec![
        ScrapeResponse { files: vec![(InfoHash([3; 20]), stats(1))] },
        ScrapeResponse { files: vec![] },
        ScrapeResponse { files: vec![(InfoHash([5; 20]), stats(2)), (InfoHash([2; 20]), stats(3))] },
    ]);
    assert_eq!(
        merged.files,
        vec![(InfoHash([2; 20]), stats(3)), (InfoHash([3; 20]), stats(1)), (InfoHash([5; 20]), stats(2))]
    );
}

#[test]
fn test_merge_scrape_responses_later_part_wins() {
    let stats = |n| ScrapeStatistics { complete: n, incomplete: 0, downloaded: 0 };
    let mut high = [0u8; 20];
    high[0] = 1;
    let merged = merge_scrape_responses(vec![
        ScrapeResponse { files: vec![(InfoHash(high), stats(1)), (InfoHash([0; 20]), stats(4))] },
        ScrapeResponse { files: vec![(InfoHash(high), stats(7))] },
    ]);
    assert_eq!(merged.files, vec![(InfoHash([0; 20]), stats(4)), (InfoHash(high), stats(7))]);
}

#[test]
fn test_write_response_framing() {
    let out = write_response(b"d5:abcdee").unwrap();
    assert_eq!(out, b"HTTP/1.1 200 OK\r\nContent-Length: 11      \r\n\r\nd5:abcdee\r\n".to_vec());

    let out = write_response(b"").unwrap();
    assert_eq!(out, b"HTTP/1.1 200 OK\r\nContent-Length: 2       \r\n\r\n\r\n".to_vec());

    let fits = vec![b'x'; 4096 - 45 - 2];
    let out = write_response(&fits).unwrap();
    assert_eq!(out.len(), 4096);
    assert!(out.starts_with(b"HTTP/1.1 200 OK\r\nContent-Length: 4051    \r\n\r\n"));

    assert_eq!(write_response(&vec![b'x'; 4096 - 45 - 1]), Err(ConnectionError::ResponseBufferFull));
    assert!(matches!(write_response(&vec![b'x'; 4096 - 44]), Err(ConnectionError::ResponseBufferWrite(_))));
}

#[test]
fn test_peer_addr_ip_version_str() {
    let v4 = CanonicalSocketAddr::new(SocketAddr::V4(SocketAddrV4 { ip: 1, port: 1 }));
    let v6 = CanonicalSocketAddr::new(SocketAddr::V6(SocketAddrV6 { ip: 1, port: 1, flowinfo: 0, scope_id: 0 }));
    // An IPv4-mapped IPv6 address is an IPv4 address
    let mapped = CanonicalSocketAddr::new(SocketAddr::V6(SocketAddrV6 { ip: 0xffff_0102_0304, port: 1, flowinfo: 0, scope_id: 0 }));

    assert_eq!(peer_addr_to_ip_version_str(&v4), "4");
    assert_eq!(peer_addr_to_ip_version_str(&v6), "6");
    assert_eq!(peer_addr_to_ip_version_str(&mapped), "4");
}

#[test]
fn test_announce_event_from_str() {
    assert_eq!("started".parse::<AnnounceEvent>(), Ok(AnnounceEvent::Started));
    assert_eq!("stopped".parse::<AnnounceEvent>(), Ok(AnnounceEvent::Stopped));
    assert_eq!("completed".parse::<AnnounceEvent>(), Ok(AnnounceEvent::Completed));
    assert_eq!("empty".parse::<AnnounceEvent>(), Ok(AnnounceEvent::Empty));
    assert_eq!("Started".parse::<AnnounceEvent>(), Err("Unknown value: Started".to_string()));
}
