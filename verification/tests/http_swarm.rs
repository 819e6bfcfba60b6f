use aquatic::common::access_list::{AccessList, AccessListMode};
use aquatic::common::{CanonicalSocketAddr, SecondsSinceServerStart, SocketAddr, SocketAddrV4, SocketAddrV6, ValidUntil};
use aquatic::http::config::Config;
use aquatic::http::swarm::{PeerStatus, TorrentMaps};
use aquatic::http_protocol::common::{AnnounceEvent, InfoHash, PeerId};
use aquatic::http_protocol::request::{AnnounceRequest, ScrapeRequest};
use aquatic::http_protocol::response::ResponsePeer;
use rand::rngs::SmallRng;
use rand::SeedableRng;

fn v4(ip: u32, port: u16) -> CanonicalSocketAddr {
    CanonicalSocketAddr::new(SocketAddr::V4(SocketAddrV4 { ip, port }))
}

fn v6(ip: u128, port: u16) -> CanonicalSocketAddr {
    CanonicalSocketAddr::new(SocketAddr::V6(SocketAddrV6 { ip, port, flowinfo: 0, scope_id: 0 }))
}

fn request(info_hash: u8, port: u16, bytes_left: usize, event: AnnounceEvent, numwant: Option<usize>) -> AnnounceRequest {
    AnnounceRequest {
        info_hash: InfoHash([info_hash; 20]),
        peer_id: PeerId([port as u8; 20]),
        port,
        bytes_uploaded: 0,
        bytes_downloaded: 0,
        bytes_left,
        event,
        numwant,
        key: None,
    }
}

fn valid_until(secs: u32) -> ValidUntil {
    ValidUntil::new_with_now(SecondsSinceServerStart(0), secs)
}

#[test]
fn test_http_peer_status_from_event_and_bytes_left() {
    let f = PeerStatus::from_event_and_bytes_left;

    assert_eq!(PeerStatus::Stopped, f(AnnounceEvent::Stopped, 0));
    assert_eq!(PeerStatus::Stopped, f(AnnounceEvent::Stopped, 1));
    assert_eq!(PeerStatus::Seeding, f(AnnounceEvent::Started, 0));
    assert_eq!(PeerStatus::Leeching, f(AnnounceEvent::Started, 1));
    assert_eq!(PeerStatus::Seeding, f(AnnounceEvent::Completed, 0));
    assert_eq!(PeerStatus::Leeching, f(AnnounceEvent::Completed, 1));
    assert_eq!(PeerStatus::Seeding, f(AnnounceEvent::Empty, 0));
    assert_eq!(PeerStatus::Leeching, f(AnnounceEvent::Empty, 1));
}

#[test]
fn test_http_announce_excludes_announcer_and_counts_others() {
    let config = Config::default();
    let mut rng = SmallRng::seed_from_u64(0);
    let mut torrents = TorrentMaps::new(0);

    let r1 = torrents.handle_announce_request(&config, &mut rng, valid_until(100), v4(1, 1000), request(1, 1000, 0, AnnounceEvent::Started, None));
    assert_eq!((r1.complete, r1.incomplete), (0, 0));
    assert!(r1.peers.0.is_empty());
    assert!(r1.peers6.0.is_empty());
    assert_eq!(r1.announce_interval, 120);
    assert!(r1.warning_message.is_none());

    let r2 = torrents.handle_announce_request(&config, &mut rng, valid_until(100), v4(2, 2000), request(1, 2000, 10, AnnounceEvent::Started, None));
    assert_eq!((r2.complete, r2.incomplete), (1, 0));
    assert_eq!(r2.peers.0, vec![ResponsePeer { ip_address: 1u32, port: 1000 }]);

    // Announcing again does not count the peer twice
    let r3 = torrents.handle_announce_request(&config, &mut rng, valid_until(100), v4(2, 2000), request(1, 2000, 0, AnnounceEvent::Empty, None));
    assert_eq!((r3.complete, r3.incomplete), (1, 0));

    let scrape = torrents.handle_scrape_request(&config, v4(3, 3000), ScrapeRequest { info_hashes: vec![InfoHash([1; 20]), InfoHash([2; 20]), InfoHash([1; 20])] });
    assert_eq!(scrape.files.len(), 2);
    assert_eq!(scrape.files[0].0, InfoHash([1; 20]));
    assert_eq!((scrape.files[0].1.complete, scrape.files[0].1.incomplete, scrape.files[0].1.downloaded), (2, 0, 0));
    assert_eq!(scrape.files[1].0, InfoHash([2; 20]));
    assert_eq!((scrape.files[1].1.complete, scrape.files[1].1.incomplete), (0, 0));

    // IPv6 torrents are kept apart
    let scrape6 = torrents.handle_scrape_request(&config, v6(7, 3000), ScrapeRequest { info_hashes: vec![InfoHash([1; 20])] });
    assert_eq!((scrape6.files[0].1.complete, scrape6.files[0].1.incomplete), (0, 0));
    let r6 = torrents.handle_announce_request(&config, &mut rng, valid_until(100), v6(7, 7000), request(1, 7000, 5, AnnounceEvent::Started, None));
    assert_eq!((r6.complete, r6.incomplete), (0, 0));
    assert!(r6.peers.0.is_empty());
}

#[test]
fn test_http_announce_numwant_and_large_map() {
    let config = Config::default();
    let mut rng = SmallRng::seed_from_u64(1);
    let mut torrents = TorrentMaps::new(0);

    for i in 0..10u16 {
        let r = torrents.handle_announce_request(&config, &mut rng, valid_until(100), v4(i as u32 + 1, 1000 + i), request(9, 1000 + i, 1, AnnounceEvent::Started, None));
        assert_eq!(r.incomplete, i as usize);
        assert_eq!(r.peers.0.len(), i as usize);
    }

    let r = torrents.handle_announce_request(&config, &mut rng, valid_until(100), v4(100, 100), request(9, 100, 1, AnnounceEvent::Started, Some(4)));
    assert_eq!(r.incomplete, 10);
    assert_eq!(r.peers.0.len(), 4);
    assert!(r.peers.0.iter().all(|p| p.ip_address != 100));

    // Asking for none asks for the maximum
    let r = torrents.handle_announce_request(&config, &mut rng, valid_until(100), v4(101, 101), request(9, 101, 1, AnnounceEvent::Started, Some(0)));
    assert_eq!(r.peers.0.len(), 11);

    // Stopping takes the peer out
    let r = torrents.handle_announce_request(&config, &mut rng, valid_until(100), v4(101, 101), request(9, 101, 1, AnnounceEvent::Stopped, None));
    assert_eq!(r.incomplete, 11);
    let scrape = torrents.handle_scrape_request(&config, v4(3, 3000), ScrapeRequest { info_hashes: vec![InfoHash([9; 20])] });
    assert_eq!(scrape.files[0].1.incomplete, 11);
}

#[test]
fn test_http_scrape_takes_at_most_max_scrape_torrents() {
    let mut config = Config::default();
    config.protocol.max_scrape_torrents = 2;
    let torrents = TorrentMaps::new(0);
    let scrape = torrents.handle_scrape_request(&config, v4(3, 3000), ScrapeRequest { info_hashes: vec![InfoHash([1; 20]), InfoHash([2; 20]), InfoHash([3; 20])] });
    assert_eq!(scrape.files.len(), 2);
}

#[test]
fn test_http_scrape_files_in_order_of_info_hash() {
    let config = Config::default();
    let torrents = TorrentMaps::new(0);
    let mut a = [9u8; 20];
    a[19] = 0;
    let scrape = torrents.handle_scrape_request(&config, v4(3, 3000), ScrapeRequest { info_hashes: vec![InfoHash([9; 20]), InfoHash([1; 20]), InfoHash(a), InfoHash([1; 20])] });
    let order: Vec<InfoHash> = scrape.files.iter().map(|f| f.0).collect();
    assert_eq!(order, vec![InfoHash([1; 20]), InfoHash(a), InfoHash([9; 20])]);
}

#[test]
fn test_http_clean_removes_expired_and_forbidden_torrents() {
    let config = Config::default();
    let mut rng = SmallRng::seed_from_u64(2);
    let mut torrents = TorrentMaps::new(0);
    torrents.handle_announce_request(&config, &mut rng, valid_until(10), v4(1, 1), request(1, 1, 0, AnnounceEvent::Started, None));
    torrents.handle_announce_request(&config, &mut rng, valid_until(100), v4(2, 2), request(2, 2, 0, AnnounceEvent::Started, None));
    torrents.handle_announce_request(&config, &mut rng, valid_until(10), v4(3, 3), request(2, 3, 5, AnnounceEvent::Started, None));

    let access_list = AccessList::new();
    torrents.clean_at(&config, &access_list, SecondsSinceServerStart(50));

    let scrape = torrents.handle_scrape_request(&config, v4(3, 3000), ScrapeRequest { info_hashes: vec![InfoHash([1; 20]), InfoHash([2; 20])] });
    assert_eq!((scrape.files[0].1.complete, scrape.files[0].1.incomplete), (0, 0));
    assert_eq!((scrape.files[1].1.complete, scrape.files[1].1.incomplete), (1, 0));

    let mut config = Config::default();
    config.access_list.mode = AccessListMode::Allow;
    torrents.clean_at(&config, &access_list, SecondsSinceServerStart(50));
    let scrape = torrents.handle_scrape_request(&config, v4(3, 3000), ScrapeRequest { info_hashes: vec![InfoHash([2; 20])] });
    assert_eq!((scrape.files[0].1.complete, scrape.files[0].1.incomplete), (0, 0));
}

#[test]
fn test_valid_until_saturates() {
    assert_eq!(ValidUntil::new_with_now_saturating(SecondsSinceServerStart(10), 5), ValidUntil(SecondsSinceServerStart(15)));
    assert_eq!(
        ValidUntil::new_with_now_saturating(SecondsSinceServerStart(u32::MAX - 1), 5),
        ValidUntil(SecondsSinceServerStart(u32::MAX))
    );
}
