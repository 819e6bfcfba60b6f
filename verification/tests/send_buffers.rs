use aquatic::common::{CanonicalSocketAddr, SocketAddr, SocketAddrV4, SocketAddrV6};
use aquatic::udp::common::{IpVersion, IpVersionStatistics};
use aquatic::udp::protocol::{ConnectResponse, ConnectionId, ErrorResponse, Response, ScrapeResponse, TransactionId};
use aquatic::udp::send_buffers::{ResponseType, SendBuffers};

#[test]
fn test_response_type_from_response() {
    let connect = Response::Connect(ConnectResponse { connection_id: ConnectionId(1), transaction_id: TransactionId(2) });
    let scrape = Response::Scrape(ScrapeResponse { transaction_id: TransactionId(2), torrent_stats: vec![] });
    let error = Response::Error(ErrorResponse { transaction_id: TransactionId(2), message: "no".to_string() });
    assert_eq!(ResponseType::from_response(&connect), ResponseType::Connect);
    assert_eq!(ResponseType::from_response(&scrape), ResponseType::Scrape);
    assert_eq!(ResponseType::from_response(&error), ResponseType::Error);
}

#[test]
fn test_send_buffers_claim_and_free() {
    let mut buffers = SendBuffers::new(3);
    assert_eq!(buffers.next_free_index(), Some(0));

    buffers.claim(0, ResponseType::Announce, false);
    assert_eq!(buffers.response_type_and_ipv4(0), (ResponseType::Announce, false));
    assert_eq!(buffers.next_free_index(), Some(1));

    buffers.claim(1, ResponseType::Scrape, true);
    buffers.claim(2, ResponseType::Error, true);
    assert_eq!(buffers.next_free_index(), None);

    // The search starts after the last claimed buffer until it is reset
    buffers.mark_buffer_as_free(1);
    assert_eq!(buffers.next_free_index(), None);
    buffers.reset_likely_next_free_index();
    assert_eq!(buffers.next_free_index(), Some(1));
    // Freeing keeps what the buffer was used for
    assert_eq!(buffers.response_type_and_ipv4(1), (ResponseType::Scrape, true));
}

#[test]
fn test_ip_version_labels_and_statistics() {
    assert_eq!(IpVersion::V4.prometheus_str(), "4");
    assert_eq!(IpVersion::V6.prometheus_str(), "6");
    let stats = IpVersionStatistics { ipv4: 4u32, ipv6: 6u32 };
    assert_eq!(*stats.by_ip_version(IpVersion::V4), 4);
    assert_eq!(*stats.by_ip_version(IpVersion::V6), 6);
}

#[test]
fn test_canonical_addr_get_ipv4() {
    let v4 = CanonicalSocketAddr::new(SocketAddr::V4(SocketAddrV4 { ip: 7, port: 9 }));
    assert_eq!(v4.get_ipv4(), Some(SocketAddr::V4(SocketAddrV4 { ip: 7, port: 9 })));
    let mapped = CanonicalSocketAddr::new(SocketAddr::V6(SocketAddrV6 { ip: 0xffff_0102_0304, port: 1, flowinfo: 0, scope_id: 0 }));
    assert_eq!(mapped.get_ipv4(), Some(SocketAddr::V4(SocketAddrV4 { ip: 0x0102_0304, port: 1 })));
    let v6 = CanonicalSocketAddr::new(SocketAddr::V6(SocketAddrV6 { ip: 1, port: 1, flowinfo: 0, scope_id: 0 }));
    assert_eq!(v6.get_ipv4(), None);
}
