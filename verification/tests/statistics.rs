use aquatic::decimal::thousands_string;
use aquatic::peer_id::PeerClient;
use aquatic::udp::common::SocketWorkerStatistics;
use aquatic::udp::config::Config;
use aquatic::udp::peer_clients::{process_peer_client_data, PeerClientCounts};
use aquatic::udp::protocol::PeerId;
use aquatic::udp::statistics::sum_socket_statistics;

fn peer_id(prefix: &[u8], last: u8) -> PeerId {
    let mut id = [0u8; 20];
    id[..prefix.len()].copy_from_slice(prefix);
    id[19] = last;
    PeerId(id)
}

#[test]
fn test_thousands_separators() {
    assert_eq!(thousands_string(0), "0");
    assert_eq!(thousands_string(999), "999");
    assert_eq!(thousands_string(1000), "1,000");
    assert_eq!(thousands_string(1234567), "1,234,567");
    assert_eq!(thousands_string(1000001), "1,000,001");
}

#[test]
fn test_sum_socket_statistics() {
    let a = SocketWorkerStatistics {
        requests: 1,
        responses_connect: 2,
        responses_announce: 3,
        responses_scrape: 4,
        responses_error: 5,
        bytes_received: 6,
        bytes_sent: 7,
    };
    let b = SocketWorkerStatistics {
        requests: 10,
        responses_connect: 20,
        responses_announce: 30,
        responses_scrape: 40,
        responses_error: 50,
        bytes_received: 60,
        bytes_sent: 70,
    };
    let total = sum_socket_statistics(&vec![a, b]);
    assert_eq!(
        total,
        SocketWorkerStatistics {
            requests: 11,
            responses_connect: 22,
            responses_announce: 33,
            responses_scrape: 44,
            responses_error: 55,
            bytes_received: 66,
            bytes_sent: 77,
        }
    );
    assert_eq!(sum_socket_statistics(&Vec::new()), SocketWorkerStatistics::default());
}

#[test]
fn test_peer_client_counts() {
    let mut counts = PeerClientCounts::new();

    let deluge_a = peer_id(b"-DE123s-", 1);
    let deluge_b = peer_id(b"-DE123s-", 2);
    let transmission = peer_id(b"-TR0012-", 3);

    // A peer in two torrents is counted once
    counts.peer_added(deluge_a);
    counts.peer_added(deluge_a);
    counts.peer_added(deluge_b);
    counts.peer_added(transmission);

    let clients = counts.client_counts();
    assert_eq!(
        clients,
        vec![
            (PeerClient::Deluge("1.2.3 stable".into()), 2),
            (PeerClient::Transmission("0.12".into()), 1),
        ]
    );

    // Leaving one of its torrents keeps the peer
    counts.peer_removed(deluge_a);
    assert_eq!(counts.client_counts()[0].1, 2);

    counts.peer_removed(deluge_a);
    counts.peer_removed(deluge_b);
    assert_eq!(counts.client_counts(), vec![(PeerClient::Transmission("0.12".into()), 1)]);

    // Removing an unknown peer changes nothing
    counts.peer_removed(deluge_a);
    assert_eq!(counts.client_counts().len(), 1);
}

#[test]
fn test_peer_client_rows() {
    let mut config = Config::default();
    let mut counts = PeerClientCounts::new();
    counts.peer_added(peer_id(b"-TR0012-", 3));

    config.statistics.write_html_to_file = true;
    config.statistics.peer_clients = true;
    assert!(process_peer_client_data(&config));
    assert_eq!(counts.peer_client_rows(&config), vec![("Transmission 0.12".to_string(), "1".to_string())]);

    config.statistics.peer_clients = false;
    assert!(!process_peer_client_data(&config));
    assert!(counts.peer_client_rows(&config).is_empty());
}
