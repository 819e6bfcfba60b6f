use std::collections::BTreeMap;

use aquatic::common::{SecondsSinceServerStart, ValidUntil};
use aquatic::udp::config::Config;
use aquatic::udp::pending_scrape::{PendingScrapeResponse, PendingScrapeResponseSlab};
use aquatic::udp::protocol::{
    ConnectionId, InfoHash, NumberOfDownloads, NumberOfPeers, ScrapeRequest, TorrentScrapeStatistics, TransactionId,
};

/// Splits each request, answers every part, and checks that each request
/// is answered once, with the statistics of its info hashes in order, and
/// that nothing is left waiting.
fn check_pending_scrape_response_slab(request_data: &[(i32, i64, u8)], swarm_workers: u8) {
    let mut config = Config::default();
    config.swarm_workers = swarm_workers as usize;

    let valid_until = ValidUntil::new_with_now(SecondsSinceServerStart(0), 1);

    let mut map = PendingScrapeResponseSlab::default();

    let mut requests = Vec::new();

    for &(t, c, b) in request_data {
        let mut info_hashes = Vec::new();

        for i in 0..b {
            info_hashes.push(InfoHash([i; 20]));
        }

        requests.push(ScrapeRequest { transaction_id: TransactionId(t), connection_id: ConnectionId(c), info_hashes });
    }

    let mut all_split_requests = Vec::new();

    for request in requests.iter() {
        all_split_requests.push(map.prepare_split_requests(&config, request.clone(), valid_until));
    }

    assert_eq!(map.len(), requests.len());

    let mut responses = Vec::new();

    for split_requests in all_split_requests {
        for (worker_index, split_request) in split_requests {
            assert!(worker_index.0 < swarm_workers as usize);

            let torrent_stats: BTreeMap<usize, TorrentScrapeStatistics> = split_request
                .info_hashes
                .into_iter()
                .map(|(i, info_hash)| {
                    (
                        i,
                        TorrentScrapeStatistics {
                            seeders: NumberOfPeers(info_hash.0[0] as i32),
                            leechers: NumberOfPeers(0),
                            completed: NumberOfDownloads(0),
                        },
                    )
                })
                .collect();

            let response = PendingScrapeResponse { slab_key: split_request.slab_key, torrent_stats };

            if let Some(response) = map.add_and_get_finished(&response) {
                responses.push(response);
            }
        }
    }

    assert_eq!(map.len(), 0);
    assert_eq!(responses.len(), requests.len());

    for (response, request) in responses.iter().zip(requests.iter()) {
        assert_eq!(response.transaction_id, request.transaction_id);
        let seeders: Vec<i32> = response.torrent_stats.iter().map(|s| s.seeders.0).collect();
        let expected: Vec<i32> = request.info_hashes.iter().map(|h| h.0[0] as i32).collect();
        assert_eq!(seeders, expected);
    }
}

#[test]
fn test_pending_scrape_response_slab() {
    let request_data = [(1, 10, 3), (-2, 20, 7), (3, -30, 1), (4, 40, 255)];

    for swarm_workers in [1u8, 2, 3, 7, 255] {
        check_pending_scrape_response_slab(&request_data, swarm_workers);
    }
}
