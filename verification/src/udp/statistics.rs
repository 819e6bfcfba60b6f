//! Statistics that the statistics worker collects and shows.

use vstd::prelude::*;

use crate::udp::common::SocketWorkerStatistics;

verus! {

/// Peer counts of the torrents at percentiles of a histogram
#[derive(Clone, Copy, Debug, Default, PartialEq, Eq, Structural)]
pub struct PeerHistogramStatistics {
    pub min: u64,
    pub p10: u64,
    pub p20: u64,
    pub p30: u64,
    pub p40: u64,
    pub p50: u64,
    pub p60: u64,
    pub p70: u64,
    pub p80: u64,
    pub p90: u64,
    pub p95: u64,
    pub p99: u64,
    pub p999: u64,
    pub max: u64,
}

/// The statistics of one IP version as shown, each number formatted
#[derive(Clone, Debug)]
pub struct CollectedStatistics {
    pub requests_per_second: String,
    pub responses_per_second_total: String,
    pub responses_per_second_connect: String,
    pub responses_per_second_announce: String,
    pub responses_per_second_scrape: String,
    pub responses_per_second_error: String,
    pub rx_mbits: String,
    pub tx_mbits: String,
    pub num_torrents: String,
    pub num_peers: String,
    pub peer_histogram: PeerHistogramStatistics,
}

/// The sum of one counter over the socket workers
pub open spec fn total_of(s: Seq<SocketWorkerStatistics>, f: spec_fn(SocketWorkerStatistics) -> usize) -> int
    decreases s.len(),
{
    if s.len() == 0 {
        0
    } else {
        total_of(s.drop_last(), f) + f(s.last()) as int
    }
}

pub open spec fn requests_of() -> spec_fn(SocketWorkerStatistics) -> usize {
    |s: SocketWorkerStatistics| s.requests
}

pub open spec fn responses_connect_of() -> spec_fn(SocketWorkerStatistics) -> usize {
    |s: SocketWorkerStatistics| s.responses_connect
}

pub open spec fn responses_announce_of() -> spec_fn(SocketWorkerStatistics) -> usize {
    |s: SocketWorkerStatistics| s.responses_announce
}

pub open spec fn responses_scrape_of() -> spec_fn(SocketWorkerStatistics) -> usize {
    |s: SocketWorkerStatistics| s.responses_scrape
}

pub open spec fn responses_error_of() -> spec_fn(SocketWorkerStatistics) -> usize {
    |s: SocketWorkerStatistics| s.responses_error
}

pub open spec fn bytes_received_of() -> spec_fn(SocketWorkerStatistics) -> usize {
    |s: SocketWorkerStatistics| s.bytes_received
}

pub open spec fn bytes_sent_of() -> spec_fn(SocketWorkerStatistics) -> usize {
    |s: SocketWorkerStatistics| s.bytes_sent
}

/// Each counter summed over the socket workers, as a count of the same kind
pub open spec fn totals(s: Seq<SocketWorkerStatistics>) -> SocketWorkerStatistics {
    SocketWorkerStatistics {
        requests: total_of(s, requests_of()) as usize,
        responses_connect: total_of(s, responses_connect_of()) as usize,
        responses_announce: total_of(s, responses_announce_of()) as usize,
        responses_scrape: total_of(s, responses_scrape_of()) as usize,
        responses_error: total_of(s, responses_error_of()) as usize,
        bytes_received: total_of(s, bytes_received_of()) as usize,
        bytes_sent: total_of(s, bytes_sent_of()) as usize,
    }
}

/// Every counter's sum fits in a `usize`
pub open spec fn totals_fit(s: Seq<SocketWorkerStatistics>) -> bool {
    &&& total_of(s, requests_of()) <= usize::MAX
    &&& total_of(s, responses_connect_of()) <= usize::MAX
    &&& total_of(s, responses_announce_of()) <= usize::MAX
    &&& total_of(s, responses_scrape_of()) <= usize::MAX
    &&& total_of(s, responses_error_of()) <= usize::MAX
    &&& total_of(s, bytes_received_of()) <= usize::MAX
    &&& total_of(s, bytes_sent_of()) <= usize::MAX
}

proof fn lemma_total_prefix(s: Seq<SocketWorkerStatistics>, f: spec_fn(SocketWorkerStatistics) -> usize, i: int)
    requires
        0 <= i <= s.len(),
    ensures
        0 <= total_of(s.take(i), f) <= total_of(s, f),
    decreases s.len(),
{
    if s.len() > 0 {
        if i == s.len() {
            assert(s.take(i) =~= s);
            lemma_total_prefix(s.drop_last(), f, i - 1);
            assert(s.drop_last().take(i - 1) =~= s.drop_last());
        } else {
            lemma_total_prefix(s.drop_last(), f, i);
            assert(s.drop_last().take(i) =~= s.take(i));
        }
    }
}

proof fn lemma_totals_prefix(s: Seq<SocketWorkerStatistics>, i: int)
    requires
        0 <= i <= s.len(),
    ensures
        0 <= total_of(s.take(i), requests_of()) <= total_of(s, requests_of()),
        0 <= total_of(s.take(i), responses_connect_of()) <= total_of(s, responses_connect_of()),
        0 <= total_of(s.take(i), responses_announce_of()) <= total_of(s, responses_announce_of()),
        0 <= total_of(s.take(i), responses_scrape_of()) <= total_of(s, responses_scrape_of()),
        0 <= total_of(s.take(i), responses_error_of()) <= total_of(s, responses_error_of()),
        0 <= total_of(s.take(i), bytes_received_of()) <= total_of(s, bytes_received_of()),
        0 <= total_of(s.take(i), bytes_sent_of()) <= total_of(s, bytes_sent_of()),
{
    lemma_total_prefix(s, requests_of(), i);
    lemma_total_prefix(s, responses_connect_of(), i);
    lemma_total_prefix(s, responses_announce_of(), i);
    lemma_total_prefix(s, responses_scrape_of(), i);
    lemma_total_prefix(s, responses_error_of(), i);
    lemma_total_prefix(s, bytes_received_of(), i);
    lemma_total_prefix(s, bytes_sent_of(), i);
}

/// The counters of all socket workers for one IP version, summed
pub fn sum_socket_statistics(statistics: &Vec<SocketWorkerStatistics>) -> (r: SocketWorkerStatistics)
    requires
        totals_fit(statistics@),
    ensures
        r == totals(statistics@),
{
    let ghost s = statistics@;
    let mut r = SocketWorkerStatistics {
        requests: 0,
        responses_connect: 0,
        responses_announce: 0,
        responses_scrape: 0,
        responses_error: 0,
        bytes_received: 0,
        bytes_sent: 0,
    };
    let mut i: usize = 0;
    while i < statistics.len()
        invariant
            s == statistics@,
            totals_fit(s),
            0 <= i <= s.len(),
            r == totals(s.take(i as int)),
            totals_fit(s.take(i as int)),
        decreases s.len() - i,
    {
        let x = statistics[i];
        proof {
            let t = s.take(i + 1);
            assert(t.drop_last() =~= s.take(i as int));
            assert(t.last() == x);
            lemma_totals_prefix(s, i as int);
            lemma_totals_prefix(s, i + 1);
        }
        r = SocketWorkerStatistics {
            requests: r.requests + x.requests,
            responses_connect: r.responses_connect + x.responses_connect,
            responses_announce: r.responses_announce + x.responses_announce,
            responses_scrape: r.responses_scrape + x.responses_scrape,
            responses_error: r.responses_error + x.responses_error,
            bytes_received: r.bytes_received + x.bytes_received,
            bytes_sent: r.bytes_sent + x.bytes_sent,
        };
        i = i + 1;
    }
    proof {
        assert(s.take(i as int) =~= s);
    }
    r
}

} // verus!
