//! What a connection does with a request besides I/O: which swarm worker
//! gets an announce, how a scrape is split among the swarm workers and put
//! together again, and the bytes of an HTTP response.

use vstd::prelude::*;

use vstd::string::StringSliceAdditionalSpecFns;

use crate::common::access_list::{allows_spec, AccessList};
use crate::decimal::{decimal, push_decimal};
use crate::http::common::{calculate_request_consumer_index, ConnectionError};
use crate::http::config::Config;
use crate::http_protocol::common::InfoHash;
use crate::http_protocol::request::{AnnounceRequest, Request, ScrapeRequest};
use crate::http_protocol::response::{FailureResponse, ScrapeResponse, ScrapeStatistics};
use crate::http_protocol::scrape_files::{files_map, files_sorted, insert_file};

verus! {

pub const REQUEST_BUFFER_SIZE: usize = 2048;

pub const RESPONSE_BUFFER_SIZE: usize = 4096;

/// Length of the response header: status line, content length field with
/// eight places for the length, and the blank line
pub const RESPONSE_HEADER_LEN: usize = 45;

// ---------------------------------------------------------------------
// Routing

/// Where a request goes
#[derive(Debug, Clone, PartialEq, Eq)]
pub enum Routing {
    /// To the swarm worker of the info hash
    Announce { consumer_index: usize, request: AnnounceRequest },
    /// A part to each swarm worker that holds some of the info hashes, by
    /// increasing worker index
    Scrape(Vec<(usize, ScrapeRequest)>),
    /// Nowhere: answered at once
    Failure(FailureResponse),
}

/// The swarm worker of an info hash
pub open spec fn consumer_of(swarm_workers: usize, info_hash: InfoHash) -> int {
    ((info_hash.0[0] as usize) % swarm_workers) as int
}

/// The info hashes that go to worker `w`, in order
pub open spec fn hashes_for(hashes: Seq<InfoHash>, swarm_workers: usize, w: int) -> Seq<InfoHash>
    decreases hashes.len(),
{
    if hashes.len() == 0 {
        hashes
    } else if consumer_of(swarm_workers, hashes.last()) == w {
        hashes_for(hashes.drop_last(), swarm_workers, w).push(hashes.last())
    } else {
        hashes_for(hashes.drop_last(), swarm_workers, w)
    }
}

/// The parts of a scrape for the workers below `k`: for each worker that
/// gets some of the info hashes, those info hashes
pub open spec fn scrape_parts(hashes: Seq<InfoHash>, swarm_workers: usize, k: int) -> Seq<(usize, Seq<InfoHash>)>
    decreases k,
{
    if k <= 0 {
        Seq::empty()
    } else if hashes_for(hashes, swarm_workers, k - 1).len() > 0 {
        scrape_parts(hashes, swarm_workers, k - 1).push(((k - 1) as usize, hashes_for(hashes, swarm_workers, k - 1)))
    } else {
        scrape_parts(hashes, swarm_workers, k - 1)
    }
}

/// The parts as scrape requests, viewed as their info hashes
pub open spec fn parts_view(parts: Seq<(usize, ScrapeRequest)>) -> Seq<(usize, Seq<InfoHash>)> {
    parts.map_values(|p: (usize, ScrapeRequest)| (p.0, p.1.info_hashes@))
}

/// The info hashes of `hashes` that go to worker `w`
fn hashes_for_worker(config: &Config, hashes: &Vec<InfoHash>, w: usize) -> (r: Vec<InfoHash>)
    requires
        config.swarm_workers > 0,
    ensures
        r@ == hashes_for(hashes@, config.swarm_workers, w as int),
{
    let mut r: Vec<InfoHash> = Vec::new();
    let mut i: usize = 0;
    while i < hashes.len()
        invariant
            config.swarm_workers > 0,
            0 <= i <= hashes@.len(),
            r@ == hashes_for(hashes@.take(i as int), config.swarm_workers, w as int),
        decreases hashes@.len() - i,
    {
        let h = hashes[i];
        proof {
            assert(hashes@.take(i + 1).drop_last() =~= hashes@.take(i as int));
            assert(hashes@.take(i + 1).last() == h);
        }
        if calculate_request_consumer_index(config, h) == w {
            r.push(h);
        }
        i = i + 1;
    }
    proof {
        assert(hashes@.take(i as int) =~= hashes@);
    }
    r
}

/// Where a request goes: an announce for an info hash that the access list
/// allows to the swarm worker of the info hash, else a failure response; a
/// scrape split among the swarm workers by info hash
pub fn route_request(config: &Config, access_list: &AccessList, request: Request) -> (r: Routing)
    requires
        config.swarm_workers > 0,
    ensures
        match request {
            Request::Announce(announce) => if allows_spec(access_list@, config.access_list.mode, announce.info_hash.0) {
                r == Routing::Announce {
                    consumer_index: consumer_of(config.swarm_workers, announce.info_hash) as usize,
                    request: announce,
                }
            } else {
                (r matches Routing::Failure(f) && f.failure_reason@ == "Info hash not allowed"@)
            },
            Request::Scrape(scrape) => (r matches Routing::Scrape(parts) && parts_view(parts@) == scrape_parts(
                scrape.info_hashes@,
                config.swarm_workers,
                config.swarm_workers as int,
            )),
        },
{
    match request {
        Request::Announce(request) => {
            let info_hash = request.info_hash;
            if access_list.allows(config.access_list.mode, &info_hash.0) {
                let consumer_index = calculate_request_consumer_index(config, info_hash);
                Routing::Announce { consumer_index, request }
            } else {
                Routing::Failure(FailureResponse { failure_reason: String::from_str("Info hash not allowed") })
            }
        },
        Request::Scrape(request) => {
            let hashes = request.info_hashes;
            let mut parts: Vec<(usize, ScrapeRequest)> = Vec::new();
            let mut w: usize = 0;
            while w < config.swarm_workers
                invariant
                    config.swarm_workers > 0,
                    0 <= w <= config.swarm_workers,
                    parts_view(parts@) == scrape_parts(hashes@, config.swarm_workers, w as int),
                decreases config.swarm_workers - w,
            {
                let part = hashes_for_worker(config, &hashes, w);
                let ghost before = parts@;
                if part.len() > 0 {
                    parts.push((w, ScrapeRequest { info_hashes: part }));
                    proof {
                        assert(parts_view(parts@) =~= parts_view(before).push((w, hashes_for(hashes@, config.swarm_workers, w as int))));
                    }
                }
                w = w + 1;
            }
            Routing::Scrape(parts)
        },
    }
}

/// The files of the partial scrape responses, one after the other
pub open spec fn merged_files(parts: Seq<ScrapeResponse>) -> Seq<(InfoHash, ScrapeStatistics)>
    decreases parts.len(),
{
    if parts.len() == 0 {
        Seq::empty()
    } else {
        merged_files(parts.drop_last()) + parts.last().files@
    }
}

/// The statistics of each info hash of the files, the later of two files of
/// one info hash winning
pub open spec fn statistics_of_files(s: Seq<(InfoHash, ScrapeStatistics)>) -> Map<InfoHash, ScrapeStatistics>
    decreases s.len(),
{
    if s.len() == 0 {
        Map::empty()
    } else {
        statistics_of_files(s.drop_last()).insert(s.last().0, s.last().1)
    }
}

/// The scrape response of the partial responses of the swarm workers: the
/// files of all of them, in order of info hash, a later part winning over
/// an earlier one for an info hash in both
pub fn merge_scrape_responses(parts: Vec<ScrapeResponse>) -> (r: ScrapeResponse)
    ensures
        files_sorted(r.files@),
        files_map(r.files@) == statistics_of_files(merged_files(parts@)),
{
    let ghost all = parts@;
    let mut files: Vec<(InfoHash, ScrapeStatistics)> = Vec::new();
    assert(files_map(files@) =~= statistics_of_files(merged_files(all.take(0))));
    let ghost mut done: int = 0;
    for part in it: parts.into_iter()
        invariant
            it.seq() == all,
            done == it.index(),
            0 <= done <= all.len(),
            files_sorted(files@),
            files_map(files@) == statistics_of_files(merged_files(all.take(done))),
    {
        proof {
            assert(all.take(done + 1).drop_last() =~= all.take(done));
            assert(all.take(done + 1).last() == part);
        }
        let ghost prefix = merged_files(all.take(done));
        let ghost part_files = part.files@;
        let mut k: usize = 0;
        while k < part.files.len()
            invariant
                part_files == part.files@,
                0 <= k <= part_files.len(),
                files_sorted(files@),
                files_map(files@) == statistics_of_files(prefix + part_files.take(k as int)),
            decreases part_files.len() - k,
        {
            let (info_hash, stats) = part.files[k];
            insert_file(&mut files, info_hash, stats);
            proof {
                let next = prefix + part_files.take(k + 1);
                assert(next.drop_last() =~= prefix + part_files.take(k as int));
                assert(next.last() == (info_hash, stats));
            }
            k = k + 1;
        }
        proof {
            assert(part_files.take(part_files.len() as int) =~= part_files);
            done = done + 1;
        }
    }
    proof {
        assert(all.take(done) =~= all);
    }
    ScrapeResponse { files }
}

// ---------------------------------------------------------------------
// Response bytes

/// The bytes of ASCII text
pub open spec fn ascii_bytes(s: Seq<char>) -> Seq<u8> {
    s.map_values(|c: char| c as u8)
}

/// The bytes of an HTTP response with the body: status line, content
/// length (the body and its final newline) in a field of eight places, the
/// blank line, the body and a final newline
pub open spec fn framed_response(body: Seq<u8>) -> Seq<u8> {
    let digits = ascii_bytes(decimal((body.len() + 2) as nat));
    ascii_bytes("HTTP/1.1 200 OK\r\nContent-Length: "@) + digits + Seq::new((8 - digits.len()) as nat, |i: int| 32u8)
        + ascii_bytes("\r\n\r\n"@) + body + seq![13u8, 10u8]
}

/// Appends the bytes of an ASCII string literal
fn push_ascii(out: &mut Vec<u8>, s: &str)
    requires
        vstd::string::is_ascii(s),
    ensures
        final(out)@ == old(out)@ + ascii_bytes(s@),
{
    proof {
        vstd::string::is_ascii_spec_bytes(s);
        assert(s.spec_bytes() =~= ascii_bytes(s@));
    }
    let bytes = s.as_bytes();
    let mut i: usize = 0;
    let ghost start = out@;
    while i < bytes.len()
        invariant
            bytes@ == ascii_bytes(s@),
            0 <= i <= bytes@.len(),
            out@ == start + bytes@.take(i as int),
        decreases bytes@.len() - i,
    {
        out.push(bytes[i]);
        assert(bytes@.take(i + 1) =~= bytes@.take(i as int).push(bytes@[i as int]));
        i = i + 1;
    }
    assert(bytes@.take(i as int) =~= bytes@);
}

proof fn lemma_decimal_len(n: nat)
    ensures
        1 <= decimal(n).len(),
        n < 10 ==> decimal(n).len() <= 1,
        n < 100 ==> decimal(n).len() <= 2,
        n < 1000 ==> decimal(n).len() <= 3,
        n < 10000 ==> decimal(n).len() <= 4,
        vstd::utf8::is_ascii_chars(decimal(n)),
    decreases n,
{
    if n >= 10 {
        lemma_decimal_len(n / 10);
        let d = decimal(n / 10);
        assert forall|i: int| 0 <= i < decimal(n).len() implies '\0' <= #[trigger] decimal(n)[i] <= '\u{7f}' by {
            if i < d.len() {
                assert(decimal(n)[i] == d[i]);
            }
        }
    }
}

/// The bytes of an HTTP response with the body, as they fit in the
/// response buffer. A body that does not fit after the header cannot be
/// written; one that fits but leaves no room for the final newline fills
/// the buffer.
pub fn write_response(body: &[u8]) -> (r: Result<Vec<u8>, ConnectionError>)
    ensures
        body@.len() > RESPONSE_BUFFER_SIZE - RESPONSE_HEADER_LEN ==> r matches Err(
            ConnectionError::ResponseBufferWrite(_),
        ),
        RESPONSE_BUFFER_SIZE - RESPONSE_HEADER_LEN - 2 < body@.len() <= RESPONSE_BUFFER_SIZE - RESPONSE_HEADER_LEN
            ==> r == Err::<Vec<u8>, ConnectionError>(ConnectionError::ResponseBufferFull),
        body@.len() <= RESPONSE_BUFFER_SIZE - RESPONSE_HEADER_LEN - 2 ==> (r matches Ok(out) && out@
            == framed_response(body@)),
{
    if body.len() > RESPONSE_BUFFER_SIZE - RESPONSE_HEADER_LEN {
        return Err(ConnectionError::ResponseBufferWrite(String::from_str("failed to write whole buffer")));
    }
    if RESPONSE_HEADER_LEN + body.len() + 2 > RESPONSE_BUFFER_SIZE {
        return Err(ConnectionError::ResponseBufferFull);
    }
    let content_len = body.len() + 2;
    let mut digits = String::new();
    push_decimal(&mut digits, content_len);
    proof {
        lemma_decimal_len(content_len as nat);
        assert(digits@ =~= decimal(content_len as nat));
        reveal_strlit("HTTP/1.1 200 OK\r\nContent-Length: ");
        reveal_strlit("\r\n\r\n");
        reveal_strlit(" ");
    }

    let mut out: Vec<u8> = Vec::new();
    push_ascii(&mut out, "HTTP/1.1 200 OK\r\nContent-Length: ");
    let header_a_len = out.len();
    push_ascii(&mut out, digits.as_str());
    let ghost with_digits = out@;
    let mut pad: usize = out.len() - header_a_len;
    while pad < 8
        invariant
            digits@.len() <= pad <= 8,
            out@ == with_digits + Seq::new((pad - digits@.len()) as nat, |i: int| 32u8),
        decreases 8 - pad,
    {
        out.push(32);
        assert(with_digits + Seq::new((pad + 1 - digits@.len()) as nat, |i: int| 32u8) =~= (with_digits + Seq::new(
            (pad - digits@.len()) as nat,
            |i: int| 32u8,
        )).push(32u8));
        pad = pad + 1;
    }
    push_ascii(&mut out, "\r\n\r\n");
    let mut i: usize = 0;
    let ghost with_header = out@;
    while i < body.len()
        invariant
            0 <= i <= body@.len(),
            out@ == with_header + body@.take(i as int),
        decreases body@.len() - i,
    {
        out.push(body[i]);
        assert(body@.take(i + 1) =~= body@.take(i as int).push(body@[i as int]));
        i = i + 1;
    }
    out.push(13);
    out.push(10);
    proof {
        assert(body@.take(i as int) =~= body@);
        assert(out@ =~= framed_response(body@));
    }
    Ok(out)
}

} // verus!
