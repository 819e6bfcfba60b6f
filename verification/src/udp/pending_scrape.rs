//! Scrape requests split by swarm worker, and the bookkeeping that joins the
//! workers' partial responses into one response per request.

use vstd::prelude::*;
use vstd::std_specs::btree::increasing_seq;
use vstd::std_specs::iter::IteratorSpec;

use std::collections::BTreeMap;

use slab::Slab;

use crate::common::{SecondsSinceServerStart, ValidUntil};
use crate::ordered::lemma_increasing_keys;
use crate::udp::common::SwarmWorkerIndex;
use crate::udp::config::Config;
use crate::udp::protocol::{InfoHash, ScrapeRequest, ScrapeResponse, TorrentScrapeStatistics, TransactionId};

verus! {

/// The part of a scrape request that one swarm worker answers: the info
/// hashes by their index in the request
pub struct PendingScrapeRequest {
    pub slab_key: usize,
    pub info_hashes: BTreeMap<usize, InfoHash>,
}

/// A swarm worker's answer to a pending scrape request: the statistics by
/// the index of their info hash in the request
pub struct PendingScrapeResponse {
    pub slab_key: usize,
    pub torrent_stats: BTreeMap<usize, TorrentScrapeStatistics>,
}

/// A scrape request waiting for the answers of swarm workers
pub struct PendingScrapeResponseSlabEntry {
    /// Number of swarm workers that have not answered yet
    pub num_pending: usize,
    pub valid_until: ValidUntil,
    /// Statistics received so far, by info hash index
    pub torrent_stats: BTreeMap<usize, TorrentScrapeStatistics>,
    pub transaction_id: TransactionId,
}

#[verifier::external_type_specification]
#[verifier::external_body]
#[verifier::reject_recursive_types(T)]
pub struct ExSlab<T>(Slab<T>);

/// The entries of a slab of pending scrape responses, by key
pub uninterp spec fn pending_entries(s: Slab<PendingScrapeResponseSlabEntry>) -> Map<usize, PendingScrapeResponseSlabEntry>;

/// The key that the slab's next insertion uses
pub uninterp spec fn pending_vacant_key(s: Slab<PendingScrapeResponseSlabEntry>) -> usize;

/// An empty slab (`Slab::new`)
#[verifier::external_body]
fn slab_new() -> (r: Slab<PendingScrapeResponseSlabEntry>)
    ensures
        pending_entries(r).dom() == Set::<usize>::empty(),
{
    Slab::new()
}

/// `Slab::vacant_key`: the key that the next insertion will use, which no
/// entry has
#[verifier::external_body]
fn slab_vacant_key(s: &Slab<PendingScrapeResponseSlabEntry>) -> (r: usize)
    ensures
        r == pending_vacant_key(*s),
        !pending_entries(*s).dom().contains(r),
{
    s.vacant_key()
}

/// `Slab::insert`: stores the entry under the vacant key and returns that
/// key
#[verifier::external_body]
fn slab_insert(s: &mut Slab<PendingScrapeResponseSlabEntry>, entry: PendingScrapeResponseSlabEntry) -> (r: usize)
    ensures
        r == pending_vacant_key(*old(s)),
        pending_entries(*final(s)) == pending_entries(*old(s)).insert(r, entry),
{
    s.insert(entry)
}

/// `Slab::contains`: whether an entry has the key
#[verifier::external_body]
fn slab_contains(s: &Slab<PendingScrapeResponseSlabEntry>, key: usize) -> (r: bool)
    ensures
        r == pending_entries(*s).dom().contains(key),
{
    s.contains(key)
}

/// `Slab::get_mut` of a key that an entry has. What is written through the
/// reference is what the slab holds for the key.
#[verifier::external_body]
fn slab_get_mut(s: &mut Slab<PendingScrapeResponseSlabEntry>, key: usize) -> (r: &mut PendingScrapeResponseSlabEntry)
    requires
        pending_entries(*old(s)).dom().contains(key),
    ensures
        *r == pending_entries(*old(s))[key],
        pending_entries(*final(s)) == pending_entries(*old(s)).insert(key, *final(r)),
{
    s.get_mut(key).unwrap()
}

/// `Slab::remove` of a key that an entry has: takes the entry out
#[verifier::external_body]
fn slab_remove(s: &mut Slab<PendingScrapeResponseSlabEntry>, key: usize) -> (r: PendingScrapeResponseSlabEntry)
    requires
        pending_entries(*old(s)).dom().contains(key),
    ensures
        r == pending_entries(*old(s))[key],
        pending_entries(*final(s)) == pending_entries(*old(s)).remove(key),
{
    s.remove(key)
}

/// `Slab::retain` with the validity of the entries at `now` as the
/// predicate: keeps exactly the entries that are still valid
#[verifier::external_body]
fn slab_retain_valid(s: &mut Slab<PendingScrapeResponseSlabEntry>, now: SecondsSinceServerStart)
    ensures
        pending_entries(*final(s)) == pending_entries(*old(s)).restrict(
            pending_entries(*old(s)).dom().filter(
                |k: usize| pending_entries(*old(s))[k].valid_until.spec_valid(now),
            ),
        ),
{
    s.retain(|_, entry| entry.valid_until.valid(now))
}

/// `Slab::shrink_to_fit`: gives back spare capacity; the entries stay
#[verifier::external_body]
fn slab_shrink_to_fit(s: &mut Slab<PendingScrapeResponseSlabEntry>)
    ensures
        pending_entries(*final(s)) == pending_entries(*old(s)),
{
    s.shrink_to_fit()
}

/// `Slab::len`: the number of entries
#[verifier::external_body]
fn slab_len(s: &Slab<PendingScrapeResponseSlabEntry>) -> (r: usize)
    ensures
        r == pending_entries(*s).len(),
{
    s.len()
}

/// The info hashes of a request that a worker answers, by their index:
/// exactly those that belong to the worker
pub open spec fn split_request_holds(
    swarm_workers: usize,
    info_hashes: Seq<InfoHash>,
    worker: SwarmWorkerIndex,
    part: Map<usize, InfoHash>,
) -> bool {
    &&& forall|i: usize|
        #[trigger] part.contains_key(i) <==> i < info_hashes.len() && SwarmWorkerIndex::spec_from_info_hash(
            swarm_workers,
            info_hashes[i as int],
        ) == worker
    &&& forall|i: usize| #[trigger] part.contains_key(i) ==> part[i] == info_hashes[i as int]
}

/// `values` are the values of `m` in increasing key order
pub open spec fn values_by_key<T>(m: Map<usize, T>, values: Seq<T>) -> bool {
    exists|ks: Seq<usize>| #[trigger] values_at_keys(m, values, ks)
}

/// `values` are the values of `m` at the keys `ks`, which are the keys of
/// `m` in increasing order
pub open spec fn values_at_keys<T>(m: Map<usize, T>, values: Seq<T>, ks: Seq<usize>) -> bool {
    &&& ks.len() == values.len()
    &&& forall|i: int, j: int| 0 <= i < j < ks.len() ==> ks[i] < ks[j]
    &&& forall|k: usize| ks.contains(k) <==> m.contains_key(k)
    &&& forall|i: int| 0 <= i < ks.len() ==> values[i] == m[ks[i]]
}

/// A split request goes to an existing worker and holds some info hash
pub open spec fn split_nonempty(req: (SwarmWorkerIndex, PendingScrapeRequest), swarm_workers: usize) -> bool {
    &&& req.0.0 < swarm_workers
    &&& exists|i: usize| #[trigger] req.1.info_hashes@.contains_key(i)
}

/// The split requests for the info hashes `ihs`: one per worker that holds
/// some of them, each with exactly the worker's info hashes
pub open spec fn split_so_far(
    reqs: Seq<(SwarmWorkerIndex, PendingScrapeRequest)>,
    swarm_workers: usize,
    ihs: Seq<InfoHash>,
    slab_key: usize,
) -> bool {
    &&& forall|j: int| 0 <= j < reqs.len() ==> #[trigger] reqs[j].1.slab_key == slab_key
    &&& forall|j: int| 0 <= j < reqs.len() ==> split_nonempty(#[trigger] reqs[j], swarm_workers)
    &&& forall|j: int, l: int| 0 <= j < l < reqs.len() ==> reqs[j].0 != reqs[l].0
    &&& forall|j: int|
        0 <= j < reqs.len() ==> split_request_holds(
            swarm_workers,
            ihs,
            #[trigger] reqs[j].0,
            reqs[j].1.info_hashes@,
        )
    &&& forall|x: int|
        0 <= x < ihs.len() ==> exists|j: int|
            0 <= j < reqs.len() && reqs[j].0 == SwarmWorkerIndex::spec_from_info_hash(
                swarm_workers,
                #[trigger] ihs[x],
            )
}

/// Adds the info hash with the index to the split request of its worker,
/// adding that request if it is not there yet
fn add_info_hash(
    split_requests: &mut Vec<(SwarmWorkerIndex, PendingScrapeRequest)>,
    config: &Config,
    index: usize,
    info_hash: InfoHash,
    slab_key: usize,
    Ghost(ihs): Ghost<Seq<InfoHash>>,
)
    requires
        config.swarm_workers > 0,
        index == ihs.len(),
        split_so_far(old(split_requests)@, config.swarm_workers, ihs, slab_key),
    ensures
        split_so_far(final(split_requests)@, config.swarm_workers, ihs.push(info_hash), slab_key),
{
    let worker = SwarmWorkerIndex::from_info_hash(config, info_hash);
    let ghost pre = split_requests@;
    let mut j: usize = 0;
    while j < split_requests.len() && split_requests[j].0 != worker
        invariant
            j <= split_requests@.len(),
            forall|l: int| 0 <= l < j ==> split_requests@[l].0 != worker,
        decreases split_requests@.len() - j,
    {
        j = j + 1;
    }
    if j == split_requests.len() {
        split_requests.push((worker, PendingScrapeRequest { slab_key, info_hashes: BTreeMap::new() }));
    }
    let ghost mid = split_requests@;
    split_requests[j].1.info_hashes.insert(index, info_hash);
    proof {
        let t = ihs.push(info_hash);
        let sw = config.swarm_workers;
        assert forall|l: int| 0 <= l < mid.len() implies #[trigger] split_requests@[l].0 == mid[l].0 by {}
        assert forall|l: int| 0 <= l < pre.len() implies #[trigger] mid[l] == pre[l] by {}
        assert forall|l: int| 0 <= l < split_requests@.len() implies split_nonempty(
            #[trigger] split_requests@[l],
            sw,
        ) by {
            if l == j {
                assert(split_requests@[l].1.info_hashes@.contains_key(index));
            } else {
                assert(split_nonempty(pre[l], sw));
                let y = choose|y: usize| #[trigger] pre[l].1.info_hashes@.contains_key(y);
                assert(split_requests@[l].1.info_hashes@.contains_key(y));
            }
        }
        assert forall|l: int|
            0 <= l < split_requests@.len() implies split_request_holds(
                sw,
                t,
                #[trigger] split_requests@[l].0,
                split_requests@[l].1.info_hashes@,
            ) by {
            assert forall|y: usize| #[trigger] split_requests@[l].1.info_hashes@.contains_key(y) <==> y < t.len()
                && SwarmWorkerIndex::spec_from_info_hash(sw, t[y as int]) == split_requests@[l].0 by {
                if y < index {
                    assert(t[y as int] == ihs[y as int]);
                }
            }
            assert forall|y: usize| #[trigger] split_requests@[l].1.info_hashes@.contains_key(y) implies split_requests@[l].1.info_hashes@[y]
                == t[y as int] by {
                if y < index {
                    assert(t[y as int] == ihs[y as int]);
                }
            }
        }
        assert forall|x: int| 0 <= x < t.len() implies exists|l: int|
            0 <= l < split_requests@.len() && split_requests@[l].0 == SwarmWorkerIndex::spec_from_info_hash(
                sw,
                #[trigger] t[x],
            ) by {
            if x < index {
                assert(t[x] == ihs[x]);
                let l0 = choose|l: int|
                    0 <= l < pre.len() && pre[l].0 == SwarmWorkerIndex::spec_from_info_hash(sw, ihs[x]);
                assert(split_requests@[l0].0 == pre[l0].0);
            } else {
                assert(split_requests@[j as int].0 == SwarmWorkerIndex::spec_from_info_hash(sw, t[x]));
            }
        }
    }
}

/// What adding a swarm worker's answer does to the waiting requests `old`,
/// giving `new` and the result `r`: an answer for no waiting request is
/// dropped; the last awaited answer finishes the request, which leaves and
/// is returned with all statistics in order of index; an earlier one is
/// stored and counted
pub open spec fn answer_added(
    old: Map<usize, PendingScrapeResponseSlabEntry>,
    response: PendingScrapeResponse,
    new: Map<usize, PendingScrapeResponseSlabEntry>,
    r: Option<ScrapeResponse>,
) -> bool {
    &&& !old.contains_key(response.slab_key) ==> r is None && new == old
    &&& old.contains_key(response.slab_key) ==> {
        let e = old[response.slab_key];
        let stats = e.torrent_stats@.union_prefer_right(response.torrent_stats@);
        if e.num_pending == 1 {
            &&& new == old.remove(response.slab_key)
            &&& r matches Some(s) && s.transaction_id == e.transaction_id && values_by_key(stats, s.torrent_stats@)
        } else {
            &&& r is None
            &&& new.dom() == old.dom()
            &&& new.remove(response.slab_key) == old.remove(response.slab_key)
            &&& new[response.slab_key].num_pending == e.num_pending - 1
            &&& new[response.slab_key].torrent_stats@ == stats
            &&& new[response.slab_key].valid_until == e.valid_until
            &&& new[response.slab_key].transaction_id == e.transaction_id
        }
    }
}

/// The statistics of the answers taken together, a later answer winning
/// for an index in two of them
pub open spec fn answers_union(answers: Seq<PendingScrapeResponse>) -> Map<usize, TorrentScrapeStatistics>
    decreases answers.len(),
{
    if answers.len() == 0 {
        Map::empty()
    } else {
        answers_union(answers.drop_last()).union_prefer_right(answers.last().torrent_stats@)
    }
}

/// The answers for the waiting request with the key, in order
pub open spec fn answers_for(answers: Seq<PendingScrapeResponse>, key: usize) -> Seq<PendingScrapeResponse>
    decreases answers.len(),
{
    if answers.len() == 0 {
        Seq::empty()
    } else if answers.last().slab_key == key {
        answers_for(answers.drop_last(), key).push(answers.last())
    } else {
        answers_for(answers.drop_last(), key)
    }
}

/// The answer at place `f` is the last one that the request with the key
/// awaits
pub open spec fn finishes(answers: Seq<PendingScrapeResponse>, key: usize, f: int) -> bool {
    &&& 0 <= f < answers.len()
    &&& answers[f].slab_key == key
    &&& answers_for(answers.take(f + 1), key).len() == answers_for(answers, key).len()
}

/// The result is a response with the transaction id and the statistics of
/// `u` in order of index
pub open spec fn answered_with(
    r: Option<ScrapeResponse>,
    transaction_id: TransactionId,
    u: Map<usize, TorrentScrapeStatistics>,
) -> bool {
    &&& r is Some
    &&& r->Some_0.transaction_id == transaction_id
    &&& values_by_key(u, r->Some_0.torrent_stats@)
}

/// Where `u` holds the indices `0..m`, the statistics are one per index,
/// the statistic of each index at its place
pub open spec fn in_index_order(
    stats: Seq<TorrentScrapeStatistics>,
    u: Map<usize, TorrentScrapeStatistics>,
    m: nat,
) -> bool {
    u.dom() == Set::new(|k: usize| k < m) ==> stats.len() == m && forall|k: int|
        0 <= k < m ==> stats[k] == u[k as usize]
}

proof fn lemma_answers_for_step(answers: Seq<PendingScrapeResponse>, key: usize, j: int)
    requires
        0 <= j < answers.len(),
    ensures
        answers_for(answers.take(j + 1), key) == if answers[j].slab_key == key {
            answers_for(answers.take(j), key).push(answers[j])
        } else {
            answers_for(answers.take(j), key)
        },
{
    assert(answers.take(j + 1).drop_last() =~= answers.take(j));
    assert(answers.take(j + 1).last() == answers[j]);
}

proof fn lemma_answers_for_prefix(answers: Seq<PendingScrapeResponse>, key: usize, j: int, k: int)
    requires
        0 <= j <= k <= answers.len(),
    ensures
        answers_for(answers.take(j), key).len() <= answers_for(answers.take(k), key).len(),
        answers_for(answers.take(k), key).take(answers_for(answers.take(j), key).len() as int) == answers_for(
            answers.take(j),
            key,
        ),
    decreases k - j,
{
    if j < k {
        lemma_answers_for_prefix(answers, key, j, k - 1);
        lemma_answers_for_step(answers, key, k - 1);
        let a = answers_for(answers.take(j), key);
        let b = answers_for(answers.take(k - 1), key);
        assert(b.take(a.len() as int) == a);
        if answers[k - 1].slab_key == key {
            assert(b.push(answers[k - 1]).take(a.len() as int) =~= b.take(a.len() as int));
        }
    } else {
        let a = answers_for(answers.take(j), key);
        assert(a.take(a.len() as int) =~= a);
    }
}

proof fn lemma_answers_for_len(answers: Seq<PendingScrapeResponse>, key: usize, j: int, k: int)
    requires
        0 <= j <= k <= answers.len(),
    ensures
        answers_for(answers.take(j), key).len() <= answers_for(answers.take(k), key).len(),
    decreases k - j,
{
    if j < k {
        lemma_answers_for_len(answers, key, j, k - 1);
        lemma_answers_for_step(answers, key, k - 1);
    }
}

/// What the waiting requests hold for the key after the first `j` answers
/// of a run of answers `answers` taken one by one
proof fn lemma_answers_state(
    views: Seq<Map<usize, PendingScrapeResponseSlabEntry>>,
    answers: Seq<PendingScrapeResponse>,
    results: Seq<Option<ScrapeResponse>>,
    key: usize,
    j: int,
)
    requires
        0 <= j <= answers.len(),
        views.len() == answers.len() + 1,
        results.len() == answers.len(),
        views[0].contains_key(key),
        answers_for(answers, key).len() > 0,
        views[0][key].num_pending == answers_for(answers, key).len(),
        views[0][key].torrent_stats@ == Map::<usize, TorrentScrapeStatistics>::empty(),
        forall|i: int| 0 <= i < answers.len() ==> answer_added(views[i], answers[i], views[i + 1], results[i]),
    ensures
        answers_for(answers.take(j), key).len() <= answers_for(answers, key).len(),
        answers_for(answers.take(j), key).len() < answers_for(answers, key).len() ==> {
            &&& views[j].contains_key(key)
            &&& views[j][key].num_pending == answers_for(answers, key).len() - answers_for(
                answers.take(j),
                key,
            ).len()
            &&& views[j][key].torrent_stats@ == answers_union(answers_for(answers.take(j), key))
            &&& views[j][key].transaction_id == views[0][key].transaction_id
        },
        answers_for(answers.take(j), key).len() == answers_for(answers, key).len() ==> {
            &&& !views[j].contains_key(key)
            &&& exists|f: int|
                f < j && #[trigger] finishes(answers, key, f) && answered_with(
                    results[f],
                    views[0][key].transaction_id,
                    answers_union(answers_for(answers, key)),
                )
        },
        forall|i: int|
            0 <= i < j && answers[i].slab_key == key && !finishes(answers, key, i) ==> (#[trigger] results[i]) is None,
    decreases j,
{
    let total = answers_for(answers, key).len();
    assert(answers.take(answers.len() as int) =~= answers);
    lemma_answers_for_len(answers, key, j, answers.len() as int);
    if j == 0 {
        assert(answers.take(0) =~= Seq::<PendingScrapeResponse>::empty());
        assert(answers_for(answers.take(0), key) =~= Seq::<PendingScrapeResponse>::empty());
    } else {
        let i = j - 1;
        lemma_answers_state(views, answers, results, key, i);
        lemma_answers_for_step(answers, key, i);
        let c0 = answers_for(answers.take(i), key).len();
        let before = answers_for(answers.take(i), key);
        if c0 < total {
            if answers[i].slab_key == key {
                let e = views[i][key];
                assert(answers_union(before.push(answers[i])) == answers_union(before).union_prefer_right(
                    answers[i].torrent_stats@,
                )) by {
                    assert(before.push(answers[i]).drop_last() =~= before);
                }
                if c0 + 1 == total {
                    assert(finishes(answers, key, i));
                    assert(e.num_pending == 1);
                    lemma_answers_for_prefix(answers, key, j, answers.len() as int);
                    assert(answers_for(answers, key) =~= before.push(answers[i]));
                } else {
                    assert forall|x: int|
                        0 <= x < j && answers[x].slab_key == key && !finishes(answers, key, x) implies (
                        #[trigger] results[x]) is None by {
                        if x == i {
                        }
                    }
                }
            } else {
                assert(views[j].contains_key(key) && views[j][key] == views[i][key]) by {
                    if views[i].contains_key(answers[i].slab_key) {
                        let e2 = views[i][answers[i].slab_key];
                        if e2.num_pending == 1 {
                            assert(views[j] == views[i].remove(answers[i].slab_key));
                        } else {
                            assert(views[j].remove(answers[i].slab_key).contains_key(key));
                            assert(views[j].remove(answers[i].slab_key)[key] == views[i].remove(
                                answers[i].slab_key,
                            )[key]);
                        }
                    }
                }
            }
        } else {
            assert(c0 == total);
            if answers[i].slab_key == key {
                assert(answers_for(answers.take(j), key).len() == total + 1);
                assert(false);
            }
            assert(!views[j].contains_key(key)) by {
                if views[i].contains_key(answers[i].slab_key) {
                    let e2 = views[i][answers[i].slab_key];
                    if e2.num_pending == 1 {
                        assert(views[j] == views[i].remove(answers[i].slab_key));
                    } else {
                        assert(views[j].dom() == views[i].dom());
                    }
                }
            }
        }
    }
}

proof fn lemma_increasing_covering(ks: Seq<usize>, m: nat, i: int)
    requires
        forall|a: int, b: int| 0 <= a < b < ks.len() ==> ks[a] < ks[b],
        forall|k: usize| ks.contains(k) <==> k < m,
        0 <= i < ks.len(),
    ensures
        ks[i] == i,
    decreases i,
{
    if i > 0 {
        lemma_increasing_covering(ks, m, i - 1);
    }
    assert(ks.contains(ks[i]));
    if ks[i] > i {
        let v = i as usize;
        assert(v < m);
        assert(ks.contains(v));
        let p = choose|p: int| 0 <= p < ks.len() && ks[p] == v;
        if p >= i {
            if p > i {
                assert(ks[i] < ks[p]);
            }
        } else {
            lemma_increasing_covering(ks, m, p);
        }
    }
}

/// A run of answers finishes each split scrape request exactly once: for a
/// waiting request that awaits as many answers as the run holds for it,
/// with answers for other requests taken in between, every answer for it
/// but its last gives nothing; its last one removes it and gives the
/// response with the request's transaction id and the statistics of all
/// its answers, in order of index. Where those answers hold the indices
/// `0..m` between them, the response holds one statistic per index.
pub proof fn law_pending_scrape_round_trip(
    views: Seq<Map<usize, PendingScrapeResponseSlabEntry>>,
    answers: Seq<PendingScrapeResponse>,
    results: Seq<Option<ScrapeResponse>>,
    key: usize,
    m: usize,
)
    requires
        views.len() == answers.len() + 1,
        results.len() == answers.len(),
        views[0].contains_key(key),
        answers_for(answers, key).len() > 0,
        views[0][key].num_pending == answers_for(answers, key).len(),
        views[0][key].torrent_stats@ == Map::<usize, TorrentScrapeStatistics>::empty(),
        forall|i: int| 0 <= i < answers.len() ==> answer_added(views[i], answers[i], views[i + 1], results[i]),
    ensures
        forall|i: int|
            0 <= i < answers.len() && answers[i].slab_key == key && !finishes(answers, key, i) ==> (
            #[trigger] results[i]) is None,
        exists|f: int|
            #[trigger] finishes(answers, key, f) && answered_with(
                results[f],
                views[0][key].transaction_id,
                answers_union(answers_for(answers, key)),
            ) && in_index_order(
                results[f]->Some_0.torrent_stats@,
                answers_union(answers_for(answers, key)),
                m as nat,
            ),
        !views.last().contains_key(key),
{
    let n = answers.len() as int;
    assert(answers.take(n) =~= answers);
    lemma_answers_state(views, answers, results, key, n);
    let u = answers_union(answers_for(answers, key));
    let f = choose|f: int|
        f < n && #[trigger] finishes(answers, key, f) && answered_with(results[f], views[0][key].transaction_id, u);
    lemma_index_order(results[f]->Some_0.torrent_stats@, u, m as nat);
}

proof fn lemma_index_order(stats: Seq<TorrentScrapeStatistics>, u: Map<usize, TorrentScrapeStatistics>, m: nat)
    requires
        values_by_key(u, stats),
        m <= usize::MAX,
    ensures
        in_index_order(stats, u, m),
{
    if u.dom() == Set::new(|k: usize| k < m) {
        let ks = choose|ks: Seq<usize>| values_at_keys(u, stats, ks);
        assert forall|k: usize| ks.contains(k) <==> k < m by {
            assert(u.contains_key(k) <==> u.dom().contains(k));
        }
        assert forall|i: int| 0 <= i < ks.len() implies ks[i] == i by {
            lemma_increasing_covering(ks, m, i);
        }
        assert(ks.len() == m) by {
            if ks.len() > m {
                assert(ks[m as int] == m);
                assert(ks.contains(ks[m as int]));
            }
            if ks.len() < m {
                let v = (m - 1) as usize;
                assert(v < m);
                assert(ks.contains(v));
                let p = choose|p: int| 0 <= p < ks.len() && ks[p] == v;
                assert(ks[p] == p);
            }
        }
        assert forall|k: int| 0 <= k < m implies stats[k] == u[k as usize] by {
            assert(ks[k] == k);
        }
    }
}

/// Scrape requests that wait for the answers of swarm workers
pub struct PendingScrapeResponseSlab(Slab<PendingScrapeResponseSlabEntry>);

impl Default for PendingScrapeResponseSlab {
    fn default() -> (r: Self)
        ensures
            r.wf(),
            r@.dom() == Set::<usize>::empty(),
    {
        PendingScrapeResponseSlab(slab_new())
    }
}

impl PendingScrapeResponseSlab {
    /// The waiting requests, by key
    pub closed spec fn view(&self) -> Map<usize, PendingScrapeResponseSlabEntry> {
        pending_entries(self.0)
    }

    /// The key that the next request gets
    pub closed spec fn vacant_key(&self) -> usize {
        pending_vacant_key(self.0)
    }

    /// Every waiting request waits for at least one worker
    pub open spec fn wf(&self) -> bool {
        forall|k: usize| #[trigger] self@.contains_key(k) ==> self@[k].num_pending > 0
    }

    /// Number of waiting requests
    pub fn len(&self) -> (r: usize)
        ensures
            r == self@.len(),
    {
        slab_len(&self.0)
    }

    /// Split a scrape request into one request per swarm worker that holds
    /// some of its torrents, and store an entry that waits for all their
    /// answers. A request without info hashes is not split and not stored.
    pub fn prepare_split_requests(
        &mut self,
        config: &Config,
        request: ScrapeRequest,
        valid_until: ValidUntil,
    ) -> (r: Vec<(SwarmWorkerIndex, PendingScrapeRequest)>)
        requires
            old(self).wf(),
            config.swarm_workers > 0,
        ensures
            final(self).wf(),
            request.info_hashes@.len() == 0 ==> r@.len() == 0 && final(self)@ == old(self)@,
            request.info_hashes@.len() > 0 ==> {
                let key = old(self).vacant_key();
                &&& !old(self)@.contains_key(key)
                &&& final(self)@.dom() == old(self)@.dom().insert(key)
                &&& final(self)@.remove(key) == old(self)@.remove(key)
                &&& final(self)@[key].num_pending == r@.len()
                &&& final(self)@[key].valid_until == valid_until
                &&& final(self)@[key].transaction_id == request.transaction_id
                &&& final(self)@[key].torrent_stats@ == Map::<usize, TorrentScrapeStatistics>::empty()
                &&& forall|j: int| 0 <= j < r@.len() ==> #[trigger] r@[j].1.slab_key == key
            },
            forall|j: int|
                0 <= j < r@.len() ==> split_request_holds(
                    config.swarm_workers,
                    request.info_hashes@,
                    #[trigger] r@[j].0,
                    r@[j].1.info_hashes@,
                ),
            forall|j: int, l: int| 0 <= j < l < r@.len() ==> r@[j].0 != r@[l].0,
            forall|j: int| 0 <= j < r@.len() ==> split_nonempty(#[trigger] r@[j], config.swarm_workers),
            forall|i: int|
                0 <= i < request.info_hashes@.len() ==> exists|j: int|
                    0 <= j < r@.len() && r@[j].0 == SwarmWorkerIndex::spec_from_info_hash(
                        config.swarm_workers,
                        #[trigger] request.info_hashes@[i],
                    ),
    {
        let mut split_requests: Vec<(SwarmWorkerIndex, PendingScrapeRequest)> = Vec::new();

        if request.info_hashes.len() == 0 {
            return split_requests;
        }

        let slab_key = slab_vacant_key(&self.0);
        let n = request.info_hashes.len();
        let ghost ihs = request.info_hashes@;
        let mut i: usize = 0;
        proof {
            assert(ihs.take(0) =~= Seq::<InfoHash>::empty());
        }
        while i < n
            invariant
                n == ihs.len(),
                ihs == request.info_hashes@,
                config.swarm_workers > 0,
                i <= n,
                split_so_far(split_requests@, config.swarm_workers, ihs.take(i as int), slab_key),
            decreases n - i,
        {
            let info_hash = request.info_hashes[i];
            add_info_hash(&mut split_requests, config, i, info_hash, slab_key, Ghost(ihs.take(i as int)));
            proof {
                assert(ihs.take(i as int).push(info_hash) =~= ihs.take(i as int + 1));
            }
            i = i + 1;
        }
        proof {
            let sw = config.swarm_workers;
            assert(ihs.take(n as int) =~= ihs);
            assert forall|x: int| 0 <= x < n implies exists|j: int|
                0 <= j < split_requests@.len() && split_requests@[j].0 == SwarmWorkerIndex::spec_from_info_hash(
                    sw,
                    #[trigger] ihs[x],
                ) by {
                assert(ihs.take(n as int)[x] == ihs[x]);
            }
            assert(0 < n);
            let ih0 = ihs[0];
            assert(split_requests@.len() > 0);
        }

        let ghost before = self@;
        let inserted_key = slab_insert(
            &mut self.0,
            PendingScrapeResponseSlabEntry {
                num_pending: split_requests.len(),
                valid_until,
                torrent_stats: BTreeMap::new(),
                transaction_id: request.transaction_id,
            },
        );
        proof {
            assert(inserted_key == slab_key);
            assert(self@.remove(slab_key) =~= before.remove(slab_key));
            assert(split_requests@.len() > 0);
        }
        split_requests
    }

    /// Add a swarm worker's answer to its waiting request. Returns the whole
    /// response once every worker has answered, with the statistics in the
    /// order of the info hashes; an answer for no waiting request is
    /// dropped.
    pub fn add_and_get_finished(&mut self, response: &PendingScrapeResponse) -> (r: Option<ScrapeResponse>)
        requires
            old(self).wf(),
        ensures
            final(self).wf(),
            answer_added(old(self)@, *response, final(self)@, r),
    {
        let key = response.slab_key;
        if !slab_contains(&self.0, key) {
            return None;
        }
        let ghost old_view = self@;
        let finished = {
            let entry = slab_get_mut(&mut self.0, key);
            entry.num_pending = entry.num_pending - 1;
            let ghost base = entry.torrent_stats@;
            let ghost e0 = *entry;
            let ghost rs = response.torrent_stats.iter().remaining();
            let ghost mut done: int = 0;
            for kv in it: response.torrent_stats.iter()
                invariant
                    it.seq() == rs,
                    entry.num_pending == e0.num_pending,
                    entry.valid_until == e0.valid_until,
                    entry.transaction_id == e0.transaction_id,
                    done == it.index(),
                    forall|x: usize|
                        #[trigger] entry.torrent_stats@.contains_key(x) <==> base.contains_key(x) || (exists|y: int|
                            0 <= y < done && *rs[y].0 == x),
                    forall|x: usize|
                        #[trigger] entry.torrent_stats@.contains_key(x) ==> entry.torrent_stats@[x] == if (exists|y: int|
                            0 <= y < done && *rs[y].0 == x) {
                            response.torrent_stats@[x]
                        } else {
                            base[x]
                        },
            {
                let (k, v) = kv;
                entry.torrent_stats.insert(*k, *v);
                proof {
                    done = done + 1;
                }
            }
            proof {
                let m = response.torrent_stats@;
                assert(done == rs.len());
                assert forall|x: usize| (exists|y: int| 0 <= y < rs.len() && *rs[y].0 == x) <==> m.contains_key(x) by {
                    if m.contains_key(x) {
                        assert(rs.contains((&x, &m[x])));
                        let y = choose|y: int| 0 <= y < rs.len() && rs[y] == (&x, &m[x]);
                        assert(*rs[y].0 == x);
                    }
                }
                assert(entry.torrent_stats@ =~= base.union_prefer_right(m));
            }
            entry.num_pending == 0
        };
        proof {
            assert(self@.contains_key(key));
            assert(self@ == old_view.insert(key, self@[key]));
        }
        let ghost mid_view = self@;
        if finished {
            let entry = slab_remove(&mut self.0, key);
            proof {
                assert(self@ =~= old_view.remove(key));
            }
            let mut torrent_stats: Vec<TorrentScrapeStatistics> = Vec::new();
            let stats_iter = entry.torrent_stats.iter();
            let ghost rs = stats_iter.remaining();
            proof {
                assert(increasing_seq(rs.map_values(|kv: (&usize, &TorrentScrapeStatistics)| *kv.0)));
            }
            for kv in it: stats_iter
                invariant
                    it.seq() == rs,
                    torrent_stats@.len() == it.index(),
                    forall|y: int| 0 <= y < it.index() ==> torrent_stats@[y] == *rs[y].1,
            {
                let (_, v) = kv;
                torrent_stats.push(*v);
            }
            proof {
                let m = entry.torrent_stats@;
                assert(torrent_stats@.len() == rs.len());
                let ks = rs.map_values(|kv: (&usize, &TorrentScrapeStatistics)| *kv.0);
                lemma_increasing_keys(ks);
                assert forall|k: usize| ks.contains(k) <==> m.contains_key(k) by {
                    if m.contains_key(k) {
                        assert(rs.contains((&k, &m[k])));
                        let y = choose|y: int| 0 <= y < rs.len() && rs[y] == (&k, &m[k]);
                        assert(ks[y] == k);
                    }
                    if ks.contains(k) {
                        let y = choose|y: int| 0 <= y < ks.len() && ks[y] == k;
                        assert(m.contains_key(*rs[y].0));
                    }
                }
                assert forall|i: int| 0 <= i < ks.len() implies torrent_stats@[i] == m[ks[i]] by {
                    assert(m[*rs[i].0] == *rs[i].1);
                }
                assert(values_at_keys(m, torrent_stats@, ks));
                assert(values_by_key(m, torrent_stats@));
            }
            Some(ScrapeResponse { transaction_id: entry.transaction_id, torrent_stats })
        } else {
            proof {
                assert(self@.remove(key) =~= old_view.remove(key));
                assert forall|k: usize| #[trigger] self@.contains_key(k) implies self@[k].num_pending > 0 by {
                    if k != key {
                        assert(old_view.contains_key(k));
                    }
                }
            }
            None
        }
    }

    /// Remove the waiting requests that are no longer valid at `now` and
    /// give back spare capacity
    pub fn clean(&mut self, now: SecondsSinceServerStart)
        requires
            old(self).wf(),
        ensures
            final(self).wf(),
            forall|k: usize|
                #[trigger] final(self)@.contains_key(k) <==> old(self)@.contains_key(k)
                    && old(self)@[k].valid_until.spec_valid(now),
            forall|k: usize| #[trigger] final(self)@.contains_key(k) ==> final(self)@[k] == old(self)@[k],
    {
        let ghost old_view = self@;
        slab_retain_valid(&mut self.0, now);
        slab_shrink_to_fit(&mut self.0);
        proof {
            assert forall|k: usize| #[trigger] self@.contains_key(k) implies self@[k].num_pending > 0 by {
                assert(old_view.contains_key(k));
            }
        }
    }
}

} // verus!
