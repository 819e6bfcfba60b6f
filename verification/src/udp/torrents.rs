//! The torrents of the UDP tracker: the peer map of each info hash, kept in
//! shards chosen by the first byte of the info hash, one set of shards per
//! IP version.

use vstd::prelude::*;

use hashbrown::HashMap;
use rand::rngs::SmallRng;

use crate::collections::{dropped_where, retain_where, PeerMapKey};
use crate::common::access_list::{allows_spec, AccessList, AccessListMode};
use crate::common::{CanonicalSocketAddr, IpAddr, SecondsSinceServerStart, ServerStartInstant, ValidUntil};
use crate::udp::common::{new_peer_histogram, record_in_histogram, PeerHistogram, StatisticsMessage};
use crate::udp::config::Config;
use crate::udp::protocol::{
    AnnounceRequest, AnnounceResponse, InfoHash, Ip, Ipv4AddrBytes, Ipv6AddrBytes, NumberOfDownloads,
    NumberOfPeers, Response, ScrapeRequest, ScrapeResponse, TorrentScrapeStatistics,
};
use crate::udp::swarm::{
    announce_post, removed_messages, scrape_statistics_of, valid_pred, Peer, PeerMap, SMALL_PEER_MAP_CAPACITY,
};

verus! {

/// Number of shards per IP version
pub const NUM_SHARDS: usize = 16;

/// The peers of one torrent, and whether the last cleaning found it empty
pub struct TorrentData {
    pub peer_map: PeerMap,
    pub pending_removal: bool,
}

/// The data of a torrent that was just created: no peers, in a small map
pub open spec fn default_torrent_data(t: TorrentData) -> bool {
    &&& t.peer_map is Small
    &&& t.peer_map.wf()
    &&& t.peer_map.entries() == Seq::<(PeerMapKey, Peer)>::empty()
    &&& !t.pending_removal
}

impl Default for TorrentData {
    fn default() -> (r: Self)
        ensures
            default_torrent_data(r),
    {
        TorrentData { peer_map: PeerMap::default(), pending_removal: false }
    }
}

/// A shard of torrents: a `hashbrown::HashMap` from info hashes to
/// torrents in a private field, reached only through the `shard_` wrappers
#[verifier::external_body]
pub struct TorrentMapShard {
    map: HashMap<InfoHash, TorrentData>,
}

/// The torrents in a shard
pub uninterp spec fn torrent_map_shard(s: TorrentMapShard) -> Map<InfoHash, TorrentData>;

/// An empty `hashbrown::HashMap` (`HashMap::default`)
#[verifier::external_body]
fn shard_new() -> (r: TorrentMapShard)
    ensures
        torrent_map_shard(r).dom() == Set::<InfoHash>::empty(),
{
    TorrentMapShard { map: HashMap::default() }
}

/// `HashMap::entry(key).or_insert(default)`: the torrent of the key, first
/// inserted as `default` where the key is absent. What is written through
/// the reference is what the shard holds for the key.
#[verifier::external_body]
fn shard_entry_or_insert(s: &mut TorrentMapShard, key: InfoHash, default: TorrentData) -> (r: &mut TorrentData)
    ensures
        torrent_map_shard(*old(s)).dom().contains(key) ==> *r == torrent_map_shard(*old(s))[key],
        !torrent_map_shard(*old(s)).dom().contains(key) ==> *r == default,
        torrent_map_shard(*final(s)) == torrent_map_shard(*old(s)).insert(key, *final(r)),
{
    s.map.entry(key).or_insert(default)
}

/// `HashMap::get`: the torrent of the key, if the shard holds it
#[verifier::external_body]
fn shard_get<'a>(s: &'a TorrentMapShard, key: &InfoHash) -> (r: Option<&'a TorrentData>)
    ensures
        match r {
            Some(t) => torrent_map_shard(*s).dom().contains(*key) && *t == torrent_map_shard(*s)[*key],
            None => !torrent_map_shard(*s).dom().contains(*key),
        },
{
    s.map.get(key)
}

/// `HashMap::get_mut` of a key that the shard holds. What is written
/// through the reference is what the shard holds for the key.
#[verifier::external_body]
fn shard_get_mut<'a>(s: &'a mut TorrentMapShard, key: &InfoHash) -> (r: &'a mut TorrentData)
    requires
        torrent_map_shard(*old(s)).dom().contains(*key),
    ensures
        *r == torrent_map_shard(*old(s))[*key],
        torrent_map_shard(*final(s)) == torrent_map_shard(*old(s)).insert(*key, *final(r)),
{
    s.map.get_mut(key).unwrap()
}

/// `HashMap::remove`: takes the key out, handing back its torrent if there
/// was one
#[verifier::external_body]
fn shard_remove(s: &mut TorrentMapShard, key: &InfoHash) -> (r: Option<TorrentData>)
    ensures
        torrent_map_shard(*final(s)) == torrent_map_shard(*old(s)).remove(*key),
        r == if torrent_map_shard(*old(s)).dom().contains(*key) {
            Some(torrent_map_shard(*old(s))[*key])
        } else {
            None::<TorrentData>
        },
{
    s.map.remove(key)
}

/// The keys of the shard (`HashMap::keys`), each once, in the map's
/// iteration order, which nothing fixes
#[verifier::external_body]
fn shard_keys(s: &TorrentMapShard) -> (r: Vec<InfoHash>)
    ensures
        r@.no_duplicates(),
        forall|k: InfoHash| r@.contains(k) <==> torrent_map_shard(*s).dom().contains(k),
{
    s.map.keys().copied().collect()
}

/// `HashMap::len`: the number of torrents in the shard
#[verifier::external_body]
fn shard_len(s: &TorrentMapShard) -> (r: usize)
    ensures
        r == torrent_map_shard(*s).len(),
{
    s.map.len()
}

/// `HashMap::shrink_to_fit`: gives back spare capacity; the torrents stay
#[verifier::external_body]
fn shard_shrink_to_fit(s: &mut TorrentMapShard)
    ensures
        torrent_map_shard(*final(s)) == torrent_map_shard(*old(s)),
{
    s.map.shrink_to_fit()
}

/// The shard that holds an info hash: its first byte modulo the number of
/// shards
pub open spec fn shard_index(num_shards: int, info_hash: InfoHash) -> int {
    (info_hash.0[0] as int) % num_shards
}

/// The entries that an announce finds for a torrent: none if the torrent
/// is not there yet
pub open spec fn entries_before(m: Map<InfoHash, TorrentData>, info_hash: InfoHash) -> Seq<(PeerMapKey, Peer)> {
    if m.dom().contains(info_hash) {
        m[info_hash].peer_map.entries()
    } else {
        Seq::<(PeerMapKey, Peer)>::empty()
    }
}

/// Whether the map that an announce finds for a torrent is small: a new
/// torrent starts small
pub open spec fn small_before(m: Map<InfoHash, TorrentData>, info_hash: InfoHash) -> bool {
    m.dom().contains(info_hash) ==> m[info_hash].peer_map is Small
}

/// What an announce does to the torrents: the torrent of the info hash is
/// there afterwards, announced to as a peer map announce does (a new torrent
/// starting without peers), and no other torrent changes
pub open spec fn torrents_announced<I: Ip>(
    old: Map<InfoHash, TorrentData>,
    new: Map<InfoHash, TorrentData>,
    config: &Config,
    request: AnnounceRequest,
    ip_address: I,
    valid_until: ValidUntil,
    r: AnnounceResponse<I>,
    msgs_old: Seq<StatisticsMessage>,
    msgs_new: Seq<StatisticsMessage>,
) -> bool {
    let ih = request.info_hash;
    &&& new.dom() == old.dom().insert(ih)
    &&& new.remove(ih) == old.remove(ih)
    &&& announce_post::<I>(
        entries_before(old, ih),
        small_before(old, ih),
        new[ih].peer_map,
        config,
        request,
        ip_address,
        valid_until,
        r,
        msgs_old,
        msgs_new,
    )
    &&& new[ih].pending_removal == (old.dom().contains(ih) && old[ih].pending_removal)
}

/// Scrape statistics of an info hash: those of its torrent, or zeros for
/// an unknown torrent
pub open spec fn torrent_statistics(m: Map<InfoHash, TorrentData>, info_hash: InfoHash) -> TorrentScrapeStatistics {
    if m.dom().contains(info_hash) {
        scrape_statistics_of(m[info_hash].peer_map.entries())
    } else {
        TorrentScrapeStatistics {
            seeders: NumberOfPeers(0),
            leechers: NumberOfPeers(0),
            completed: NumberOfDownloads(0),
        }
    }
}


/// Number of peers of a torrent that are still valid at `now`
pub open spec fn valid_peer_count(t: TorrentData, now: SecondsSinceServerStart) -> int {
    retain_where(t.peer_map.entries(), valid_pred(now)).len() as int
}

/// Whether cleaning keeps a torrent: the access list allows its info hash
/// and it still has a valid peer
pub open spec fn torrent_kept(
    t: TorrentData,
    access_list: Set<[u8; 20]>,
    mode: AccessListMode,
    now: SecondsSinceServerStart,
    info_hash: InfoHash,
) -> bool {
    allows_spec(access_list, mode, info_hash.0) && valid_peer_count(t, now) > 0
}

/// A torrent after its peers were cleaned: the valid peers stay in order,
/// the map is large only if it was and still holds more peers than a small
/// map can
pub open spec fn peers_cleaned(before: TorrentData, after: TorrentData, now: SecondsSinceServerStart) -> bool {
    &&& after.peer_map.wf()
    &&& after.peer_map.entries() == retain_where(before.peer_map.entries(), valid_pred(now))
    &&& (after.peer_map is Large) == (before.peer_map is Large && after.peer_map.entries().len()
        > SMALL_PEER_MAP_CAPACITY)
}

/// A torrent that cleaning kept: its peers cleaned, and no longer pending
/// removal
pub open spec fn torrent_cleaned(before: TorrentData, after: TorrentData, now: SecondsSinceServerStart) -> bool {
    peers_cleaned(before, after, now) && !after.pending_removal
}

/// The statistics messages of cleaning the torrents `ks` of `m`, in that
/// order: a removal message per dropped peer, if peer clients are counted
pub open spec fn cleaning_messages(
    peer_clients: bool,
    m: Map<InfoHash, TorrentData>,
    ks: Seq<InfoHash>,
    now: SecondsSinceServerStart,
) -> Seq<StatisticsMessage>
    decreases ks.len(),
{
    if ks.len() == 0 {
        Seq::<StatisticsMessage>::empty()
    } else {
        cleaning_messages(peer_clients, m, ks.drop_last(), now) + if peer_clients {
            removed_messages(dropped_where(m[ks.last()].peer_map.entries(), valid_pred(now)))
        } else {
            Seq::<StatisticsMessage>::empty()
        }
    }
}

/// The valid peers of the torrents `ks` of `m`, summed
pub open spec fn valid_peer_total(m: Map<InfoHash, TorrentData>, ks: Seq<InfoHash>, now: SecondsSinceServerStart) -> int
    decreases ks.len(),
{
    if ks.len() == 0 {
        0
    } else {
        valid_peer_total(m, ks.drop_last(), now) + valid_peer_count(m[ks.last()], now)
    }
}

/// The number of torrents in the shards, summed
pub open spec fn total_len(shards: Seq<Map<InfoHash, TorrentData>>) -> int
    decreases shards.len(),
{
    if shards.len() == 0 {
        0
    } else {
        total_len(shards.drop_last()) + shards.last().len()
    }
}

/// `ks` lists the set, each element once
pub open spec fn enumerates(ks: Seq<InfoHash>, d: Set<InfoHash>) -> bool {
    &&& ks.no_duplicates()
    &&& forall|k: InfoHash| ks.contains(k) <==> d.contains(k)
}

/// The number, or `usize::MAX` if it does not fit
pub open spec fn clamp_usize(n: int) -> int {
    if n > usize::MAX { usize::MAX as int } else { n }
}

proof fn lemma_valid_peer_total_append(
    m: Map<InfoHash, TorrentData>,
    a: Seq<InfoHash>,
    b: Seq<InfoHash>,
    now: SecondsSinceServerStart,
)
    ensures
        valid_peer_total(m, a + b, now) == valid_peer_total(m, a, now) + valid_peer_total(m, b, now),
    decreases b.len(),
{
    if b.len() > 0 {
        lemma_valid_peer_total_append(m, a, b.drop_last(), now);
        assert((a + b).drop_last() =~= a + b.drop_last());
    } else {
        assert(a + b =~= a);
    }
}

proof fn lemma_cleaning_messages_append(
    pc: bool,
    m: Map<InfoHash, TorrentData>,
    a: Seq<InfoHash>,
    b: Seq<InfoHash>,
    now: SecondsSinceServerStart,
)
    ensures
        cleaning_messages(pc, m, a + b, now) == cleaning_messages(pc, m, a, now) + cleaning_messages(pc, m, b, now),
    decreases b.len(),
{
    if b.len() > 0 {
        lemma_cleaning_messages_append(pc, m, a, b.drop_last(), now);
        assert((a + b).drop_last() =~= a + b.drop_last());
        assert(cleaning_messages(pc, m, a + b, now) =~= cleaning_messages(pc, m, a, now) + cleaning_messages(pc, m, b, now));
    } else {
        assert(a + b =~= a);
        assert(cleaning_messages(pc, m, a, now) + cleaning_messages(pc, m, b, now) =~= cleaning_messages(pc, m, a, now));
    }
}

/// The peer counts that a histogram of the torrents `ks` holds: one value
/// per torrent with at least one valid peer, its number of valid peers
pub open spec fn histogram_counts(
    m: Map<InfoHash, TorrentData>,
    ks: Seq<InfoHash>,
    now: SecondsSinceServerStart,
) -> Seq<u64> {
    ks.filter_map(
        |k: InfoHash|
            if valid_peer_count(m[k], now) > 0 {
                Some(valid_peer_count(m[k], now) as u64)
            } else {
                None
            },
    )
}

proof fn lemma_histogram_counts_append(
    m: Map<InfoHash, TorrentData>,
    a: Seq<InfoHash>,
    b: Seq<InfoHash>,
    now: SecondsSinceServerStart,
)
    ensures
        histogram_counts(m, a + b, now) == histogram_counts(m, a, now) + histogram_counts(m, b, now),
    decreases b.len(),
{
    if b.len() > 0 {
        lemma_histogram_counts_append(m, a, b.drop_last(), now);
        assert((a + b).drop_last() =~= a + b.drop_last());
        assert((a + b).last() == b.last());
        let f = |k: InfoHash|
            if valid_peer_count(m[k], now) > 0 {
                Some(valid_peer_count(m[k], now) as u64)
            } else {
                None
            };
        assert((a + b).filter_map(f) == (a + b).drop_last().filter_map(f) + (match f(b.last()) {
            Some(x) => seq![x],
            None => Seq::empty(),
        }));
        assert(b.filter_map(f) == b.drop_last().filter_map(f) + (match f(b.last()) {
            Some(x) => seq![x],
            None => Seq::empty(),
        }));
        assert(histogram_counts(m, a + b, now) =~= histogram_counts(m, a, now) + histogram_counts(m, b, now));
    } else {
        assert(a + b =~= a);
        assert(histogram_counts(m, b, now) =~= Seq::<u64>::empty());
        assert(histogram_counts(m, a, now) + histogram_counts(m, b, now) =~= histogram_counts(m, a, now));
    }
}

/// The sum of the values
pub open spec fn sum_u64(s: Seq<u64>) -> int
    decreases s.len(),
{
    if s.len() == 0 {
        0
    } else {
        sum_u64(s.drop_last()) + s.last()
    }
}

/// The peer count histogram of cleaning holds one value per torrent with a
/// valid peer and no other: each value is the positive number of valid
/// peers of one of the torrents, there are as many values as torrents with
/// a valid peer, and the values add up to all valid peers of the torrents.
pub proof fn law_histogram_counts(m: Map<InfoHash, TorrentData>, ks: Seq<InfoHash>, now: SecondsSinceServerStart)
    requires
        forall|j: int| 0 <= j < ks.len() ==> valid_peer_count(m[#[trigger] ks[j]], now) <= u64::MAX,
    ensures
        forall|i: int|
            0 <= i < histogram_counts(m, ks, now).len() ==> #[trigger] histogram_counts(m, ks, now)[i] > 0
                && exists|j: int| 0 <= j < ks.len() && histogram_counts(m, ks, now)[i] == valid_peer_count(m[ks[j]], now),
        histogram_counts(m, ks, now).len() == ks.filter(|k: InfoHash| valid_peer_count(m[k], now) > 0).len(),
        sum_u64(histogram_counts(m, ks, now)) == valid_peer_total(m, ks, now),
    decreases ks.len(),
{
    reveal(Seq::filter);
    if ks.len() > 0 {
        let rest = ks.drop_last();
        law_histogram_counts(m, rest, now);
        let k = ks.last();
        let c = valid_peer_count(m[k], now);
        assert(c <= u64::MAX) by {
            assert(ks[ks.len() - 1] == k);
        }
        let hc = histogram_counts(m, ks, now);
        let hr = histogram_counts(m, rest, now);
        if c > 0 {
            assert(hc == hr.push(c as u64));
            assert(hc.drop_last() =~= hr);
        } else {
            assert(hc == hr);
        }
        assert forall|i: int| 0 <= i < hc.len() implies #[trigger] hc[i] > 0 && exists|j: int|
            0 <= j < ks.len() && hc[i] == valid_peer_count(m[ks[j]], now) by {
            if i < hr.len() {
                assert(hc[i] == hr[i]);
                let j = choose|j: int| 0 <= j < rest.len() && hr[i] == valid_peer_count(m[rest[j]], now);
                assert(ks[j] == rest[j]);
            } else {
                assert(hc[i] == c);
                assert(ks[ks.len() - 1] == k);
            }
        }
    }
}

/// Records one peer count in the histogram; gives back the value recorded
fn record_peer_count(histogram: &mut PeerHistogram, value: u64) -> (recorded: Ghost<u64>)
    ensures
        recorded@ == value,
{
    record_in_histogram(histogram, value);
    Ghost(value)
}

/// Cleans the torrents of one shard, first their peers, then the torrents
/// themselves: a torrent goes if the access list forbids it or it has no
/// valid peer left. Returns the number of valid peers, summed over the
/// shard's torrents in the order visited (also returned), saturating.
fn clean_shard(
    shard: &mut TorrentMapShard,
    config: &Config,
    statistics_messages: &mut Vec<StatisticsMessage>,
    opt_histogram: &mut Option<PeerHistogram>,
    access_list: &AccessList,
    access_list_mode: AccessListMode,
    now: SecondsSinceServerStart,
    Ghost(m): Ghost<Map<InfoHash, TorrentData>>,
) -> (r: (usize, Ghost<Seq<InfoHash>>, Ghost<Seq<u64>>))
    requires
        forall|k: InfoHash| #[trigger] torrent_map_shard(*old(shard)).dom().contains(k) ==> m.dom().contains(k)
            && m[k] == torrent_map_shard(*old(shard))[k] && m[k].peer_map.wf(),
    ensures
        forall|k: InfoHash| #[trigger] torrent_map_shard(*final(shard)).dom().contains(k) <==> torrent_map_shard(
            *old(shard),
        ).dom().contains(k) && torrent_kept(m[k], access_list@, access_list_mode, now, k),
        forall|k: InfoHash| #[trigger] torrent_map_shard(*final(shard)).dom().contains(k) ==> torrent_cleaned(
            m[k],
            torrent_map_shard(*final(shard))[k],
            now,
        ),
        enumerates(r.1@, torrent_map_shard(*old(shard)).dom()),
        r.0 == clamp_usize(valid_peer_total(m, r.1@, now)),
        final(statistics_messages)@ == old(statistics_messages)@ + cleaning_messages(
            config.statistics.peer_clients,
            m,
            r.1@,
            now,
        ),
        (*final(opt_histogram) is Some) == (*old(opt_histogram) is Some),
        r.2@ == if *old(opt_histogram) is Some { histogram_counts(m, r.1@, now) } else { Seq::<u64>::empty() },
{
    let ghost old_shard = torrent_map_shard(*shard);
    let ghost mut recorded: Seq<u64> = Seq::empty();
    let ghost msgs0 = statistics_messages@;
    let keys = shard_keys(shard);
    let mut num_peers_total: usize = 0;

    // First the peers of every torrent; a torrent left without peers is
    // marked for removal
    let mut j: usize = 0;
    while j < keys.len()
        invariant
            keys@.no_duplicates(),
            forall|k: InfoHash| keys@.contains(k) <==> old_shard.dom().contains(k),
            forall|k: InfoHash| #[trigger] old_shard.dom().contains(k) ==> m.dom().contains(k) && m[k] == old_shard[k]
                && m[k].peer_map.wf(),
            0 <= j <= keys@.len(),
            torrent_map_shard(*shard).dom() == old_shard.dom(),
            forall|k: InfoHash| #[trigger] old_shard.dom().contains(k) ==> if keys@.take(j as int).contains(k) {
                peers_cleaned(m[k], torrent_map_shard(*shard)[k], now) && torrent_map_shard(*shard)[k].pending_removal
                    == (valid_peer_count(m[k], now) == 0)
            } else {
                torrent_map_shard(*shard)[k] == m[k]
            },
            num_peers_total == clamp_usize(valid_peer_total(m, keys@.take(j as int), now)),
            statistics_messages@ == msgs0 + cleaning_messages(
                config.statistics.peer_clients,
                m,
                keys@.take(j as int),
                now,
            ),
            (*opt_histogram is Some) == (*old(opt_histogram) is Some),
            recorded == if *opt_histogram is Some {
                histogram_counts(m, keys@.take(j as int), now)
            } else {
                Seq::<u64>::empty()
            },
        decreases keys@.len() - j,
    {
        let info_hash = keys[j];
        proof {
            assert(keys@.contains(info_hash));
            assert(!keys@.take(j as int).contains(info_hash));
        }
        let ghost before_msgs = statistics_messages@;
        let torrent_data = shard_get_mut(shard, &info_hash);
        let num_peers = torrent_data.peer_map.clean_and_get_num_peers(config, statistics_messages, now);
        torrent_data.pending_removal = num_peers == 0;
        proof {
            assert(num_peers == valid_peer_count(m[info_hash], now));
        }
        match opt_histogram {
            Some(histogram) => {
                if num_peers > 0 {
                    let value = record_peer_count(histogram, num_peers as u64);
                    proof {
                        recorded = recorded.push(value@);
                    }
                }
            },
            None => {},
        }
        num_peers_total = num_peers_total.saturating_add(num_peers);
        proof {
            let t = keys@.take(j as int + 1);
            assert(t.drop_last() =~= keys@.take(j as int));
            assert(t.last() == info_hash);
            assert forall|k: InfoHash| #[trigger] t.contains(k) <==> (keys@.take(j as int).contains(k) || k == info_hash) by {
                if t.contains(k) {
                    let x = choose|x: int| 0 <= x < t.len() && t[x] == k;
                    if x < j {
                        assert(keys@.take(j as int)[x] == k);
                    }
                }
                if keys@.take(j as int).contains(k) {
                    let x = choose|x: int| 0 <= x < j && keys@.take(j as int)[x] == k;
                    assert(t[x] == k);
                }
                if k == info_hash {
                    assert(t[j as int] == k);
                }
            }
            assert(statistics_messages@ =~= msgs0 + cleaning_messages(
                config.statistics.peer_clients,
                m,
                t,
                now,
            ));
            let f = |k: InfoHash|
                if valid_peer_count(m[k], now) > 0 {
                    Some(valid_peer_count(m[k], now) as u64)
                } else {
                    None
                };
            assert(t.filter_map(f) == t.drop_last().filter_map(f) + (match f(t.last()) {
                Some(x) => seq![x],
                None => Seq::empty(),
            }));
            if *opt_histogram is Some {
                assert(recorded =~= histogram_counts(m, t, now));
            }
        }
        j = j + 1;
    }
    proof {
        assert(keys@.take(keys@.len() as int) =~= keys@);
    }
    let ghost mid_shard = torrent_map_shard(*shard);

    // Then the torrents: those that the access list forbids, or that are
    // still marked and empty, go
    let mut j: usize = 0;
    while j < keys.len()
        invariant
            keys@.no_duplicates(),
            forall|k: InfoHash| keys@.contains(k) <==> old_shard.dom().contains(k),
            forall|k: InfoHash| #[trigger] old_shard.dom().contains(k) ==> m.dom().contains(k) && m[k] == old_shard[k]
                && m[k].peer_map.wf(),
            forall|k: InfoHash| #[trigger] old_shard.dom().contains(k) ==> peers_cleaned(m[k], mid_shard[k], now)
                && mid_shard[k].pending_removal == (valid_peer_count(m[k], now) == 0),
            mid_shard.dom() == old_shard.dom(),
            0 <= j <= keys@.len(),
            forall|k: InfoHash| #[trigger] torrent_map_shard(*shard).dom().contains(k) <==> old_shard.dom().contains(k)
                && (!keys@.take(j as int).contains(k) || torrent_kept(m[k], access_list@, access_list_mode, now, k)),
            forall|k: InfoHash| #[trigger] torrent_map_shard(*shard).dom().contains(k) ==> if keys@.take(j as int).contains(k) {
                torrent_cleaned(m[k], torrent_map_shard(*shard)[k], now)
            } else {
                torrent_map_shard(*shard)[k] == mid_shard[k]
            },
        decreases keys@.len() - j,
    {
        let info_hash = keys[j];
        proof {
            assert(keys@.contains(info_hash));
            assert(!keys@.take(j as int).contains(info_hash));
            let t = keys@.take(j as int + 1);
            assert forall|k: InfoHash| #[trigger] t.contains(k) <==> (keys@.take(j as int).contains(k) || k == info_hash) by {
                if t.contains(k) {
                    let x = choose|x: int| 0 <= x < t.len() && t[x] == k;
                    if x < j {
                        assert(keys@.take(j as int)[x] == k);
                    }
                }
                if keys@.take(j as int).contains(k) {
                    let x = choose|x: int| 0 <= x < j && keys@.take(j as int)[x] == k;
                    assert(t[x] == k);
                }
                if k == info_hash {
                    assert(t[j as int] == k);
                }
            }
        }
        let ghost before = torrent_map_shard(*shard);
        proof {
            assert(old_shard.dom().contains(info_hash));
            assert(before.dom().contains(info_hash));
        }
        if !access_list.allows(access_list_mode, &info_hash.0) {
            shard_remove(shard, &info_hash);
            proof {
                assert(!torrent_kept(m[info_hash], access_list@, access_list_mode, now, info_hash));
            }
        } else {
            let torrent_data = shard_get_mut(shard, &info_hash);
            let pending = torrent_data.pending_removal;
            torrent_data.pending_removal = false;
            let empty = torrent_data.peer_map.is_empty();
            proof {
                assert(before[info_hash] == mid_shard[info_hash]);
                assert(pending == (valid_peer_count(m[info_hash], now) == 0));
                assert(empty == (valid_peer_count(m[info_hash], now) == 0));
            }
            if pending && empty {
                shard_remove(shard, &info_hash);
            } else {
                proof {
                    assert(torrent_kept(m[info_hash], access_list@, access_list_mode, now, info_hash));
                    assert(torrent_cleaned(m[info_hash], torrent_map_shard(*shard)[info_hash], now));
                }
            }
        }
        j = j + 1;
    }
    proof {
        assert(keys@.take(keys@.len() as int) =~= keys@);
    }
    shard_shrink_to_fit(shard);
    (num_peers_total, Ghost(keys@), Ghost(recorded))
}

/// What cleaning does to the torrents of one IP version: the shards stay,
/// exactly the torrents that the access list allows and that still have a
/// valid peer are left, with their peers cleaned
pub open spec fn torrents_cleaned(
    old: TorrentMapShards,
    new: TorrentMapShards,
    access_list: Set<[u8; 20]>,
    mode: AccessListMode,
    now: SecondsSinceServerStart,
) -> bool {
    &&& new.shards().len() == old.shards().len()
    &&& forall|k: InfoHash|
        #[trigger] new@.dom().contains(k) <==> old@.dom().contains(k) && torrent_kept(old@[k], access_list, mode, now, k)
    &&& forall|k: InfoHash| #[trigger] new@.dom().contains(k) ==> torrent_cleaned(old@[k], new@[k], now)
}

/// The torrents of one IP version, in shards
pub struct TorrentMapShards(Vec<TorrentMapShard>);

impl TorrentMapShards {
    /// The torrents of each shard
    pub closed spec fn shards(&self) -> Seq<Map<InfoHash, TorrentData>> {
        self.0@.map_values(|s: TorrentMapShard| torrent_map_shard(s))
    }

    /// The shard that an info hash belongs to
    pub open spec fn shard_of(&self, info_hash: InfoHash) -> Map<InfoHash, TorrentData> {
        self.shards()[shard_index(self.shards().len() as int, info_hash)]
    }

    /// All torrents, by info hash
    pub open spec fn view(&self) -> Map<InfoHash, TorrentData> {
        Map::new(
            |k: InfoHash| self.shard_of(k).dom().contains(k),
            |k: InfoHash| self.shard_of(k)[k],
        )
    }

    /// There is a shard, each torrent is in the shard of its info hash, and
    /// each peer map is well formed
    pub open spec fn wf(&self) -> bool {
        &&& self.shards().len() > 0
        &&& forall|i: int, k: InfoHash|
            0 <= i < self.shards().len() && #[trigger] self.shards()[i].dom().contains(k) ==> i
                == shard_index(self.shards().len() as int, k) && self.shards()[i][k].peer_map.wf()
    }

    /// Torrent shards without torrents
    pub fn new(num_shards: usize) -> (r: Self)
        requires
            num_shards > 0,
        ensures
            r.wf(),
            r.shards().len() == num_shards,
            r@ == Map::<InfoHash, TorrentData>::empty(),
    {
        let mut shards: Vec<TorrentMapShard> = Vec::new();
        let mut i: usize = 0;
        while i < num_shards
            invariant
                i <= num_shards,
                shards@.len() == i,
                forall|j: int| 0 <= j < i ==> torrent_map_shard(#[trigger] shards@[j]).dom() == Set::<InfoHash>::empty(),
            decreases num_shards - i,
        {
            shards.push(shard_new());
            i = i + 1;
        }
        let r = Self(shards);
        assert(r.shards().len() == num_shards);
        assert(r@ =~= Map::<InfoHash, TorrentData>::empty());
        r
    }

    /// Index of the shard of an info hash
    fn get_shard(&self, info_hash: &InfoHash) -> (r: usize)
        requires
            self.wf(),
        ensures
            r == shard_index(self.shards().len() as int, *info_hash),
            r < self.shards().len(),
    {
        (info_hash.0[0] as usize) % self.0.len()
    }

    /// Announce to the torrent of the request's info hash, creating the
    /// torrent if it is not there yet
    pub fn announce<I: Ip>(
        &mut self,
        config: &Config,
        statistics_messages: &mut Vec<StatisticsMessage>,
        rng: &mut SmallRng,
        request: &AnnounceRequest,
        ip_address: I,
        valid_until: ValidUntil,
    ) -> (r: AnnounceResponse<I>)
        requires
            old(self).wf(),
        ensures
            final(self).wf(),
            final(self).shards().len() == old(self).shards().len(),
            torrents_announced::<I>(
                old(self)@,
                final(self)@,
                config,
                *request,
                ip_address,
                valid_until,
                r,
                old(statistics_messages)@,
                final(statistics_messages)@,
            ),
            r.peers@.len() <= config.protocol.max_response_peers,
    {
        let i = self.get_shard(&request.info_hash);
        let ghost old_shards = self.shards();
        let ghost old_view = self@;
        let ghost ih = request.info_hash;
        proof {
            assert(torrent_map_shard(self.0@[i as int]) == old_shards[i as int]);
            if old_shards[i as int].dom().contains(ih) {
                assert(old_shards[i as int][ih].peer_map.wf());
            }
        }
        let shard = &mut self.0[i];
        let torrent_data = shard_entry_or_insert(shard, request.info_hash, TorrentData::default());
        let r = torrent_data.peer_map.announce(config, statistics_messages, rng, request, ip_address, valid_until);
        proof {
            let n = old_shards.len();
            assert(self@.dom() =~= old_view.dom().insert(ih)) by {
                assert forall|k: InfoHash| self@.dom().contains(k) <==> old_view.dom().insert(ih).contains(k) by {
                    if k != ih && shard_index(n as int, k) == i {
                        assert(self.shards()[i as int] == old_shards[i as int].insert(ih, torrent_map_shard(self.0@[i as int])[ih]));
                    }
                }
            }
            assert(self@.remove(ih) =~= old_view.remove(ih)) by {
                assert forall|k: InfoHash| k != ih && #[trigger] self@.dom().contains(k) implies self@[k] == old_view[k] by {
                    if shard_index(n as int, k) == i {
                        assert(self.shards()[i as int] == old_shards[i as int].insert(ih, torrent_map_shard(self.0@[i as int])[ih]));
                    }
                }
            }
            assert(self.shards() == old_shards.update(i as int, torrent_map_shard(self.0@[i as int])));
            assert forall|j: int, k: InfoHash|
                0 <= j < self.shards().len() && #[trigger] self.shards()[j].dom().contains(k) implies j
                    == shard_index(n as int, k) && self.shards()[j][k].peer_map.wf() by {
                if j != i || k != request.info_hash {
                    assert(old_shards[j].dom().contains(k));
                }
            }
        }
        r
    }
}


impl TorrentMapShards {
    /// Scrape statistics of each requested torrent, in the order of the
    /// request
    pub fn scrape(&self, request: ScrapeRequest) -> (r: ScrapeResponse)
        requires
            self.wf(),
        ensures
            r.transaction_id == request.transaction_id,
            r.torrent_stats@.len() == request.info_hashes@.len(),
            forall|i: int|
                0 <= i < r.torrent_stats@.len() ==> r.torrent_stats@[i] == torrent_statistics(
                    self@,
                    request.info_hashes@[i],
                ),
    {
        let mut torrent_stats: Vec<TorrentScrapeStatistics> = Vec::with_capacity(request.info_hashes.len());
        let mut i: usize = 0;
        while i < request.info_hashes.len()
            invariant
                self.wf(),
                i <= request.info_hashes@.len(),
                torrent_stats@.len() == i,
                forall|j: int|
                    0 <= j < i ==> torrent_stats@[j] == torrent_statistics(self@, request.info_hashes@[j]),
            decreases request.info_hashes@.len() - i,
        {
            let info_hash = request.info_hashes[i];
            let index = self.get_shard(&info_hash);
            let shard = &self.0[index];
            proof {
                assert(self.shards()[index as int] == torrent_map_shard(*shard));
            }
            let statistics = match shard_get(shard, &info_hash) {
                Some(torrent_data) => {
                    proof {
                        assert(self.shards()[index as int].dom().contains(info_hash));
                    }
                    torrent_data.peer_map.scrape_statistics()
                },
                None => TorrentScrapeStatistics {
                    seeders: NumberOfPeers(0),
                    leechers: NumberOfPeers(0),
                    completed: NumberOfDownloads(0),
                },
            };
            torrent_stats.push(statistics);
            i = i + 1;
        }
        ScrapeResponse { transaction_id: request.transaction_id, torrent_stats }
    }

    /// Remove torrents that the access list forbids or that have no valid
    /// peer left, after removing their invalid peers, and give back spare
    /// capacity. Returns the number of torrents left and the number of
    /// valid peers, both summed saturating, and, if configured, a histogram
    /// of the peer counts of the torrents with peers.
    pub fn clean_and_get_statistics(
        &mut self,
        config: &Config,
        statistics_messages: &mut Vec<StatisticsMessage>,
        access_list: &AccessList,
        access_list_mode: AccessListMode,
        now: SecondsSinceServerStart,
    ) -> (r: (usize, usize, Option<PeerHistogram>, Ghost<Seq<u64>>))
        requires
            old(self).wf(),
        ensures
            final(self).wf(),
            torrents_cleaned(*old(self), *final(self), access_list@, access_list_mode, now),
            r.0 == clamp_usize(total_len(final(self).shards())),
            exists|ks: Seq<InfoHash>|
                enumerates(ks, old(self)@.dom()) && r.1 == clamp_usize(valid_peer_total(old(self)@, ks, now))
                    && final(statistics_messages)@ == old(statistics_messages)@ + cleaning_messages(
                    config.statistics.peer_clients,
                    old(self)@,
                    ks,
                    now,
                ) && r.3@ == if config.statistics.torrent_peer_histograms {
                    histogram_counts(old(self)@, ks, now)
                } else {
                    Seq::<u64>::empty()
                },
            r.2 is Some <==> config.statistics.torrent_peer_histograms,
    {
        let mut opt_histogram: Option<PeerHistogram> = if config.statistics.torrent_peer_histograms {
            new_peer_histogram()
        } else {
            None
        };
        let ghost old_view = self@;
        let ghost old_shards = self.shards();
        let ghost msgs0 = statistics_messages@;
        let ghost mut ks: Seq<InfoHash> = Seq::empty();
        let ghost mut recorded: Seq<u64> = Seq::empty();
        let mut total_num_torrents: usize = 0;
        let mut total_num_peers: usize = 0;
        let n = self.0.len();
        let mut i: usize = 0;
        while i < n
            invariant
                n == old_shards.len(),
                n > 0,
                self.shards().len() == n,
                0 <= i <= n,
                forall|j: int, k: InfoHash|
                    0 <= j < n && #[trigger] old_shards[j].dom().contains(k) ==> j == shard_index(n as int, k)
                        && old_shards[j][k].peer_map.wf(),
                forall|k: InfoHash| #[trigger] old_view.dom().contains(k) <==> old_shards[shard_index(n as int, k)].dom().contains(k),
                forall|k: InfoHash| old_view.dom().contains(k) ==> #[trigger] old_view[k] == old_shards[shard_index(n as int, k)][k],
                forall|j: int| i <= j < n ==> #[trigger] self.shards()[j] == old_shards[j],
                forall|j: int, k: InfoHash|
                    0 <= j < i ==> (#[trigger] self.shards()[j].dom().contains(k) <==> old_shards[j].dom().contains(k)
                        && torrent_kept(old_view[k], access_list@, access_list_mode, now, k)),
                forall|j: int, k: InfoHash|
                    0 <= j < i && #[trigger] self.shards()[j].dom().contains(k) ==> torrent_cleaned(
                        old_view[k],
                        self.shards()[j][k],
                        now,
                    ),
                ks.no_duplicates(),
                forall|k: InfoHash|
                    #![trigger ks.contains(k)]
                    #![trigger old_view.dom().contains(k)]
                    ks.contains(k) <==> old_view.dom().contains(k) && shard_index(n as int, k) < i,
                total_num_peers == clamp_usize(valid_peer_total(old_view, ks, now)),
                statistics_messages@ == msgs0 + cleaning_messages(config.statistics.peer_clients, old_view, ks, now),
                total_num_torrents == clamp_usize(total_len(self.shards().take(i as int))),
                opt_histogram is Some <==> config.statistics.torrent_peer_histograms,
                recorded == if config.statistics.torrent_peer_histograms {
                    histogram_counts(old_view, ks, now)
                } else {
                    Seq::<u64>::empty()
                },
            decreases n - i,
        {
            let ghost before_shards = self.shards();
            let ghost pre_i = torrent_map_shard(self.0@[i as int]);
            proof {
                assert(pre_i == before_shards[i as int]);
                assert(pre_i == old_shards[i as int]);
                assert forall|k: InfoHash| #[trigger] torrent_map_shard(self.0@[i as int]).dom().contains(k) implies old_view.dom().contains(k)
                    && old_view[k] == torrent_map_shard(self.0@[i as int])[k] && old_view[k].peer_map.wf() by {
                    assert(before_shards[i as int] == old_shards[i as int]);
                    assert(old_shards[i as int].dom().contains(k));
                }
            }
            let (num_peers, Ghost(ks_i), Ghost(recorded_i)) = clean_shard(
                &mut self.0[i],
                config,
                statistics_messages,
                &mut opt_histogram,
                access_list,
                access_list_mode,
                now,
                Ghost(old_view),
            );
            let shard_torrents = shard_len(&self.0[i]);
            total_num_peers = total_num_peers.saturating_add(num_peers);
            total_num_torrents = total_num_torrents.saturating_add(shard_torrents);
            proof {
                assert(self.shards() == before_shards.update(i as int, torrent_map_shard(self.0@[i as int])));
                lemma_valid_peer_total_append(old_view, ks, ks_i, now);
                lemma_histogram_counts_append(old_view, ks, ks_i, now);
                lemma_cleaning_messages_append(config.statistics.peer_clients, old_view, ks, ks_i, now);
                assert forall|k: InfoHash| ks_i.contains(k) implies shard_index(n as int, k) == i by {
                    assert(pre_i.dom().contains(k));
                }
                assert forall|x: int, y: int| 0 <= x < y < (ks + ks_i).len() implies (ks + ks_i)[x] != (ks + ks_i)[y] by {
                    if x < ks.len() && y >= ks.len() {
                        assert(ks.contains((ks + ks_i)[x]));
                        assert(ks_i.contains((ks + ks_i)[y]));
                    } else if x >= ks.len() {
                        assert((ks + ks_i)[x] == ks_i[x - ks.len()]);
                        assert((ks + ks_i)[y] == ks_i[y - ks.len()]);
                    } else {
                        assert((ks + ks_i)[x] == ks[x]);
                        assert((ks + ks_i)[y] == ks[y]);
                    }
                }
                assert forall|k: InfoHash|
                    #![trigger (ks + ks_i).contains(k)]
                    #![trigger old_view.dom().contains(k)]
                    (ks + ks_i).contains(k) <==> old_view.dom().contains(k) && shard_index(n as int, k) < i + 1 by {
                    if (ks + ks_i).contains(k) {
                        let x = choose|x: int| 0 <= x < (ks + ks_i).len() && (ks + ks_i)[x] == k;
                        if x < ks.len() {
                            assert(ks.contains(k));
                        } else {
                            assert(ks_i.contains(ks_i[x - ks.len()]));
                        }
                    }
                    if old_view.dom().contains(k) && shard_index(n as int, k) < i + 1 {
                        if shard_index(n as int, k) < i {
                            assert(ks.contains(k));
                            let x = choose|x: int| 0 <= x < ks.len() && ks[x] == k;
                            assert((ks + ks_i)[x] == k);
                        } else {
                            assert(pre_i.dom().contains(k));
                            assert(ks_i.contains(k));
                            let x = choose|x: int| 0 <= x < ks_i.len() && ks_i[x] == k;
                            assert((ks + ks_i)[ks.len() + x] == k);
                        }
                    }
                }
                assert(self.shards().take(i as int + 1).drop_last() =~= self.shards().take(i as int));
                assert(self.shards().take(i as int) =~= before_shards.take(i as int));
                assert(self.shards().take(i as int + 1).last() == torrent_map_shard(self.0@[i as int]));
                assert(total_len(self.shards().take(i as int + 1)) == total_len(before_shards.take(i as int))
                    + shard_torrents);
                ks = ks + ks_i;
                recorded = recorded + recorded_i;
            }
            i = i + 1;

        }
        proof {
            assert(self.shards().take(n as int) =~= self.shards());
            assert forall|j: int, k: InfoHash|
                0 <= j < self.shards().len() && #[trigger] self.shards()[j].dom().contains(k) implies j == shard_index(
                    self.shards().len() as int,
                    k,
                ) && self.shards()[j][k].peer_map.wf() by {
                assert(old_shards[j].dom().contains(k));
            }
            assert forall|k: InfoHash| #[trigger] self@.dom().contains(k) <==> old_view.dom().contains(k) && torrent_kept(
                old_view[k],
                access_list@,
                access_list_mode,
                now,
                k,
            ) by {
                let j = shard_index(n as int, k);
                assert(0 <= j < n);
                if self@.dom().contains(k) {
                    assert(self.shards()[j].dom().contains(k));
                }
                if old_view.dom().contains(k) && torrent_kept(old_view[k], access_list@, access_list_mode, now, k) {
                    assert(self.shards()[j].dom().contains(k));
                }
            }
            assert forall|k: InfoHash| #[trigger] self@.dom().contains(k) implies torrent_cleaned(old_view[k], self@[k], now) by {
                let j = shard_index(n as int, k);
                assert(self.shards()[j].dom().contains(k));
            }
            assert(enumerates(ks, old_view.dom()));
        }
        proof {
            if !config.statistics.torrent_peer_histograms {
                assert(recorded =~= Seq::<u64>::empty());
            }
        }
        (total_num_torrents, total_num_peers, opt_histogram, Ghost(recorded))
    }
}


/// The torrent and peer counts of one IP version
#[derive(Clone, Copy, Debug, PartialEq, Eq, Structural, Default)]
pub struct SwarmWorkerStatistics {
    pub torrents: usize,
    pub peers: usize,
}

/// What cleaning the torrents of both IP versions at `now` does: the
/// torrents are cleaned as `torrents_cleaned` says; the counts are those of
/// the torrents left and of the valid peers they had; the messages gain the
/// removed peers of the IPv4 torrents, then those of the IPv6 torrents, then
/// both peer count histograms exactly when statistics are active and
/// histograms are configured
pub open spec fn cleaned_with_statistics(
    config: Config,
    access_list: Set<[u8; 20]>,
    now: SecondsSinceServerStart,
    old: TorrentMaps,
    new: TorrentMaps,
    old_messages: Seq<StatisticsMessage>,
    new_messages: Seq<StatisticsMessage>,
    r: (SwarmWorkerStatistics, SwarmWorkerStatistics),
) -> bool {
    &&& torrents_cleaned(old.ipv4_torrents(), new.ipv4_torrents(), access_list, config.access_list.mode, now)
    &&& torrents_cleaned(old.ipv6_torrents(), new.ipv6_torrents(), access_list, config.access_list.mode, now)
    &&& r.0.torrents == clamp_usize(total_len(new.ipv4_torrents().shards()))
    &&& r.1.torrents == clamp_usize(total_len(new.ipv6_torrents().shards()))
    &&& exists|ks4: Seq<InfoHash>, ks6: Seq<InfoHash>, hs: Seq<StatisticsMessage>|
        {
            &&& enumerates(ks4, old.ipv4_torrents()@.dom())
            &&& enumerates(ks6, old.ipv6_torrents()@.dom())
            &&& r.0.peers == clamp_usize(valid_peer_total(old.ipv4_torrents()@, ks4, now))
            &&& r.1.peers == clamp_usize(valid_peer_total(old.ipv6_torrents()@, ks6, now))
            &&& hs.len() == (if config.statistics.spec_active() && config.statistics.torrent_peer_histograms {
                2int
            } else {
                0int
            })
            &&& (hs.len() == 2 ==> hs[0] is Ipv4PeerHistogram && hs[1] is Ipv6PeerHistogram)
            &&& new_messages == old_messages + cleaning_messages(
                config.statistics.peer_clients,
                old.ipv4_torrents()@,
                ks4,
                now,
            ) + cleaning_messages(config.statistics.peer_clients, old.ipv6_torrents()@, ks6, now) + hs
        }
}

/// The torrents of both IP versions
pub struct TorrentMaps {
    ipv4: TorrentMapShards,
    ipv6: TorrentMapShards,
}

impl Default for TorrentMaps {
    fn default() -> (r: Self)
        ensures
            r.wf(),
            r.ipv4_torrents()@ == Map::<InfoHash, TorrentData>::empty(),
            r.ipv6_torrents()@ == Map::<InfoHash, TorrentData>::empty(),
            r.ipv4_torrents().shards().len() == NUM_SHARDS,
            r.ipv6_torrents().shards().len() == NUM_SHARDS,
    {
        Self { ipv4: TorrentMapShards::new(NUM_SHARDS), ipv6: TorrentMapShards::new(NUM_SHARDS) }
    }
}

impl TorrentMaps {
    pub closed spec fn ipv4_torrents(&self) -> TorrentMapShards {
        self.ipv4
    }

    pub closed spec fn ipv6_torrents(&self) -> TorrentMapShards {
        self.ipv6
    }

    pub open spec fn wf(&self) -> bool {
        self.ipv4_torrents().wf() && self.ipv6_torrents().wf()
    }

    /// The torrents of the IP version of an address
    pub open spec fn torrents_of(&self, src: CanonicalSocketAddr) -> Map<InfoHash, TorrentData> {
        if src@ is V4 {
            self.ipv4_torrents()@
        } else {
            self.ipv6_torrents()@
        }
    }

    /// What an announce from `src` does: it announces to the torrents of
    /// the address's IP version, as a peer of that version, answers with the
    /// response of that version, and leaves the other IP version's torrents
    /// as they are
    pub open spec fn announced(
        old: TorrentMaps,
        new: TorrentMaps,
        config: &Config,
        request: AnnounceRequest,
        src: CanonicalSocketAddr,
        valid_until: ValidUntil,
        r: Response,
        msgs_old: Seq<StatisticsMessage>,
        msgs_new: Seq<StatisticsMessage>,
    ) -> bool {
        &&& new.wf()
        &&& match src@.spec_ip() {
            IpAddr::V4(ip) => r matches Response::AnnounceIpv4(a) && new.ipv6_torrents() == old.ipv6_torrents()
                && torrents_announced::<Ipv4AddrBytes>(
                old.ipv4_torrents()@,
                new.ipv4_torrents()@,
                config,
                request,
                Ipv4AddrBytes(ip),
                valid_until,
                a,
                msgs_old,
                msgs_new,
            ),
            IpAddr::V6(ip) => r matches Response::AnnounceIpv6(a) && new.ipv4_torrents() == old.ipv4_torrents()
                && torrents_announced::<Ipv6AddrBytes>(
                old.ipv6_torrents()@,
                new.ipv6_torrents()@,
                config,
                request,
                Ipv6AddrBytes(ip),
                valid_until,
                a,
                msgs_old,
                msgs_new,
            ),
        }
    }

    /// Announce to the torrents of the IP version of the peer's address
    pub fn announce(
        &mut self,
        config: &Config,
        statistics_messages: &mut Vec<StatisticsMessage>,
        rng: &mut SmallRng,
        request: &AnnounceRequest,
        src: CanonicalSocketAddr,
        valid_until: ValidUntil,
    ) -> (r: Response)
        requires
            old(self).wf(),
        ensures
            final(self).wf(),
            TorrentMaps::announced(
                *old(self),
                *final(self),
                config,
                *request,
                src,
                valid_until,
                r,
                old(statistics_messages)@,
                final(statistics_messages)@,
            ),
            match r {
                Response::AnnounceIpv4(a) => a.peers@.len() <= config.protocol.max_response_peers,
                Response::AnnounceIpv6(a) => a.peers@.len() <= config.protocol.max_response_peers,
                _ => false,
            },
    {
        match src.get().ip() {
            IpAddr::V4(ip_address) => Response::AnnounceIpv4(
                self.ipv4.announce(config, statistics_messages, rng, request, Ipv4AddrBytes(ip_address), valid_until),
            ),
            IpAddr::V6(ip_address) => Response::AnnounceIpv6(
                self.ipv6.announce(config, statistics_messages, rng, request, Ipv6AddrBytes(ip_address), valid_until),
            ),
        }
    }

    /// Scrape the torrents of the IP version of the peer's address
    pub fn scrape(&self, request: ScrapeRequest, src: CanonicalSocketAddr) -> (r: ScrapeResponse)
        requires
            self.wf(),
        ensures
            r.transaction_id == request.transaction_id,
            r.torrent_stats@.len() == request.info_hashes@.len(),
            forall|i: int|
                0 <= i < r.torrent_stats@.len() ==> r.torrent_stats@[i] == torrent_statistics(
                    self.torrents_of(src),
                    request.info_hashes@[i],
                ),
    {
        if src.is_ipv4() {
            self.ipv4.scrape(request)
        } else {
            self.ipv6.scrape(request)
        }
    }

    /// Remove forbidden or inactive torrents, reclaim space and update
    /// statistics, as seen at `now`: cleans the IPv4 torrents, then the
    /// IPv6 ones, and, when statistics are active, adds each peer count
    /// histogram that was made to the messages. Returns the counts of both
    /// IP versions.
    pub fn clean_and_update_statistics_at(
        &mut self,
        config: &Config,
        statistics_messages: &mut Vec<StatisticsMessage>,
        access_list: &AccessList,
        now: SecondsSinceServerStart,
    ) -> (r: (SwarmWorkerStatistics, SwarmWorkerStatistics))
        requires
            old(self).wf(),
        ensures
            final(self).wf(),
            cleaned_with_statistics(
                *config,
                access_list@,
                now,
                *old(self),
                *final(self),
                old(statistics_messages)@,
                final(statistics_messages)@,
                r,
            ),
    {
        let ghost msgs0 = statistics_messages@;
        let mode = config.access_list.mode;
        let ipv4 = self.ipv4.clean_and_get_statistics(config, statistics_messages, access_list, mode, now);
        let ghost mid = statistics_messages@;
        let ipv6 = self.ipv6.clean_and_get_statistics(config, statistics_messages, access_list, mode, now);
        let ghost after_clean = statistics_messages@;
        let (ipv4_torrents, ipv4_peers, ipv4_histogram, _) = ipv4;
        let (ipv6_torrents, ipv6_peers, ipv6_histogram, _) = ipv6;
        if config.statistics.active() {
            if let Some(histogram) = ipv4_histogram {
                statistics_messages.push(StatisticsMessage::Ipv4PeerHistogram(histogram));
            }
            if let Some(histogram) = ipv6_histogram {
                statistics_messages.push(StatisticsMessage::Ipv6PeerHistogram(histogram));
            }
        }
        proof {
            let hs = statistics_messages@.subrange(after_clean.len() as int, statistics_messages@.len() as int);
            assert(statistics_messages@ =~= after_clean + hs);
            let ks4 = choose|ks4: Seq<InfoHash>|
                enumerates(ks4, old(self).ipv4_torrents()@.dom()) && ipv4_peers == clamp_usize(
                    valid_peer_total(old(self).ipv4_torrents()@, ks4, now),
                ) && mid == msgs0 + cleaning_messages(
                    config.statistics.peer_clients,
                    old(self).ipv4_torrents()@,
                    ks4,
                    now,
                );
            let ks6 = choose|ks6: Seq<InfoHash>|
                enumerates(ks6, old(self).ipv6_torrents()@.dom()) && ipv6_peers == clamp_usize(
                    valid_peer_total(old(self).ipv6_torrents()@, ks6, now),
                ) && after_clean == mid + cleaning_messages(
                    config.statistics.peer_clients,
                    old(self).ipv6_torrents()@,
                    ks6,
                    now,
                );
            assert(statistics_messages@ =~= msgs0 + cleaning_messages(
                config.statistics.peer_clients,
                old(self).ipv4_torrents()@,
                ks4,
                now,
            ) + cleaning_messages(config.statistics.peer_clients, old(self).ipv6_torrents()@, ks6, now) + hs);
        }
        (
            SwarmWorkerStatistics { torrents: ipv4_torrents, peers: ipv4_peers },
            SwarmWorkerStatistics { torrents: ipv6_torrents, peers: ipv6_peers },
        )
    }

    /// Remove forbidden or inactive torrents, reclaim space and update
    /// statistics, as seen now: the time since the server started is read
    /// from the clock, and the rest is `clean_and_update_statistics_at`.
    pub fn clean_and_update_statistics(
        &mut self,
        config: &Config,
        statistics_messages: &mut Vec<StatisticsMessage>,
        access_list: &AccessList,
        server_start_instant: ServerStartInstant,
    ) -> (r: (SwarmWorkerStatistics, SwarmWorkerStatistics))
        requires
            old(self).wf(),
        ensures
            final(self).wf(),
            exists|now: SecondsSinceServerStart|
                #[trigger] cleaned_with_statistics(
                    *config,
                    access_list@,
                    now,
                    *old(self),
                    *final(self),
                    old(statistics_messages)@,
                    final(statistics_messages)@,
                    r,
                ),
    {
        let now = server_start_instant.seconds_elapsed();
        self.clean_and_update_statistics_at(config, statistics_messages, access_list, now)
    }
}


/// The announce response does not count the announcing peer, a scrape right
/// after a non-stopped announce does: it reports one peer more, and one
/// seeder more exactly when the peer has nothing left to download (as long
/// as the counts fit in an `i32`).
pub proof fn law_scrape_after_announce_counts_peer<I: Ip>(
    old: Map<InfoHash, TorrentData>,
    new: Map<InfoHash, TorrentData>,
    config: &Config,
    request: AnnounceRequest,
    ip_address: I,
    valid_until: ValidUntil,
    r: AnnounceResponse<I>,
    msgs_old: Seq<StatisticsMessage>,
    msgs_new: Seq<StatisticsMessage>,
)
    requires
        torrents_announced::<I>(old, new, config, request, ip_address, valid_until, r, msgs_old, msgs_new),
        !(request.event is Stopped),
        entries_before(old, request.info_hash).len() < i32::MAX,
    ensures
        ({
            let stats = torrent_statistics(new, request.info_hash);
            &&& stats.seeders.0 + stats.leechers.0 == r.fixed.seeders.0 + r.fixed.leechers.0 + 1
            &&& stats.seeders.0 == r.fixed.seeders.0 + if request.bytes_left.0 == 0 { 1int } else { 0 }
        }),
{
    let ih = request.info_hash;
    let e = entries_before(old, ih);
    let key = crate::udp::swarm::peer_map_key(ip_address, request.port);
    let rest = crate::udp::swarm::rest_after_removal_of(e, small_before(old, ih), key);
    let status = crate::udp::swarm::PeerStatus::spec_from_event_and_bytes_left(request.event, request.bytes_left);
    let peer = Peer { peer_id: request.peer_id, is_seeder: status is Seeding, valid_until };
    assert(new[ih].peer_map.entries() == rest.push((key, peer)));
    crate::collections::lemma_count_add(rest, seq![(key, peer)], crate::udp::swarm::seeder_pred());
    crate::collections::lemma_count_single((key, peer), crate::udp::swarm::seeder_pred());
    assert(rest.push((key, peer)) =~= rest + seq![(key, peer)]);
    crate::collections::lemma_count_le_len(rest, crate::udp::swarm::seeder_pred());
    crate::collections::lemma_count_le_len(rest.push((key, peer)), crate::udp::swarm::seeder_pred());
    assert(rest.len() <= e.len()) by {
        crate::collections::lemma_no_key_index(e, key);
    }
}

} // verus!
