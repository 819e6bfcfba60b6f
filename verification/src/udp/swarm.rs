//! The peers of one torrent: a small inline map for torrents with few
//! peers, an insertion-ordered map for the others, and the announce logic
//! that both share.

use vstd::prelude::*;

use arrayvec::ArrayVec;
use indexmap::IndexMap;
use rand::rngs::SmallRng;

use crate::collections::{
    count_where, dropped_where, gen_range_usize, has_key, key_index, keys_unique,
    lemma_count_le_len, lemma_count_remove, lemma_count_swap_removed, lemma_key_index,
    lemma_no_key_index, lemma_remove_keys_unique, lemma_retain_keys_unique, lemma_retain_split,
    lemma_swap_removed_keys_unique, retain_where, swap_removed, PeerMapKey,
};
use crate::common::{SecondsSinceServerStart, ValidUntil};
use crate::udp::common::StatisticsMessage;
use crate::udp::config::Config;
use crate::udp::protocol::{
    AnnounceEvent, AnnounceInterval, AnnounceRequest, AnnounceResponse,
    AnnounceResponseFixedData, Ip, NumberOfBytes, NumberOfDownloads, NumberOfPeers, PeerId, Port,
    ResponsePeer, TorrentScrapeStatistics,
};

verus! {

pub const SMALL_PEER_MAP_CAPACITY: usize = 2;

#[derive(Clone, Copy, Debug)]
pub struct Peer {
    pub peer_id: PeerId,
    pub is_seeder: bool,
    pub valid_until: ValidUntil,
}

pub open spec fn seeder_pred() -> spec_fn(Peer) -> bool {
    |p: Peer| p.is_seeder
}

pub open spec fn valid_pred(now: SecondsSinceServerStart) -> spec_fn(Peer) -> bool {
    |p: Peer| p.valid_until.spec_valid(now)
}

/// Number of seeders among the entries
pub open spec fn num_seeders(s: Seq<(PeerMapKey, Peer)>) -> nat {
    count_where(s, seeder_pred())
}

/// The count, or `i32::MAX` if it does not fit
pub open spec fn clamp_i32(n: int) -> i32 {
    if n > i32::MAX { i32::MAX } else { n as i32 }
}

pub fn usize_to_i32_saturating(n: usize) -> (r: i32)
    ensures
        r == clamp_i32(n as int),
{
    if n > i32::MAX as usize {
        i32::MAX
    } else {
        n as i32
    }
}

/// The response peer that a peer map key stands for
pub open spec fn response_peer_of<I: Ip>(k: PeerMapKey) -> ResponsePeer<I> {
    ResponsePeer { ip_address: I::spec_from_bits(k.0), port: Port(k.1) }
}

pub open spec fn response_peers_of<I: Ip>(s: Seq<(PeerMapKey, Peer)>) -> Seq<ResponsePeer<I>> {
    s.map_values(|e: (PeerMapKey, Peer)| response_peer_of::<I>(e.0))
}

/// The peer map key of an IP address and port
pub open spec fn peer_map_key<I: Ip>(ip: I, port: Port) -> PeerMapKey {
    (ip.spec_bits(), port.0)
}

pub fn response_peer_from_key<I: Ip>(k: PeerMapKey) -> (r: ResponsePeer<I>)
    ensures
        r == response_peer_of::<I>(k),
{
    ResponsePeer { ip_address: I::from_bits(k.0), port: Port(k.1) }
}

pub open spec fn max_usize(a: int, b: int) -> int {
    if a > b { a } else { b }
}

/// Whether the two offsets are ones that a random selection of response
/// peers from `len` peers, at most `max` of them, can pick: the first in
/// the first half, the second in the second half
pub open spec fn valid_offsets(len: int, max: int, o1: int, o2: int) -> bool {
    let mid = len / 2;
    let h = max / 2;
    &&& 0 <= o1 < max_usize(1, mid - h)
    &&& mid <= o2 < max_usize(mid + 1, len - h)
}

/// The entries that a selection starting at the two offsets takes: half of
/// the maximum from each offset
pub open spec fn selected_entries<V>(s: Seq<V>, max: int, o1: int, o2: int) -> Seq<V> {
    s.subrange(o1, o1 + max / 2) + s.subrange(o2, o2 + max / 2)
}

/// The response peers of a large peer map with the entries: all of them if
/// they are at most `max`, else a selection at some valid offsets
pub open spec fn large_selection<I: Ip>(s: Seq<(PeerMapKey, Peer)>, max: int, r: Seq<ResponsePeer<I>>) -> bool {
    if s.len() <= max {
        r == response_peers_of::<I>(s)
    } else {
        exists|o1: int, o2: int|
            valid_offsets(s.len() as int, max, o1, o2) && r == response_peers_of::<I>(
                selected_entries(s, max, o1, o2),
            )
    }
}

/// `PeerRemoved` messages for the peers of the entries
pub open spec fn removed_messages(s: Seq<(PeerMapKey, Peer)>) -> Seq<StatisticsMessage> {
    s.map_values(|e: (PeerMapKey, Peer)| StatisticsMessage::PeerRemoved(e.1.peer_id))
}

// ---------------------------------------------------------------------
// The inline map: an `arrayvec::ArrayVec` of capacity two

/// The entries of a small peer map's `ArrayVec`, in order
pub uninterp spec fn small_peer_entries(v: ArrayVec<(PeerMapKey, Peer), 2>) -> Seq<(PeerMapKey, Peer)>;

/// An empty `ArrayVec` (`ArrayVec::new`)
#[verifier::external_body]
fn small_new() -> (r: ArrayVec<(PeerMapKey, Peer), 2>)
    ensures
        small_peer_entries(r) == Seq::<(PeerMapKey, Peer)>::empty(),
{
    ArrayVec::new()
}

/// `ArrayVec::len`: the number of entries, which is at most the capacity
#[verifier::external_body]
fn small_len(v: &ArrayVec<(PeerMapKey, Peer), 2>) -> (r: usize)
    ensures
        r == small_peer_entries(*v).len(),
        r <= 2,
{
    v.len()
}

/// The entry at an index (indexing the `ArrayVec`)
#[verifier::external_body]
fn small_get(v: &ArrayVec<(PeerMapKey, Peer), 2>, i: usize) -> (r: (PeerMapKey, Peer))
    requires
        i < small_peer_entries(*v).len(),
    ensures
        r == small_peer_entries(*v)[i as int],
{
    v[i]
}

/// `ArrayVec::push`, which panics when the vector is full: appends the entry
#[verifier::external_body]
fn small_push(v: &mut ArrayVec<(PeerMapKey, Peer), 2>, e: (PeerMapKey, Peer))
    requires
        small_peer_entries(*old(v)).len() < 2,
    ensures
        small_peer_entries(*final(v)) == small_peer_entries(*old(v)).push(e),
{
    v.push(e)
}

/// `ArrayVec::remove`, which panics on an index out of bounds: removes the
/// entry at the index, shifting the later ones down, and returns it
#[verifier::external_body]
fn small_remove(v: &mut ArrayVec<(PeerMapKey, Peer), 2>, i: usize) -> (r: (PeerMapKey, Peer))
    requires
        i < small_peer_entries(*old(v)).len(),
    ensures
        r == small_peer_entries(*old(v))[i as int],
        small_peer_entries(*final(v)) == small_peer_entries(*old(v)).remove(i as int),
{
    v.remove(i)
}

/// `ArrayVec::retain` keeping the peers still valid at `now`: the retained
/// entries keep their order
#[verifier::external_body]
fn small_retain_valid(v: &mut ArrayVec<(PeerMapKey, Peer), 2>, now: SecondsSinceServerStart)
    ensures
        small_peer_entries(*final(v)) == retain_where(small_peer_entries(*old(v)), valid_pred(now)),
{
    v.retain(|e| e.1.valid_until.valid(now))
}

/// Store torrents with up to two peers without an extra heap allocation
///
/// On public open trackers, this is likely to be the majority of torrents.
pub struct SmallPeerMap(ArrayVec<(PeerMapKey, Peer), 2>);

impl SmallPeerMap {
    pub closed spec fn entries(&self) -> Seq<(PeerMapKey, Peer)> {
        small_peer_entries(self.0)
    }

    pub open spec fn wf(&self) -> bool {
        &&& self.entries().len() <= SMALL_PEER_MAP_CAPACITY
        &&& keys_unique(self.entries())
    }

    pub fn new() -> (r: Self)
        ensures
            r.entries() == Seq::<(PeerMapKey, Peer)>::empty(),
            r.wf(),
    {
        SmallPeerMap(small_new())
    }

    pub fn len(&self) -> (r: usize)
        ensures
            r == self.entries().len(),
            r <= SMALL_PEER_MAP_CAPACITY,
    {
        small_len(&self.0)
    }

    pub fn is_full(&self) -> (r: bool)
        ensures
            r == (self.entries().len() == SMALL_PEER_MAP_CAPACITY),
    {
        small_len(&self.0) == SMALL_PEER_MAP_CAPACITY
    }

    pub fn num_seeders_leechers(&self) -> (r: (usize, usize))
        ensures
            r.0 == num_seeders(self.entries()),
            r.1 == self.entries().len() - num_seeders(self.entries()),
    {
        let len = small_len(&self.0);
        let mut seeders: usize = 0;
        let mut i: usize = 0;
        while i < len
            invariant
                len == self.entries().len(),
                len <= 2,
                0 <= i <= len,
                seeders == num_seeders(self.entries().take(i as int)),
                seeders <= i,
            decreases len - i,
        {
            let e = small_get(&self.0, i);
            assert(self.entries().take(i + 1).drop_last() =~= self.entries().take(i as int));
            if e.1.is_seeder {
                seeders = seeders + 1;
            }
            i = i + 1;
        }
        assert(self.entries().take(len as int) =~= self.entries());
        proof {
            lemma_count_le_len(self.entries(), seeder_pred());
        }
        (seeders, len - seeders)
    }

    pub fn insert(&mut self, key: PeerMapKey, peer: Peer)
        requires
            old(self).wf(),
            old(self).entries().len() < SMALL_PEER_MAP_CAPACITY,
            !has_key(old(self).entries(), key),
        ensures
            final(self).entries() == old(self).entries().push((key, peer)),
            final(self).wf(),
    {
        small_push(&mut self.0, (key, peer));
    }

    pub fn remove(&mut self, key: &PeerMapKey) -> (r: Option<Peer>)
        requires
            old(self).wf(),
        ensures
            final(self).wf(),
            has_key(old(self).entries(), *key) ==> r == Some(
                old(self).entries()[key_index(old(self).entries(), *key)].1,
            ) && final(self).entries() == old(self).entries().remove(
                key_index(old(self).entries(), *key),
            ),
            !has_key(old(self).entries(), *key) ==> r is None && final(self).entries() == old(self).entries(),
            !has_key(final(self).entries(), *key),
    {
        let len = small_len(&self.0);
        let mut i: usize = 0;
        while i < len
            invariant
                len == self.entries().len(),
                self.entries() == old(self).entries(),
                self.wf(),
                0 <= i <= len,
                forall|j: int| 0 <= j < i ==> self.entries()[j].0 != *key,
            decreases len - i,
        {
            let e = small_get(&self.0, i);
            if e.0.0 == key.0 && e.0.1 == key.1 {
                proof {
                    lemma_key_index(self.entries(), *key, i as int);
                    lemma_remove_keys_unique(self.entries(), i as int);
                }
                let removed = small_remove(&mut self.0, i);
                assert(!has_key(self.entries(), *key));
                return Some(removed.1);
            }
            i = i + 1;
        }
        None
    }

    pub fn extract_response_peers<I: Ip>(&self, max_num_peers_to_take: usize) -> (r: Vec<ResponsePeer<I>>)
        ensures
            r@ == response_peers_of::<I>(
                self.entries().take(
                    if max_num_peers_to_take < self.entries().len() {
                        max_num_peers_to_take as int
                    } else {
                        self.entries().len() as int
                    },
                ),
            ),
    {
        let len = small_len(&self.0);
        let n = if max_num_peers_to_take < len { max_num_peers_to_take } else { len };
        let mut peers: Vec<ResponsePeer<I>> = Vec::new();
        let mut i: usize = 0;
        while i < n
            invariant
                len == self.entries().len(),
                n <= len,
                0 <= i <= n,
                peers@ == response_peers_of::<I>(self.entries().take(i as int)),
            decreases n - i,
        {
            let e = small_get(&self.0, i);
            peers.push(response_peer_from_key::<I>(e.0));
            assert(response_peers_of::<I>(self.entries().take(i + 1)) =~= response_peers_of::<I>(
                self.entries().take(i as int),
            ).push(response_peer_of::<I>(e.0)));
            i = i + 1;
        }
        peers
    }

    pub fn clean_and_get_num_peers(
        &mut self,
        config: &Config,
        statistics_messages: &mut Vec<StatisticsMessage>,
        now: SecondsSinceServerStart,
    ) -> (r: usize)
        requires
            old(self).wf(),
        ensures
            final(self).wf(),
            final(self).entries() == retain_where(old(self).entries(), valid_pred(now)),
            r == final(self).entries().len(),
            final(statistics_messages)@ == old(statistics_messages)@ + if config.statistics.peer_clients {
                removed_messages(dropped_where(old(self).entries(), valid_pred(now)))
            } else {
                Seq::<StatisticsMessage>::empty()
            },
    {
        let len = small_len(&self.0);
        let ghost start = statistics_messages@;
        let mut i: usize = 0;
        while i < len
            invariant
                len == self.entries().len(),
                self.entries() == old(self).entries(),
                0 <= i <= len,
                statistics_messages@ == start + if config.statistics.peer_clients {
                    removed_messages(dropped_where(self.entries().take(i as int), valid_pred(now)))
                } else {
                    Seq::<StatisticsMessage>::empty()
                },
            decreases len - i,
        {
            let e = small_get(&self.0, i);
            let ghost pre = self.entries().take(i as int);
            assert(self.entries().take(i + 1).drop_last() =~= pre);
            if !e.1.valid_until.valid(now) && config.statistics.peer_clients {
                statistics_messages.push(StatisticsMessage::PeerRemoved(e.1.peer_id));
                assert(removed_messages(dropped_where(pre, valid_pred(now)).push(e)) =~= removed_messages(
                    dropped_where(pre, valid_pred(now)),
                ).push(StatisticsMessage::PeerRemoved(e.1.peer_id)));
            }
            i = i + 1;
        }
        assert(self.entries().take(len as int) =~= self.entries());
        proof {
            lemma_retain_keys_unique(self.entries(), valid_pred(now));
            lemma_retain_split(self.entries(), valid_pred(now), seeder_pred());
        }
        small_retain_valid(&mut self.0, now);
        small_len(&self.0)
    }

    pub fn to_large(&self) -> (r: LargePeerMap)
        requires
            self.wf(),
        ensures
            r.wf(),
            r.entries() == self.entries(),
    {
        let len = small_len(&self.0);
        let mut large = LargePeerMap::new();
        let mut i: usize = 0;
        while i < len
            invariant
                len == self.entries().len(),
                self.wf(),
                0 <= i <= len,
                large.wf(),
                large.entries() == self.entries().take(i as int),
            decreases len - i,
        {
            let e = small_get(&self.0, i);
            assert(!has_key(large.entries(), e.0)) by {
                if has_key(large.entries(), e.0) {
                    let j = choose|j: int| 0 <= j < large.entries().len() && large.entries()[j].0 == e.0;
                    assert(self.entries()[j].0 == self.entries()[i as int].0);
                }
            }
            large.insert(e.0, e.1);
            assert(self.entries().take(i + 1) =~= self.entries().take(i as int).push(e));
            i = i + 1;
        }
        assert(self.entries().take(len as int) =~= self.entries());
        large
    }
}

// ---------------------------------------------------------------------
// The ordered map: an `indexmap::IndexMap`

/// The entries of a large peer map's `IndexMap`, in the map's order
pub uninterp spec fn large_peer_entries(m: IndexMap<PeerMapKey, Peer, ahash::RandomState>) -> Seq<
    (PeerMapKey, Peer),
>;

/// An empty `IndexMap` (`IndexMap::default`)
#[verifier::external_body]
fn large_new() -> (r: IndexMap<PeerMapKey, Peer, ahash::RandomState>)
    ensures
        large_peer_entries(r) == Seq::<(PeerMapKey, Peer)>::empty(),
{
    IndexMap::default()
}

/// `IndexMap::len`: the number of entries
#[verifier::external_body]
fn large_len(m: &IndexMap<PeerMapKey, Peer, ahash::RandomState>) -> (r: usize)
    ensures
        r == large_peer_entries(*m).len(),
{
    m.len()
}

/// The entry at an index in the map's order (`IndexMap::get_index`)
#[verifier::external_body]
fn large_get_index(m: &IndexMap<PeerMapKey, Peer, ahash::RandomState>, i: usize) -> (r: (PeerMapKey, Peer))
    requires
        i < large_peer_entries(*m).len(),
    ensures
        r == large_peer_entries(*m)[i as int],
{
    let (k, v) = m.get_index(i).unwrap();
    (*k, *v)
}

/// `IndexMap::insert` of a key that the map does not hold: the entry is
/// appended last in order
#[verifier::external_body]
fn large_insert(m: &mut IndexMap<PeerMapKey, Peer, ahash::RandomState>, k: PeerMapKey, v: Peer)
    requires
        keys_unique(large_peer_entries(*old(m))),
        !has_key(large_peer_entries(*old(m)), k),
    ensures
        large_peer_entries(*final(m)) == large_peer_entries(*old(m)).push((k, v)),
{
    m.insert(k, v);
}

/// `IndexMap::swap_remove`: removes the entry with the key, if any, by
/// moving the last entry into its place, and returns its value
#[verifier::external_body]
fn large_swap_remove(m: &mut IndexMap<PeerMapKey, Peer, ahash::RandomState>, k: &PeerMapKey) -> (r: Option<Peer>)
    requires
        keys_unique(large_peer_entries(*old(m))),
    ensures
        has_key(large_peer_entries(*old(m)), *k) ==> r == Some(
            large_peer_entries(*old(m))[key_index(large_peer_entries(*old(m)), *k)].1,
        ) && large_peer_entries(*final(m)) == swap_removed(
            large_peer_entries(*old(m)),
            key_index(large_peer_entries(*old(m)), *k),
        ),
        !has_key(large_peer_entries(*old(m)), *k) ==> r is None && large_peer_entries(*final(m))
            == large_peer_entries(*old(m)),
{
    m.swap_remove(k)
}

/// `IndexMap::retain` keeping the peers still valid at `now`: the retained
/// entries keep their order
#[verifier::external_body]
fn large_retain_valid(m: &mut IndexMap<PeerMapKey, Peer, ahash::RandomState>, now: SecondsSinceServerStart)
    ensures
        large_peer_entries(*final(m)) == retain_where(large_peer_entries(*old(m)), valid_pred(now)),
{
    m.retain(|_, peer| peer.valid_until.valid(now))
}

/// `IndexMap::shrink_to_fit`: the entries stay as they are
#[verifier::external_body]
fn large_shrink_to_fit(m: &mut IndexMap<PeerMapKey, Peer, ahash::RandomState>)
    ensures
        large_peer_entries(*final(m)) == large_peer_entries(*old(m)),
{
    m.shrink_to_fit()
}

pub struct LargePeerMap {
    peers: IndexMap<PeerMapKey, Peer, ahash::RandomState>,
    num_seeders: usize,
}

impl LargePeerMap {
    pub closed spec fn entries(&self) -> Seq<(PeerMapKey, Peer)> {
        large_peer_entries(self.peers)
    }

    pub closed spec fn wf(&self) -> bool {
        &&& keys_unique(self.entries())
        &&& self.num_seeders == num_seeders(self.entries())
    }

    pub fn new() -> (r: Self)
        ensures
            r.wf(),
            r.entries() == Seq::<(PeerMapKey, Peer)>::empty(),
    {
        LargePeerMap { peers: large_new(), num_seeders: 0 }
    }

    pub fn len(&self) -> (r: usize)
        ensures
            r == self.entries().len(),
    {
        large_len(&self.peers)
    }

    pub fn num_seeders_leechers(&self) -> (r: (usize, usize))
        requires
            self.wf(),
        ensures
            r.0 == num_seeders(self.entries()),
            r.1 == self.entries().len() - num_seeders(self.entries()),
    {
        proof {
            lemma_count_le_len(self.entries(), seeder_pred());
        }
        (self.num_seeders, large_len(&self.peers) - self.num_seeders)
    }

    pub fn insert(&mut self, key: PeerMapKey, peer: Peer)
        requires
            old(self).wf(),
            !has_key(old(self).entries(), key),
        ensures
            final(self).wf(),
            final(self).entries() == old(self).entries().push((key, peer)),
    {
        let ghost e = self.entries();
        assert(e.push((key, peer)).drop_last() =~= e);
        proof {
            lemma_count_le_len(e, seeder_pred());
        }
        large_insert(&mut self.peers, key, peer);
        let _new_len = large_len(&self.peers);
        if peer.is_seeder {
            self.num_seeders = self.num_seeders + 1;
        }
        assert(keys_unique(self.entries())) by {
            assert forall|i: int, j: int|
                0 <= i < self.entries().len() && 0 <= j < self.entries().len() && i != j implies
                self.entries()[i].0 != self.entries()[j].0 by {
                if i == e.len() {
                    assert(!has_key(e, key));
                    assert(e[j].0 != key);
                } else if j == e.len() {
                    assert(e[i].0 != key);
                }
            }
        }
    }

    pub fn remove_peer(&mut self, key: &PeerMapKey) -> (r: Option<Peer>)
        requires
            old(self).wf(),
        ensures
            final(self).wf(),
            has_key(old(self).entries(), *key) ==> r == Some(
                old(self).entries()[key_index(old(self).entries(), *key)].1,
            ) && final(self).entries() == swap_removed(
                old(self).entries(),
                key_index(old(self).entries(), *key),
            ),
            !has_key(old(self).entries(), *key) ==> r is None && final(self).entries() == old(self).entries(),
            !has_key(final(self).entries(), *key),
    {
        let ghost e = self.entries();
        proof {
            lemma_no_key_index(e, *key);
            if has_key(e, *key) {
                lemma_count_swap_removed(e, key_index(e, *key), seeder_pred());
                lemma_swap_removed_keys_unique(e, key_index(e, *key));
            }
        }
        let opt_removed_peer = large_swap_remove(&mut self.peers, key);
        if let Some(peer) = opt_removed_peer {
            if peer.is_seeder {
                self.num_seeders = self.num_seeders - 1;
            }
        }
        opt_removed_peer
    }

    /// Extract response peers
    ///
    /// If there are more peers in map than `max_num_peers_to_take`, do a
    /// random selection of peers from first and second halves of map in
    /// order to avoid returning too homogeneous peers.
    ///
    /// Does NOT filter out announcing peer.
    pub fn extract_response_peers<I: Ip>(&self, rng: &mut SmallRng, max_num_peers_to_take: usize) -> (r: Vec<
        ResponsePeer<I>,
    >)
        ensures
            large_selection::<I>(self.entries(), max_num_peers_to_take as int, r@),
    {
        let len = large_len(&self.peers);
        if len <= max_num_peers_to_take {
            let mut peers: Vec<ResponsePeer<I>> = Vec::new();
            let mut i: usize = 0;
            while i < len
                invariant
                    len == self.entries().len(),
                    0 <= i <= len,
                    peers@ == response_peers_of::<I>(self.entries().take(i as int)),
                decreases len - i,
            {
                let e = large_get_index(&self.peers, i);
                peers.push(response_peer_from_key::<I>(e.0));
                assert(response_peers_of::<I>(self.entries().take(i + 1)) =~= response_peers_of::<I>(
                    self.entries().take(i as int),
                ).push(response_peer_of::<I>(e.0)));
                i = i + 1;
            }
            assert(self.entries().take(len as int) =~= self.entries());
            peers
        } else {
            let middle_index = len / 2;
            let num_to_take_per_half = max_num_peers_to_take / 2;

            let offset_half_one = {
                let from: usize = 0;
                let to = if 1 > middle_index - num_to_take_per_half {
                    1
                } else {
                    middle_index - num_to_take_per_half
                };
                gen_range_usize(rng, from, to)
            };
            let offset_half_two = {
                let from = middle_index;
                let to = if middle_index + 1 > len - num_to_take_per_half {
                    middle_index + 1
                } else {
                    len - num_to_take_per_half
                };
                gen_range_usize(rng, from, to)
            };

            let end_half_one = offset_half_one + num_to_take_per_half;
            let end_half_two = offset_half_two + num_to_take_per_half;
            assert(end_half_one <= len);
            assert(end_half_two <= len);

            let mut peers: Vec<ResponsePeer<I>> = Vec::new();
            let mut i: usize = offset_half_one;
            while i < end_half_one
                invariant
                    len == self.entries().len(),
                    offset_half_one <= i <= end_half_one <= len,
                    peers@ == response_peers_of::<I>(self.entries().subrange(offset_half_one as int, i as int)),
                decreases end_half_one - i,
            {
                let e = large_get_index(&self.peers, i);
                peers.push(response_peer_from_key::<I>(e.0));
                assert(response_peers_of::<I>(self.entries().subrange(offset_half_one as int, i + 1))
                    =~= response_peers_of::<I>(
                    self.entries().subrange(offset_half_one as int, i as int),
                ).push(response_peer_of::<I>(e.0)));
                i = i + 1;
            }
            let ghost first = peers@;
            let mut i: usize = offset_half_two;
            while i < end_half_two
                invariant
                    len == self.entries().len(),
                    offset_half_two <= i <= end_half_two <= len,
                    peers@ == first + response_peers_of::<I>(
                        self.entries().subrange(offset_half_two as int, i as int),
                    ),
                decreases end_half_two - i,
            {
                let e = large_get_index(&self.peers, i);
                peers.push(response_peer_from_key::<I>(e.0));
                assert(response_peers_of::<I>(self.entries().subrange(offset_half_two as int, i + 1))
                    =~= response_peers_of::<I>(
                    self.entries().subrange(offset_half_two as int, i as int),
                ).push(response_peer_of::<I>(e.0)));
                i = i + 1;
            }
            let ghost s = self.entries();
            let ghost o1 = offset_half_one as int;
            let ghost o2 = offset_half_two as int;
            assert(valid_offsets(len as int, max_num_peers_to_take as int, o1, o2));
            assert(peers@ =~= response_peers_of::<I>(
                selected_entries(s, max_num_peers_to_take as int, o1, o2),
            ));
            peers
        }
    }

    pub fn clean_and_get_num_peers(
        &mut self,
        config: &Config,
        statistics_messages: &mut Vec<StatisticsMessage>,
        now: SecondsSinceServerStart,
    ) -> (r: usize)
        requires
            old(self).wf(),
        ensures
            final(self).wf(),
            final(self).entries() == retain_where(old(self).entries(), valid_pred(now)),
            r == final(self).entries().len(),
            final(statistics_messages)@ == old(statistics_messages)@ + if config.statistics.peer_clients {
                removed_messages(dropped_where(old(self).entries(), valid_pred(now)))
            } else {
                Seq::<StatisticsMessage>::empty()
            },
    {
        let len = large_len(&self.peers);
        let ghost start = statistics_messages@;
        let ghost e = self.entries();
        let mut expired_seeders: usize = 0;
        let mut i: usize = 0;
        while i < len
            invariant
                len == e.len(),
                e == self.entries(),
                self.wf(),
                0 <= i <= len,
                expired_seeders == num_seeders(dropped_where(e.take(i as int), valid_pred(now))),
                expired_seeders <= i,
                statistics_messages@ == start + if config.statistics.peer_clients {
                    removed_messages(dropped_where(e.take(i as int), valid_pred(now)))
                } else {
                    Seq::<StatisticsMessage>::empty()
                },
            decreases len - i,
        {
            let entry = large_get_index(&self.peers, i);
            let ghost pre = e.take(i as int);
            assert(e.take(i + 1).drop_last() =~= pre);
            assert(e.take(i + 1).last() == entry);
            if !entry.1.valid_until.valid(now) {
                let ghost d = dropped_where(pre, valid_pred(now));
                assert(d.push(entry).drop_last() =~= d);
                if entry.1.is_seeder {
                    expired_seeders = expired_seeders + 1;
                }
                if config.statistics.peer_clients {
                    statistics_messages.push(StatisticsMessage::PeerRemoved(entry.1.peer_id));
                    assert(removed_messages(d.push(entry)) =~= removed_messages(d).push(
                        StatisticsMessage::PeerRemoved(entry.1.peer_id),
                    ));
                }
            }
            i = i + 1;
        }
        assert(e.take(len as int) =~= e);
        proof {
            lemma_retain_keys_unique(e, valid_pred(now));
            lemma_retain_split(e, valid_pred(now), seeder_pred());
        }
        large_retain_valid(&mut self.peers, now);
        self.num_seeders = self.num_seeders - expired_seeders;

        let new_len = large_len(&self.peers);
        if new_len != 0 {
            large_shrink_to_fit(&mut self.peers);
        }
        new_len
    }

    pub fn try_shrink(&self) -> (r: Option<SmallPeerMap>)
        requires
            self.wf(),
        ensures
            self.entries().len() <= SMALL_PEER_MAP_CAPACITY ==> (r matches Some(small) && small.wf()
                && small.entries() == self.entries()),
            self.entries().len() > SMALL_PEER_MAP_CAPACITY ==> r is None,
    {
        let len = large_len(&self.peers);
        if len <= SMALL_PEER_MAP_CAPACITY {
            let mut small = SmallPeerMap::new();
            let mut i: usize = 0;
            while i < len
                invariant
                    len == self.entries().len(),
                    len <= 2,
                    self.wf(),
                    0 <= i <= len,
                    small.wf(),
                    small.entries() == self.entries().take(i as int),
                decreases len - i,
            {
                let e = large_get_index(&self.peers, i);
                assert(!has_key(small.entries(), e.0)) by {
                    if has_key(small.entries(), e.0) {
                        let j = choose|j: int| 0 <= j < small.entries().len() && small.entries()[j].0 == e.0;
                        assert(self.entries()[j].0 == self.entries()[i as int].0);
                    }
                }
                small.insert(e.0, e.1);
                assert(self.entries().take(i + 1) =~= self.entries().take(i as int).push(e));
                i = i + 1;
            }
            assert(self.entries().take(len as int) =~= self.entries());
            Some(small)
        } else {
            None
        }
    }
}

// ---------------------------------------------------------------------
// A torrent's peers, in whichever of the two maps fits their number

#[derive(PartialEq, Eq, Hash, Clone, Copy, Debug, Structural)]
pub enum PeerStatus {
    Seeding,
    Leeching,
    Stopped,
}

impl PeerStatus {
    pub open spec fn spec_from_event_and_bytes_left(event: AnnounceEvent, bytes_left: NumberOfBytes) -> Self {
        if event is Stopped {
            PeerStatus::Stopped
        } else if bytes_left.0 == 0 {
            PeerStatus::Seeding
        } else {
            PeerStatus::Leeching
        }
    }

    /// Determine peer status from announce event and number of bytes left.
    ///
    /// Likely, the last branch will be taken most of the time.
    pub fn from_event_and_bytes_left(event: AnnounceEvent, bytes_left: NumberOfBytes) -> (r: Self)
        ensures
            r == Self::spec_from_event_and_bytes_left(event, bytes_left),
    {
        if matches!(event, AnnounceEvent::Stopped) {
            Self::Stopped
        } else if bytes_left.0 == 0 {
            Self::Seeding
        } else {
            Self::Leeching
        }
    }
}

/// Number of peers to put in an announce response: the configured maximum,
/// or fewer if the peer asks for fewer
pub open spec fn max_peers_to_take(max_response_peers: usize, peers_wanted: i32) -> int {
    if peers_wanted <= 0 {
        max_response_peers as int
    } else if max_response_peers < peers_wanted {
        max_response_peers as int
    } else {
        peers_wanted as int
    }
}

/// The statistics messages that an announce sends
pub open spec fn announce_messages(
    peer_clients: bool,
    status: PeerStatus,
    was_present: bool,
    peer_id: PeerId,
) -> Seq<StatisticsMessage> {
    if peer_clients && !(status is Stopped) && !was_present {
        seq![StatisticsMessage::PeerAdded(peer_id)]
    } else if peer_clients && status is Stopped && was_present {
        seq![StatisticsMessage::PeerRemoved(peer_id)]
    } else {
        Seq::<StatisticsMessage>::empty()
    }
}

/// The entries once the peer with the key is taken out: the small map
/// shifts the later entries down, the large one moves its last entry into
/// the gap
pub open spec fn rest_after_removal_of(
    e: Seq<(PeerMapKey, Peer)>,
    small: bool,
    key: PeerMapKey,
) -> Seq<(PeerMapKey, Peer)> {
    if !has_key(e, key) {
        e
    } else if small {
        e.remove(key_index(e, key))
    } else {
        swap_removed(e, key_index(e, key))
    }
}

/// What an announce does: `new` is the peer map after the announce on a
/// map with the entries `old_entries` (small if `old_small`), `r` its
/// response and `msgs_new` the statistics messages after it
pub open spec fn announce_post<I: Ip>(
    old_entries: Seq<(PeerMapKey, Peer)>,
    old_small: bool,
    new: PeerMap,
    config: &Config,
    request: AnnounceRequest,
    ip_address: I,
    valid_until: ValidUntil,
    r: AnnounceResponse<I>,
    msgs_old: Seq<StatisticsMessage>,
    msgs_new: Seq<StatisticsMessage>,
) -> bool {
    let key = peer_map_key(ip_address, request.port);
    let status = PeerStatus::spec_from_event_and_bytes_left(request.event, request.bytes_left);
    let rest = rest_after_removal_of(old_entries, old_small, key);
    let max = max_peers_to_take(config.protocol.max_response_peers, request.peers_wanted.0);
    &&& new.wf()
    &&& new.entries() == if status is Stopped {
        rest
    } else {
        rest.push((key, Peer { peer_id: request.peer_id, is_seeder: status is Seeding, valid_until }))
    }
    &&& (new is Large) == if old_small {
        rest.len() == SMALL_PEER_MAP_CAPACITY && !(status is Stopped)
    } else {
        !(status is Stopped && rest.len() <= SMALL_PEER_MAP_CAPACITY)
    }
    &&& r.fixed == AnnounceResponseFixedData {
        transaction_id: request.transaction_id,
        announce_interval: AnnounceInterval(config.protocol.peer_announce_interval),
        leechers: NumberOfPeers(clamp_i32(rest.len() - num_seeders(rest))),
        seeders: NumberOfPeers(clamp_i32(num_seeders(rest) as int)),
    }
    &&& announce_response_peers_of::<I>(old_entries, old_small, key, max, r.peers@)
    &&& msgs_new == msgs_old + announce_messages(
        config.statistics.peer_clients,
        status,
        has_key(old_entries, key),
        request.peer_id,
    )
}

/// Scrape statistics of a torrent with the entries: its seeders and
/// leechers, each count clamped to `i32::MAX`; downloads are not counted
pub open spec fn scrape_statistics_of(e: Seq<(PeerMapKey, Peer)>) -> TorrentScrapeStatistics {
    TorrentScrapeStatistics {
        seeders: NumberOfPeers(clamp_i32(num_seeders(e) as int)),
        leechers: NumberOfPeers(clamp_i32(e.len() - num_seeders(e))),
        completed: NumberOfDownloads(0),
    }
}

pub enum PeerMap {
    Small(SmallPeerMap),
    Large(LargePeerMap),
}

impl Default for PeerMap {
    fn default() -> (r: Self)
        ensures
            r is Small,
            r.wf(),
            r.entries() == Seq::<(PeerMapKey, Peer)>::empty(),
    {
        PeerMap::Small(SmallPeerMap::new())
    }
}

impl PeerMap {
    pub open spec fn entries(&self) -> Seq<(PeerMapKey, Peer)> {
        match self {
            PeerMap::Small(m) => m.entries(),
            PeerMap::Large(m) => m.entries(),
        }
    }

    pub open spec fn wf(&self) -> bool {
        match self {
            PeerMap::Small(m) => m.wf(),
            PeerMap::Large(m) => m.wf(),
        }
    }

    /// The entries once the peer with the key is taken out, the way each
    /// map takes it out
    pub open spec fn rest_after_removal(&self, key: PeerMapKey) -> Seq<(PeerMapKey, Peer)> {
        rest_after_removal_of(self.entries(), *self is Small, key)
    }

    /// Handle an announce: take the announcing peer out, answer with the
    /// other peers, then put the peer back in unless it stopped.
    ///
    /// The response is created before inserting the peer, so it never holds
    /// the announcing peer, and the reported number of seeders and leechers
    /// does not count it.
    pub fn announce<I: Ip>(
        &mut self,
        config: &Config,
        statistics_messages: &mut Vec<StatisticsMessage>,
        rng: &mut SmallRng,
        request: &AnnounceRequest,
        ip_address: I,
        valid_until: ValidUntil,
    ) -> (r: AnnounceResponse<I>)
        requires
            old(self).wf(),
        ensures
            announce_post::<I>(
                old(self).entries(),
                *old(self) is Small,
                *final(self),
                config,
                *request,
                ip_address,
                valid_until,
                r,
                old(statistics_messages)@,
                final(statistics_messages)@,
            ),
            r.peers@.len() <= config.protocol.max_response_peers,
    {
        let max_num_peers_to_take: usize = if request.peers_wanted.0 <= 0 {
            config.protocol.max_response_peers
        } else if config.protocol.max_response_peers < request.peers_wanted.0 as usize {
            config.protocol.max_response_peers
        } else {
            request.peers_wanted.0 as usize
        };

        let status = PeerStatus::from_event_and_bytes_left(request.event, request.bytes_left);
        let stopped = matches!(status, PeerStatus::Stopped);

        let peer_map_key: PeerMapKey = (ip_address.bits(), request.port.0);
        let peer = Peer {
            peer_id: request.peer_id,
            is_seeder: matches!(status, PeerStatus::Seeding),
            valid_until,
        };
        let ghost old_entries = self.entries();
        let ghost old_self = *self;
        proof {
            lemma_no_key_index(old_entries, peer_map_key);
        }

        let mut old_map = PeerMap::Small(SmallPeerMap::new());
        std::mem::swap(self, &mut old_map);

        // Create the response before inserting the peer. This means that we
        // don't have to filter it out from the response peers, and that the
        // reported number of seeders/leechers will not include it
        let (response, opt_removed_peer) = match old_map {
            PeerMap::Small(mut peer_map) => {
                let opt_removed_peer = peer_map.remove(&peer_map_key);

                let (seeders, leechers) = peer_map.num_seeders_leechers();

                let response = AnnounceResponse {
                    fixed: AnnounceResponseFixedData {
                        transaction_id: request.transaction_id,
                        announce_interval: AnnounceInterval(config.protocol.peer_announce_interval),
                        leechers: NumberOfPeers(usize_to_i32_saturating(leechers)),
                        seeders: NumberOfPeers(usize_to_i32_saturating(seeders)),
                    },
                    peers: peer_map.extract_response_peers(max_num_peers_to_take),
                };

                // Convert peer map to large variant if it is full and
                // announcing peer is not stopped and will therefore be
                // inserted
                if peer_map.is_full() && !stopped {
                    let mut large = peer_map.to_large();
                    large.insert(peer_map_key, peer);
                    *self = PeerMap::Large(large);
                } else {
                    if !stopped {
                        peer_map.insert(peer_map_key, peer);
                    }
                    *self = PeerMap::Small(peer_map);
                }

                assert(opt_removed_peer is Some <==> has_key(old_entries, peer_map_key));
                (response, opt_removed_peer)
            },
            PeerMap::Large(mut peer_map) => {
                let opt_removed_peer = peer_map.remove_peer(&peer_map_key);

                let (seeders, leechers) = peer_map.num_seeders_leechers();

                let response = AnnounceResponse {
                    fixed: AnnounceResponseFixedData {
                        transaction_id: request.transaction_id,
                        announce_interval: AnnounceInterval(config.protocol.peer_announce_interval),
                        leechers: NumberOfPeers(usize_to_i32_saturating(leechers)),
                        seeders: NumberOfPeers(usize_to_i32_saturating(seeders)),
                    },
                    peers: peer_map.extract_response_peers(rng, max_num_peers_to_take),
                };

                // Try shrinking the map if announcing peer is stopped and
                // will therefore not be inserted
                if stopped {
                    match peer_map.try_shrink() {
                        Some(small) => {
                            *self = PeerMap::Small(small);
                        },
                        None => {
                            *self = PeerMap::Large(peer_map);
                        },
                    }
                } else {
                    peer_map.insert(peer_map_key, peer);
                    *self = PeerMap::Large(peer_map);
                }

                assert(opt_removed_peer is Some <==> has_key(old_entries, peer_map_key));
                (response, opt_removed_peer)
            },
        };

        let ghost msgs_before = statistics_messages@;
        if !stopped {
            if config.statistics.peer_clients && opt_removed_peer.is_none() {
                statistics_messages.push(StatisticsMessage::PeerAdded(request.peer_id));
            }
        } else {
            if config.statistics.peer_clients && opt_removed_peer.is_some() {
                statistics_messages.push(StatisticsMessage::PeerRemoved(request.peer_id));
            }
        }

        proof {
            let max = max_peers_to_take(config.protocol.max_response_peers, request.peers_wanted.0);
            assert(max == max_num_peers_to_take);
            assert(announce_response_peers::<I>(old_self, peer_map_key, max, response.peers@));
            let status = PeerStatus::spec_from_event_and_bytes_left(request.event, request.bytes_left);
            let rest = old_self.rest_after_removal(peer_map_key);
            assert(self.wf());
            assert(statistics_messages@ =~= msgs_before + announce_messages(
                config.statistics.peer_clients,
                status,
                has_key(old_entries, peer_map_key),
                request.peer_id,
            ));
            assert(peer_map_key == (ip_address.spec_bits(), request.port.0));
            assert(self.entries() == if status is Stopped {
                rest
            } else {
                rest.push((peer_map_key, Peer { peer_id: request.peer_id, is_seeder: status is Seeding, valid_until }))
            });
            assert((*self is Large) == if old_self is Small {
                rest.len() == SMALL_PEER_MAP_CAPACITY && !(status is Stopped)
            } else {
                !(status is Stopped && rest.len() <= SMALL_PEER_MAP_CAPACITY)
            });
            law_announce_response_size::<I>(
                old_entries,
                old_self is Small,
                *self,
                config,
                *request,
                ip_address,
                valid_until,
                response,
                old(statistics_messages)@,
                statistics_messages@,
            );
        }
        response
    }

    pub fn scrape_statistics(&self) -> (r: TorrentScrapeStatistics)
        requires
            self.wf(),
        ensures
            r == scrape_statistics_of(self.entries()),
    {
        let (seeders, leechers) = match self {
            PeerMap::Small(peer_map) => peer_map.num_seeders_leechers(),
            PeerMap::Large(peer_map) => peer_map.num_seeders_leechers(),
        };

        TorrentScrapeStatistics {
            seeders: NumberOfPeers(usize_to_i32_saturating(seeders)),
            leechers: NumberOfPeers(usize_to_i32_saturating(leechers)),
            completed: NumberOfDownloads(0),
        }
    }

    pub fn is_empty(&self) -> (r: bool)
        ensures
            r == (self.entries().len() == 0),
    {
        match self {
            PeerMap::Small(peer_map) => peer_map.len() == 0,
            PeerMap::Large(peer_map) => peer_map.len() == 0,
        }
    }

    /// Remove peers that are no longer valid, shrink a large map that
    /// became small, and return the number of remaining peers
    pub fn clean_and_get_num_peers(
        &mut self,
        config: &Config,
        statistics_messages: &mut Vec<StatisticsMessage>,
        now: SecondsSinceServerStart,
    ) -> (r: usize)
        requires
            old(self).wf(),
        ensures
            final(self).wf(),
            final(self).entries() == retain_where(old(self).entries(), valid_pred(now)),
            r == final(self).entries().len(),
            (*final(self) is Large) == (*old(self) is Large && r > SMALL_PEER_MAP_CAPACITY),
            final(statistics_messages)@ == old(statistics_messages)@ + if config.statistics.peer_clients {
                removed_messages(dropped_where(old(self).entries(), valid_pred(now)))
            } else {
                Seq::<StatisticsMessage>::empty()
            },
    {
        let mut old_map = PeerMap::Small(SmallPeerMap::new());
        std::mem::swap(self, &mut old_map);
        match old_map {
            PeerMap::Small(mut small_peer_map) => {
                let num_peers = small_peer_map.clean_and_get_num_peers(config, statistics_messages, now);
                *self = PeerMap::Small(small_peer_map);
                num_peers
            },
            PeerMap::Large(mut large_peer_map) => {
                let num_peers = large_peer_map.clean_and_get_num_peers(config, statistics_messages, now);
                match large_peer_map.try_shrink() {
                    Some(small_peer_map) => {
                        *self = PeerMap::Small(small_peer_map);
                    },
                    None => {
                        *self = PeerMap::Large(large_peer_map);
                    },
                }
                num_peers
            },
        }
    }
}

// ---------------------------------------------------------------------
// Laws of the peer maps

/// All keys of the entries are the packed form of an address of type `I`
pub open spec fn keys_in_range<I: Ip>(s: Seq<(PeerMapKey, Peer)>) -> bool {
    forall|i: int| 0 <= i < s.len() ==> (#[trigger] I::spec_from_bits(s[i].0.0)).spec_bits() == s[i].0.0
}

pub proof fn lemma_rest_after_removal(pm: PeerMap, key: PeerMapKey)
    requires
        pm.wf(),
    ensures
        keys_unique(pm.rest_after_removal(key)),
        !has_key(pm.rest_after_removal(key), key),
        forall|k: PeerMapKey| k != key ==> (has_key(pm.rest_after_removal(key), k) <==> has_key(pm.entries(), k)),
        forall|j: int|
            0 <= j < pm.rest_after_removal(key).len() ==> pm.entries().contains(
                #[trigger] pm.rest_after_removal(key)[j],
            ),
        pm.rest_after_removal(key).len() == pm.entries().len() - (if has_key(pm.entries(), key) { 1int } else { 0 }),
{
    let e = pm.entries();
    lemma_no_key_index(e, key);
    if has_key(e, key) {
        let i = key_index(e, key);
        if pm is Small {
            lemma_remove_keys_unique(e, i);
            assert forall|j: int| 0 <= j < e.remove(i).len() implies e.contains(#[trigger] e.remove(i)[j]) by {
                let j2 = if j < i { j } else { j + 1 };
                assert(e.remove(i)[j] == e[j2]);
            }
        } else {
            lemma_swap_removed_keys_unique(e, i);
            assert forall|j: int| 0 <= j < swap_removed(e, i).len() implies e.contains(
                #[trigger] swap_removed(e, i)[j],
            ) by {
                let j2 = if j == i { e.len() - 1 } else { j };
                assert(swap_removed(e, i)[j] == e[j2]);
            }
        }
    } else {
        assert forall|j: int| 0 <= j < e.len() implies e.contains(#[trigger] e[j]) by {}
    }
}

/// The response peers of an announce, as the announce's contract fixes them
pub open spec fn announce_response_peers<I: Ip>(
    pm: PeerMap,
    key: PeerMapKey,
    max: int,
    peers: Seq<ResponsePeer<I>>,
) -> bool {
    announce_response_peers_of::<I>(pm.entries(), pm is Small, key, max, peers)
}

/// The response peers of an announce on a map with the entries `e`, small
/// if `small`: the first ones of the others for a small map, a selection
/// from both halves for a large one
pub open spec fn announce_response_peers_of<I: Ip>(
    e: Seq<(PeerMapKey, Peer)>,
    small: bool,
    key: PeerMapKey,
    max: int,
    peers: Seq<ResponsePeer<I>>,
) -> bool {
    let rest = rest_after_removal_of(e, small, key);
    &&& small ==> peers == response_peers_of::<I>(rest.take(if max < rest.len() { max } else { rest.len() as int }))
    &&& !small ==> large_selection::<I>(rest, max, peers)
}

/// Every response peer stands for some entry of the sequence: it is the
/// response peer of an entry, at an index of `s`
pub open spec fn drawn_from<I: Ip>(s: Seq<(PeerMapKey, Peer)>, peers: Seq<ResponsePeer<I>>) -> bool {
    forall|i: int| 0 <= i < peers.len() ==> peer_drawn_from::<I>(s, #[trigger] peers[i])
}

pub open spec fn peer_drawn_from<I: Ip>(s: Seq<(PeerMapKey, Peer)>, p: ResponsePeer<I>) -> bool {
    exists|j: int| 0 <= j < s.len() && p == response_peer_of::<I>(s[j].0)
}

proof fn lemma_response_drawn<I: Ip>(pm: PeerMap, key: PeerMapKey, max: int, peers: Seq<ResponsePeer<I>>)
    requires
        pm.wf(),
        0 <= max,
        announce_response_peers::<I>(pm, key, max, peers),
    ensures
        drawn_from::<I>(pm.rest_after_removal(key), peers),
        peers.len() <= max,
        pm.rest_after_removal(key).len() <= max ==> peers.len() == pm.rest_after_removal(key).len(),
{
    let rest = pm.rest_after_removal(key);
    if pm is Small {
        let n = if max < rest.len() { max } else { rest.len() as int };
        assert forall|i: int| 0 <= i < peers.len() implies peer_drawn_from::<I>(rest, #[trigger] peers[i]) by {
            assert(peers[i] == response_peer_of::<I>(rest.take(n)[i].0));
            assert(rest.take(n)[i] == rest[i]);
        }
    } else {
        if rest.len() <= max {
            assert forall|i: int| 0 <= i < peers.len() implies peer_drawn_from::<I>(rest, #[trigger] peers[i]) by {
                assert(peers[i] == response_peer_of::<I>(rest[i].0));
            }
        } else {
            let (o1, o2) = choose|o1: int, o2: int|
                valid_offsets(rest.len() as int, max, o1, o2) && peers == response_peers_of::<I>(
                    selected_entries(rest, max, o1, o2),
                );
            let h = max / 2;
            let sel = selected_entries(rest, max, o1, o2);
            assert(sel.len() == 2 * h);
            assert forall|i: int| 0 <= i < peers.len() implies peer_drawn_from::<I>(rest, #[trigger] peers[i]) by {
                if i < h {
                    assert(sel[i] == rest[o1 + i]);
                    assert(peers[i] == response_peer_of::<I>(rest[o1 + i].0));
                } else {
                    assert(sel[i] == rest[o2 + i - h]);
                    assert(peers[i] == response_peer_of::<I>(rest[o2 + i - h].0));
                }
            }
        }
    }
}

/// An announce response never lists the announcing peer, and lists at most
/// the number of peers asked for; when the other peers are no more than
/// that, it lists as many peers as there are others.
pub proof fn law_announce_response_excludes_announcer<I: Ip>(
    pm: PeerMap,
    ip_address: I,
    port: Port,
    max: int,
    peers: Seq<ResponsePeer<I>>,
)
    requires
        pm.wf(),
        keys_in_range::<I>(pm.entries()),
        0 <= max,
        announce_response_peers::<I>(pm, peer_map_key(ip_address, port), max, peers),
    ensures
        forall|i: int| 0 <= i < peers.len() ==> peers[i] != (ResponsePeer { ip_address, port }),
        peers.len() <= max,
        pm.rest_after_removal(peer_map_key(ip_address, port)).len() <= max ==> peers.len()
            == pm.rest_after_removal(peer_map_key(ip_address, port)).len(),
{
    let key = peer_map_key(ip_address, port);
    let rest = pm.rest_after_removal(key);
    lemma_rest_after_removal(pm, key);
    lemma_response_drawn::<I>(pm, key, max, peers);
    I::lemma_bits_roundtrip(ip_address);
    assert forall|i: int| 0 <= i < peers.len() implies peers[i] != (ResponsePeer { ip_address, port }) by {
        assert(peer_drawn_from::<I>(rest, peers[i]));
        let j = choose|j: int| 0 <= j < rest.len() && peers[i] == response_peer_of::<I>(rest[j].0);
        assert(pm.entries().contains(rest[j]));
        let k = choose|k: int| 0 <= k < pm.entries().len() && pm.entries()[k] == rest[j];
        assert(I::spec_from_bits(pm.entries()[k].0.0).spec_bits() == pm.entries()[k].0.0);
        if peers[i] == (ResponsePeer { ip_address, port }) {
            assert(rest[j].0 == key);
        }
    }
}

/// Announcing keeps every key of the map the packed form of an address of
/// the announcing type, and keeps one entry per peer: after a non-stopped
/// announce the peer is present exactly once, after a stopped one it is
/// absent, and no other peer comes or goes.
pub proof fn law_announce_membership<I: Ip>(pm: PeerMap, ip_address: I, port: Port, peer: Peer, stopped: bool)
    requires
        pm.wf(),
        keys_in_range::<I>(pm.entries()),
    ensures
        ({
            let key = peer_map_key(ip_address, port);
            let rest = pm.rest_after_removal(key);
            let after = if stopped { rest } else { rest.push((key, peer)) };
            &&& keys_in_range::<I>(after)
            &&& keys_unique(after)
            &&& stopped ==> !has_key(after, key)
            &&& !stopped ==> after[key_index(after, key)] == (key, peer) && after.len() == pm.entries().len()
                + (if has_key(pm.entries(), key) { 0int } else { 1 })
            &&& forall|k: PeerMapKey| k != key ==> (has_key(after, k) <==> has_key(pm.entries(), k))
        }),
{
    let key = peer_map_key(ip_address, port);
    let rest = pm.rest_after_removal(key);
    lemma_rest_after_removal(pm, key);
    I::lemma_bits_roundtrip(ip_address);
    assert forall|i: int| 0 <= i < rest.len() implies (#[trigger] I::spec_from_bits(rest[i].0.0)).spec_bits()
        == rest[i].0.0 by {
        assert(pm.entries().contains(rest[i]));
        let k = choose|k: int| 0 <= k < pm.entries().len() && pm.entries()[k] == rest[i];
        assert(I::spec_from_bits(pm.entries()[k].0.0).spec_bits() == pm.entries()[k].0.0);
    }
    if !stopped {
        let after = rest.push((key, peer));
        assert forall|i: int, j: int| 0 <= i < after.len() && 0 <= j < after.len() && i != j implies after[i].0
            != after[j].0 by {
            if i == rest.len() {
                assert(after[j] == rest[j]);
            } else if j == rest.len() {
                assert(after[i] == rest[i]);
            }
        }
        lemma_key_index(after, key, rest.len() as int);
        assert forall|k: PeerMapKey| k != key implies (has_key(after, k) <==> has_key(rest, k)) by {
            if has_key(after, k) {
                let j = choose|j: int| 0 <= j < after.len() && after[j].0 == k;
                assert(after[j] == rest[j]);
            }
            if has_key(rest, k) {
                let j = choose|j: int| 0 <= j < rest.len() && rest[j].0 == k;
                assert(after[j] == rest[j]);
            }
        }
    }
}

/// Announcing twice in a row with the same request changes nothing the
/// second time: the response reports the same seeders and leechers, the
/// peers stay as they are (so a scrape reports the same), and no second
/// statistics message is sent.
pub proof fn law_repeated_announce_changes_nothing<I: Ip>(
    pm0: PeerMap,
    pm1: PeerMap,
    pm2: PeerMap,
    config: &Config,
    request: AnnounceRequest,
    ip_address: I,
    valid_until: ValidUntil,
    r1: AnnounceResponse<I>,
    r2: AnnounceResponse<I>,
    m0: Seq<StatisticsMessage>,
    m1: Seq<StatisticsMessage>,
    m2: Seq<StatisticsMessage>,
)
    requires
        pm0.wf(),
        !(PeerStatus::spec_from_event_and_bytes_left(request.event, request.bytes_left) is Stopped),
        announce_post::<I>(pm0.entries(), pm0 is Small, pm1, config, request, ip_address, valid_until, r1, m0, m1),
        announce_post::<I>(pm1.entries(), pm1 is Small, pm2, config, request, ip_address, valid_until, r2, m1, m2),
    ensures
        r2.fixed == r1.fixed,
        pm2.entries() == pm1.entries(),
        scrape_statistics_of(pm2.entries()) == scrape_statistics_of(pm1.entries()),
        m2 == m1,
{
    let key = peer_map_key(ip_address, request.port);
    let rest1 = pm0.rest_after_removal(key);
    lemma_rest_after_removal(pm0, key);
    let status = PeerStatus::spec_from_event_and_bytes_left(request.event, request.bytes_left);
    let peer = Peer { peer_id: request.peer_id, is_seeder: status is Seeding, valid_until };
    let e1 = pm1.entries();
    assert(e1 == rest1.push((key, peer)));
    assert(keys_unique(e1)) by {
        assert forall|i: int, j: int| 0 <= i < e1.len() && 0 <= j < e1.len() && i != j implies e1[i].0
            != e1[j].0 by {
            if i == rest1.len() {
                assert(e1[j] == rest1[j]);
            } else if j == rest1.len() {
                assert(e1[i] == rest1[i]);
            } else {
                assert(e1[i] == rest1[i] && e1[j] == rest1[j]);
            }
        }
    }
    lemma_key_index(e1, key, rest1.len() as int);
    let rest2 = rest_after_removal_of(e1, pm1 is Small, key);
    assert(e1.remove(rest1.len() as int) =~= rest1);
    assert(e1.drop_last() =~= rest1);
    assert(rest2 == rest1);
    assert(pm2.entries() =~= e1);
}

proof fn lemma_response_peers_len<I: Ip>(
    e: Seq<(PeerMapKey, Peer)>,
    small: bool,
    key: PeerMapKey,
    max: int,
    peers: Seq<ResponsePeer<I>>,
)
    requires
        0 <= max,
        announce_response_peers_of::<I>(e, small, key, max, peers),
    ensures
        peers.len() <= max,
        rest_after_removal_of(e, small, key).len() <= max ==> peers.len() == rest_after_removal_of(e, small, key).len(),
{
    let rest = rest_after_removal_of(e, small, key);
    if !small && rest.len() > max {
        let (o1, o2) = choose|o1: int, o2: int|
            valid_offsets(rest.len() as int, max, o1, o2) && peers == response_peers_of::<I>(
                selected_entries(rest, max, o1, o2),
            );
        assert(selected_entries(rest, max, o1, o2).len() == 2 * (max / 2));
    }
}

/// A UDP announce answers with at most the configured maximum number of
/// peers, whatever the peer asks for; with no more peers than a positive
/// number of peers wanted; and with all the other peers of the torrent
/// when they are no more than both.
pub proof fn law_announce_response_size<I: Ip>(
    old_entries: Seq<(PeerMapKey, Peer)>,
    old_small: bool,
    new: PeerMap,
    config: &Config,
    request: AnnounceRequest,
    ip_address: I,
    valid_until: ValidUntil,
    r: AnnounceResponse<I>,
    msgs_old: Seq<StatisticsMessage>,
    msgs_new: Seq<StatisticsMessage>,
)
    requires
        announce_post::<I>(
            old_entries,
            old_small,
            new,
            config,
            request,
            ip_address,
            valid_until,
            r,
            msgs_old,
            msgs_new,
        ),
    ensures
        r.peers@.len() <= config.protocol.max_response_peers,
        request.peers_wanted.0 > 0 ==> r.peers@.len() <= request.peers_wanted.0,
        ({
            let others = rest_after_removal_of(old_entries, old_small, peer_map_key(ip_address, request.port)).len();
            others <= config.protocol.max_response_peers && (request.peers_wanted.0 > 0 ==> others
                <= request.peers_wanted.0) ==> r.peers@.len() == others
        }),
{
    let key = peer_map_key(ip_address, request.port);
    lemma_response_peers_len::<I>(
        old_entries,
        old_small,
        key,
        max_peers_to_take(config.protocol.max_response_peers, request.peers_wanted.0),
        r.peers@,
    );
}

/// Cleaning keeps exactly the peers that are still valid, one entry per
/// peer, and the map is large afterwards only if it holds more peers than
/// the small map's capacity.
pub proof fn law_clean_keeps_valid_peers(s: Seq<(PeerMapKey, Peer)>, now: SecondsSinceServerStart)
    requires
        keys_unique(s),
    ensures
        keys_unique(retain_where(s, valid_pred(now))),
        forall|j: int|
            0 <= j < s.len() ==> (retain_where(s, valid_pred(now)).contains(#[trigger] s[j])
                <==> s[j].1.valid_until.spec_valid(now)),
        forall|j: int|
            0 <= j < retain_where(s, valid_pred(now)).len() ==> s.contains(
                #[trigger] retain_where(s, valid_pred(now))[j],
            ),
{
    lemma_retain_keys_unique(s, valid_pred(now));
    assert forall|j: int| 0 <= j < s.len() implies (retain_where(s, valid_pred(now)).contains(#[trigger] s[j])
        <==> s[j].1.valid_until.spec_valid(now)) by {
        if s[j].1.valid_until.spec_valid(now) {
            crate::collections::lemma_retain_complete(s, valid_pred(now), j);
        }
        if retain_where(s, valid_pred(now)).contains(s[j]) {
            let k = choose|k: int|
                0 <= k < retain_where(s, valid_pred(now)).len() && retain_where(s, valid_pred(now))[k] == s[j];
            crate::collections::lemma_retain_contains(s, valid_pred(now), k);
        }
    }
    assert forall|j: int| 0 <= j < retain_where(s, valid_pred(now)).len() implies s.contains(
        #[trigger] retain_where(s, valid_pred(now))[j],
    ) by {
        crate::collections::lemma_retain_contains(s, valid_pred(now), j);
    }
}

} // verus!
