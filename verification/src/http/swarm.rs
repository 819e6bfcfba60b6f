//! The torrents of the HTTP tracker: the peers of each torrent, in a small
//! inline map while they are few and in an insertion-ordered map once they
//! are more, and the announce, scrape and cleaning logic over them.

use vstd::prelude::*;

use arrayvec::ArrayVec;
use indexmap::IndexMap;
use rand::rngs::SmallRng;

use crate::collections::{
    count_where, gen_range_usize, has_key, key_index, keys_unique, lemma_count_le_len,
    lemma_count_swap_removed, lemma_key_index, lemma_no_key_index, lemma_remove_keys_unique,
    lemma_retain_keys_unique, lemma_retain_split, lemma_swap_removed_keys_unique, retain_where,
    swap_removed, PeerMapKey,
};
use crate::common::{CanonicalSocketAddr, IpAddr, SecondsSinceServerStart, ServerStartInstant, ValidUntil};
use crate::common::access_list::{allows_spec, AccessList, AccessListMode};
use crate::http::config::Config;
use crate::http_protocol::common::{AnnounceEvent, InfoHash};
use crate::http_protocol::scrape_files::{files_map, files_sorted, insert_file};
use crate::http_protocol::request::{AnnounceRequest, ScrapeRequest};
use crate::http_protocol::response::{
    AnnounceResponse, ResponsePeer, ResponsePeerListV4, ResponsePeerListV6, ScrapeResponse, ScrapeStatistics,
};

verus! {

pub const SMALL_PEER_MAP_CAPACITY: usize = 4;

/// An IP address type that peers can have: its integer form, widened to
/// 128 bits to serve as a peer map key
pub trait Ip: Copy + Sized {
    spec fn spec_bits(self) -> u128;

    spec fn spec_from_bits(bits: u128) -> Self;

    fn bits(&self) -> (r: u128)
        ensures
            r == self.spec_bits(),
    ;

    fn from_bits(bits: u128) -> (r: Self)
        ensures
            r == Self::spec_from_bits(bits),
    ;

    proof fn lemma_bits_roundtrip(ip: Self)
        ensures
            Self::spec_from_bits(ip.spec_bits()) == ip,
    ;
}

/// IPv4 addresses, as `u32`
impl Ip for u32 {
    open spec fn spec_bits(self) -> u128 {
        self as u128
    }

    open spec fn spec_from_bits(bits: u128) -> Self {
        bits as u32
    }

    fn bits(&self) -> (r: u128) {
        *self as u128
    }

    fn from_bits(bits: u128) -> (r: Self) {
        bits as u32
    }

    proof fn lemma_bits_roundtrip(ip: Self) {
        assert((ip as u128) as u32 == ip) by (bit_vector);
    }
}

/// IPv6 addresses, as `u128`
impl Ip for u128 {
    open spec fn spec_bits(self) -> u128 {
        self
    }

    open spec fn spec_from_bits(bits: u128) -> Self {
        bits
    }

    fn bits(&self) -> (r: u128) {
        *self
    }

    fn from_bits(bits: u128) -> (r: Self) {
        bits
    }

    proof fn lemma_bits_roundtrip(ip: Self) {
    }
}

#[derive(Clone, Copy, Debug)]
pub struct Peer {
    pub valid_until: ValidUntil,
    pub is_seeder: bool,
}

pub open spec fn seeder_pred() -> spec_fn(Peer) -> bool {
    |p: Peer| p.is_seeder
}

pub open spec fn valid_pred(now: SecondsSinceServerStart) -> spec_fn(Peer) -> bool {
    |p: Peer| p.valid_until.spec_valid(now)
}

/// Number of seeders among the entries
pub open spec fn num_seeders(s: Seq<(PeerMapKey, Peer)>) -> nat {
    count_where(s, seeder_pred())
}

/// The response peer that a peer map key stands for
pub open spec fn response_peer_of<I: Ip>(k: PeerMapKey) -> ResponsePeer<I> {
    ResponsePeer { ip_address: I::spec_from_bits(k.0), port: k.1 }
}

pub open spec fn response_peers_of<I: Ip>(s: Seq<(PeerMapKey, Peer)>) -> Seq<ResponsePeer<I>> {
    s.map_values(|e: (PeerMapKey, Peer)| response_peer_of::<I>(e.0))
}

/// The peer map key of an IP address and port
pub open spec fn peer_map_key<I: Ip>(ip: I, port: u16) -> PeerMapKey {
    (ip.spec_bits(), port)
}

fn response_peer_from_key<I: Ip>(k: PeerMapKey) -> (r: ResponsePeer<I>)
    ensures
        r == response_peer_of::<I>(k),
{
    ResponsePeer { ip_address: I::from_bits(k.0), port: k.1 }
}

pub open spec fn max_usize(a: int, b: int) -> int {
    if a > b { a } else { b }
}

/// Whether the two offsets are ones that a random selection of response
/// peers from `len` peers, at most `max` of them, can pick: the first in
/// the first half, the second in the second half
pub open spec fn valid_offsets(len: int, max: int, o1: int, o2: int) -> bool {
    let mid = len / 2;
    let h = max / 2;
    &&& 0 <= o1 < max_usize(1, mid - h)
    &&& mid <= o2 < max_usize(mid + 1, len - h)
}

/// The entries that a selection starting at the two offsets takes: half of
/// the maximum from each offset
pub open spec fn selected_entries<V>(s: Seq<V>, max: int, o1: int, o2: int) -> Seq<V> {
    s.subrange(o1, o1 + max / 2) + s.subrange(o2, o2 + max / 2)
}

/// The response peers of a large peer map with the entries: all of them if
/// they are at most `max`, else a selection at some valid offsets
pub open spec fn large_selection<I: Ip>(s: Seq<(PeerMapKey, Peer)>, max: int, r: Seq<ResponsePeer<I>>) -> bool {
    if s.len() <= max {
        r == response_peers_of::<I>(s)
    } else {
        exists|o1: int, o2: int|
            valid_offsets(s.len() as int, max, o1, o2) && r == response_peers_of::<I>(
                selected_entries(s, max, o1, o2),
            )
    }
}

// ---------------------------------------------------------------------
// The inline map: an `arrayvec::ArrayVec` of capacity four

/// The entries of a small peer map's `ArrayVec`, in order
pub uninterp spec fn small_map_entries(v: ArrayVec<(PeerMapKey, Peer), 4>) -> Seq<(PeerMapKey, Peer)>;

/// An empty `ArrayVec` (`ArrayVec::new`)
#[verifier::external_body]
fn small_new() -> (r: ArrayVec<(PeerMapKey, Peer), 4>)
    ensures
        small_map_entries(r) == Seq::<(PeerMapKey, Peer)>::empty(),
{
    ArrayVec::new()
}

/// `ArrayVec::len`: the number of entries, which is at most the capacity
#[verifier::external_body]
fn small_len(v: &ArrayVec<(PeerMapKey, Peer), 4>) -> (r: usize)
    ensures
        r == small_map_entries(*v).len(),
        r <= 4,
{
    v.len()
}

/// The entry at an index (indexing the `ArrayVec`)
#[verifier::external_body]
fn small_get(v: &ArrayVec<(PeerMapKey, Peer), 4>, i: usize) -> (r: (PeerMapKey, Peer))
    requires
        i < small_map_entries(*v).len(),
    ensures
        r == small_map_entries(*v)[i as int],
{
    v[i]
}

/// `ArrayVec::push`, which panics when the vector is full: appends the entry
#[verifier::external_body]
fn small_push(v: &mut ArrayVec<(PeerMapKey, Peer), 4>, e: (PeerMapKey, Peer))
    requires
        small_map_entries(*old(v)).len() < 4,
    ensures
        small_map_entries(*final(v)) == small_map_entries(*old(v)).push(e),
{
    v.push(e)
}

/// `ArrayVec::remove`, which panics on an index out of bounds: removes the
/// entry at the index, shifting the later ones down, and returns it
#[verifier::external_body]
fn small_remove(v: &mut ArrayVec<(PeerMapKey, Peer), 4>, i: usize) -> (r: (PeerMapKey, Peer))
    requires
        i < small_map_entries(*old(v)).len(),
    ensures
        r == small_map_entries(*old(v))[i as int],
        small_map_entries(*final(v)) == small_map_entries(*old(v)).remove(i as int),
{
    v.remove(i)
}

/// `ArrayVec::retain` keeping the peers still valid at `now`: the retained
/// entries keep their order
#[verifier::external_body]
fn small_retain_valid(v: &mut ArrayVec<(PeerMapKey, Peer), 4>, now: SecondsSinceServerStart)
    ensures
        small_map_entries(*final(v)) == retain_where(small_map_entries(*old(v)), valid_pred(now)),
{
    v.retain(|e| e.1.valid_until.valid(now))
}

/// Store torrents with very few peers without an extra heap allocation
///
/// On public open trackers, this is likely to be the majority of torrents.
pub struct SmallPeerMap(ArrayVec<(PeerMapKey, Peer), 4>);

impl SmallPeerMap {
    pub closed spec fn entries(&self) -> Seq<(PeerMapKey, Peer)> {
        small_map_entries(self.0)
    }

    pub open spec fn wf(&self) -> bool {
        &&& self.entries().len() <= SMALL_PEER_MAP_CAPACITY
        &&& keys_unique(self.entries())
    }

    pub fn new() -> (r: Self)
        ensures
            r.entries() == Seq::<(PeerMapKey, Peer)>::empty(),
            r.wf(),
    {
        SmallPeerMap(small_new())
    }

    pub fn len(&self) -> (r: usize)
        ensures
            r == self.entries().len(),
            r <= SMALL_PEER_MAP_CAPACITY,
    {
        small_len(&self.0)
    }

    pub fn is_full(&self) -> (r: bool)
        ensures
            r == (self.entries().len() == SMALL_PEER_MAP_CAPACITY),
    {
        small_len(&self.0) == SMALL_PEER_MAP_CAPACITY
    }

    pub fn num_seeders_leechers(&self) -> (r: (usize, usize))
        ensures
            r.0 == num_seeders(self.entries()),
            r.1 == self.entries().len() - num_seeders(self.entries()),
    {
        let len = small_len(&self.0);
        let mut seeders: usize = 0;
        let mut i: usize = 0;
        while i < len
            invariant
                len == self.entries().len(),
                len <= 4,
                0 <= i <= len,
                seeders == num_seeders(self.entries().take(i as int)),
                seeders <= i,
            decreases len - i,
        {
            let e = small_get(&self.0, i);
            assert(self.entries().take(i + 1).drop_last() =~= self.entries().take(i as int));
            if e.1.is_seeder {
                seeders = seeders + 1;
            }
            i = i + 1;
        }
        assert(self.entries().take(len as int) =~= self.entries());
        proof {
            lemma_count_le_len(self.entries(), seeder_pred());
        }
        (seeders, len - seeders)
    }

    pub fn insert(&mut self, key: PeerMapKey, peer: Peer)
        requires
            old(self).wf(),
            old(self).entries().len() < SMALL_PEER_MAP_CAPACITY,
            !has_key(old(self).entries(), key),
        ensures
            final(self).entries() == old(self).entries().push((key, peer)),
            final(self).wf(),
    {
        small_push(&mut self.0, (key, peer));
    }

    pub fn remove(&mut self, key: &PeerMapKey) -> (r: Option<Peer>)
        requires
            old(self).wf(),
        ensures
            final(self).wf(),
            has_key(old(self).entries(), *key) ==> r == Some(
                old(self).entries()[key_index(old(self).entries(), *key)].1,
            ) && final(self).entries() == old(self).entries().remove(
                key_index(old(self).entries(), *key),
            ),
            !has_key(old(self).entries(), *key) ==> r is None && final(self).entries() == old(self).entries(),
            !has_key(final(self).entries(), *key),
    {
        let len = small_len(&self.0);
        let mut i: usize = 0;
        while i < len
            invariant
                len == self.entries().len(),
                self.entries() == old(self).entries(),
                self.wf(),
                0 <= i <= len,
                forall|j: int| 0 <= j < i ==> self.entries()[j].0 != *key,
            decreases len - i,
        {
            let e = small_get(&self.0, i);
            if e.0.0 == key.0 && e.0.1 == key.1 {
                proof {
                    lemma_key_index(self.entries(), *key, i as int);
                    lemma_remove_keys_unique(self.entries(), i as int);
                }
                let removed = small_remove(&mut self.0, i);
                assert(!has_key(self.entries(), *key));
                return Some(removed.1);
            }
            i = i + 1;
        }
        None
    }

    pub fn extract_response_peers<I: Ip>(&self, max_num_peers_to_take: usize) -> (r: Vec<ResponsePeer<I>>)
        ensures
            r@ == response_peers_of::<I>(
                self.entries().take(
                    if max_num_peers_to_take < self.entries().len() {
                        max_num_peers_to_take as int
                    } else {
                        self.entries().len() as int
                    },
                ),
            ),
    {
        let len = small_len(&self.0);
        let n = if max_num_peers_to_take < len { max_num_peers_to_take } else { len };
        let mut peers: Vec<ResponsePeer<I>> = Vec::new();
        let mut i: usize = 0;
        while i < n
            invariant
                len == self.entries().len(),
                n <= len,
                0 <= i <= n,
                peers@ == response_peers_of::<I>(self.entries().take(i as int)),
            decreases n - i,
        {
            let e = small_get(&self.0, i);
            peers.push(response_peer_from_key::<I>(e.0));
            assert(response_peers_of::<I>(self.entries().take(i + 1)) =~= response_peers_of::<I>(
                self.entries().take(i as int),
            ).push(response_peer_of::<I>(e.0)));
            i = i + 1;
        }
        peers
    }

    pub fn clean_and_get_num_peers(&mut self, now: SecondsSinceServerStart) -> (r: usize)
        requires
            old(self).wf(),
        ensures
            final(self).wf(),
            final(self).entries() == retain_where(old(self).entries(), valid_pred(now)),
            r == final(self).entries().len(),
    {
        proof {
            lemma_retain_keys_unique(self.entries(), valid_pred(now));
        }
        small_retain_valid(&mut self.0, now);
        small_len(&self.0)
    }

    pub fn to_large(&self) -> (r: LargePeerMap)
        requires
            self.wf(),
        ensures
            r.wf(),
            r.entries() == self.entries(),
    {
        let len = small_len(&self.0);
        let mut large = LargePeerMap::new();
        let mut i: usize = 0;
        while i < len
            invariant
                len == self.entries().len(),
                self.wf(),
                0 <= i <= len,
                large.wf(),
                large.entries() == self.entries().take(i as int),
            decreases len - i,
        {
            let e = small_get(&self.0, i);
            assert(!has_key(large.entries(), e.0)) by {
                if has_key(large.entries(), e.0) {
                    let j = choose|j: int| 0 <= j < large.entries().len() && large.entries()[j].0 == e.0;
                    assert(self.entries()[j].0 == self.entries()[i as int].0);
                }
            }
            large.insert(e.0, e.1);
            assert(self.entries().take(i + 1) =~= self.entries().take(i as int).push(e));
            i = i + 1;
        }
        assert(self.entries().take(len as int) =~= self.entries());
        large
    }
}

// ---------------------------------------------------------------------
// The ordered map: an `indexmap::IndexMap`

/// The entries of a large peer map's `IndexMap`, in the map's order
pub uninterp spec fn large_map_entries(m: IndexMap<PeerMapKey, Peer, ahash::RandomState>) -> Seq<(PeerMapKey, Peer)>;

/// An empty `IndexMap` (`IndexMap::default`)
#[verifier::external_body]
fn large_new() -> (r: IndexMap<PeerMapKey, Peer, ahash::RandomState>)
    ensures
        large_map_entries(r) == Seq::<(PeerMapKey, Peer)>::empty(),
{
    IndexMap::default()
}

/// `IndexMap::len`: the number of entries
#[verifier::external_body]
fn large_len(m: &IndexMap<PeerMapKey, Peer, ahash::RandomState>) -> (r: usize)
    ensures
        r == large_map_entries(*m).len(),
{
    m.len()
}

/// The entry at an index in the map's order (`IndexMap::get_index`)
#[verifier::external_body]
fn large_get_index(m: &IndexMap<PeerMapKey, Peer, ahash::RandomState>, i: usize) -> (r: (PeerMapKey, Peer))
    requires
        i < large_map_entries(*m).len(),
    ensures
        r == large_map_entries(*m)[i as int],
{
    let (k, v) = m.get_index(i).unwrap();
    (*k, *v)
}

/// `IndexMap::insert` of a key that the map does not hold: the entry is
/// appended last in order
#[verifier::external_body]
fn large_insert(m: &mut IndexMap<PeerMapKey, Peer, ahash::RandomState>, k: PeerMapKey, v: Peer)
    requires
        keys_unique(large_map_entries(*old(m))),
        !has_key(large_map_entries(*old(m)), k),
    ensures
        large_map_entries(*final(m)) == large_map_entries(*old(m)).push((k, v)),
{
    m.insert(k, v);
}

/// `IndexMap::swap_remove`: removes the entry with the key, if any, by
/// moving the last entry into its place, and returns its value
#[verifier::external_body]
fn large_swap_remove(m: &mut IndexMap<PeerMapKey, Peer, ahash::RandomState>, k: &PeerMapKey) -> (r: Option<Peer>)
    requires
        keys_unique(large_map_entries(*old(m))),
    ensures
        has_key(large_map_entries(*old(m)), *k) ==> r == Some(
            large_map_entries(*old(m))[key_index(large_map_entries(*old(m)), *k)].1,
        ) && large_map_entries(*final(m)) == swap_removed(
            large_map_entries(*old(m)),
            key_index(large_map_entries(*old(m)), *k),
        ),
        !has_key(large_map_entries(*old(m)), *k) ==> r is None && large_map_entries(*final(m))
            == large_map_entries(*old(m)),
{
    m.swap_remove(k)
}

/// `IndexMap::retain` keeping the peers still valid at `now`: the retained
/// entries keep their order
#[verifier::external_body]
fn large_retain_valid(m: &mut IndexMap<PeerMapKey, Peer, ahash::RandomState>, now: SecondsSinceServerStart)
    ensures
        large_map_entries(*final(m)) == retain_where(large_map_entries(*old(m)), valid_pred(now)),
{
    m.retain(|_, peer| peer.valid_until.valid(now))
}

/// `IndexMap::shrink_to_fit`: the entries stay as they are
#[verifier::external_body]
fn large_shrink_to_fit(m: &mut IndexMap<PeerMapKey, Peer, ahash::RandomState>)
    ensures
        large_map_entries(*final(m)) == large_map_entries(*old(m)),
{
    m.shrink_to_fit()
}

pub struct LargePeerMap {
    peers: IndexMap<PeerMapKey, Peer, ahash::RandomState>,
    num_seeders: usize,
}

impl LargePeerMap {
    pub closed spec fn entries(&self) -> Seq<(PeerMapKey, Peer)> {
        large_map_entries(self.peers)
    }

    pub closed spec fn wf(&self) -> bool {
        &&& keys_unique(self.entries())
        &&& self.num_seeders == num_seeders(self.entries())
        &&& self.entries().len() <= usize::MAX
    }

    pub fn new() -> (r: Self)
        ensures
            r.wf(),
            r.entries() == Seq::<(PeerMapKey, Peer)>::empty(),
    {
        LargePeerMap { peers: large_new(), num_seeders: 0 }
    }

    pub fn len(&self) -> (r: usize)
        ensures
            r == self.entries().len(),
    {
        large_len(&self.peers)
    }

    pub fn num_seeders_leechers(&self) -> (r: (usize, usize))
        requires
            self.wf(),
        ensures
            r.0 == num_seeders(self.entries()),
            r.1 == self.entries().len() - num_seeders(self.entries()),
    {
        proof {
            lemma_count_le_len(self.entries(), seeder_pred());
        }
        (self.num_seeders, large_len(&self.peers) - self.num_seeders)
    }

    pub fn insert(&mut self, key: PeerMapKey, peer: Peer)
        requires
            old(self).wf(),
            !has_key(old(self).entries(), key),
        ensures
            final(self).wf(),
            final(self).entries() == old(self).entries().push((key, peer)),
    {
        let ghost e = self.entries();
        assert(e.push((key, peer)).drop_last() =~= e);
        proof {
            lemma_count_le_len(e, seeder_pred());
        }
        large_insert(&mut self.peers, key, peer);
        let _new_len = large_len(&self.peers);
        if peer.is_seeder {
            self.num_seeders = self.num_seeders + 1;
        }
        assert(keys_unique(self.entries())) by {
            assert forall|i: int, j: int|
                0 <= i < self.entries().len() && 0 <= j < self.entries().len() && i != j implies
                self.entries()[i].0 != self.entries()[j].0 by {
                if i == e.len() {
                    assert(!has_key(e, key));
                    assert(e[j].0 != key);
                } else if j == e.len() {
                    assert(e[i].0 != key);
                }
            }
        }
    }

    pub fn remove_peer(&mut self, key: &PeerMapKey) -> (r: Option<Peer>)
        requires
            old(self).wf(),
        ensures
            final(self).wf(),
            has_key(old(self).entries(), *key) ==> r == Some(
                old(self).entries()[key_index(old(self).entries(), *key)].1,
            ) && final(self).entries() == swap_removed(
                old(self).entries(),
                key_index(old(self).entries(), *key),
            ),
            !has_key(old(self).entries(), *key) ==> r is None && final(self).entries() == old(self).entries(),
            !has_key(final(self).entries(), *key),
    {
        let ghost e = self.entries();
        proof {
            lemma_no_key_index(e, *key);
            if has_key(e, *key) {
                lemma_count_swap_removed(e, key_index(e, *key), seeder_pred());
                lemma_swap_removed_keys_unique(e, key_index(e, *key));
            }
        }
        let opt_removed_peer = large_swap_remove(&mut self.peers, key);
        if let Some(peer) = opt_removed_peer {
            if peer.is_seeder {
                self.num_seeders = self.num_seeders - 1;
            }
        }
        opt_removed_peer
    }

    /// Extract response peers
    ///
    /// If there are more peers in map than `max_num_peers_to_take`, do a
    /// random selection of peers from first and second halves of map in
    /// order to avoid returning too homogeneous peers.
    ///
    /// Does NOT filter out announcing peer.
    pub fn extract_response_peers<I: Ip>(&self, rng: &mut SmallRng, max_num_peers_to_take: usize) -> (r: Vec<
        ResponsePeer<I>,
    >)
        ensures
            large_selection::<I>(self.entries(), max_num_peers_to_take as int, r@),
    {
        let len = large_len(&self.peers);
        if len <= max_num_peers_to_take {
            let mut peers: Vec<ResponsePeer<I>> = Vec::new();
            let mut i: usize = 0;
            while i < len
                invariant
                    len == self.entries().len(),
                    0 <= i <= len,
                    peers@ == response_peers_of::<I>(self.entries().take(i as int)),
                decreases len - i,
            {
                let e = large_get_index(&self.peers, i);
                peers.push(response_peer_from_key::<I>(e.0));
                assert(response_peers_of::<I>(self.entries().take(i + 1)) =~= response_peers_of::<I>(
                    self.entries().take(i as int),
                ).push(response_peer_of::<I>(e.0)));
                i = i + 1;
            }
            assert(self.entries().take(len as int) =~= self.entries());
            peers
        } else {
            let middle_index = len / 2;
            let num_to_take_per_half = max_num_peers_to_take / 2;

            let offset_half_one = {
                let from: usize = 0;
                let to = if 1 > middle_index - num_to_take_per_half {
                    1
                } else {
                    middle_index - num_to_take_per_half
                };
                gen_range_usize(rng, from, to)
            };
            let offset_half_two = {
                let from = middle_index;
                let to = if middle_index + 1 > len - num_to_take_per_half {
                    middle_index + 1
                } else {
                    len - num_to_take_per_half
                };
                gen_range_usize(rng, from, to)
            };

            let end_half_one = offset_half_one + num_to_take_per_half;
            let end_half_two = offset_half_two + num_to_take_per_half;
            assert(end_half_one <= len);
            assert(end_half_two <= len);

            let mut peers: Vec<ResponsePeer<I>> = Vec::new();
            let mut i: usize = offset_half_one;
            while i < end_half_one
                invariant
                    len == self.entries().len(),
                    offset_half_one <= i <= end_half_one <= len,
                    peers@ == response_peers_of::<I>(self.entries().subrange(offset_half_one as int, i as int)),
                decreases end_half_one - i,
            {
                let e = large_get_index(&self.peers, i);
                peers.push(response_peer_from_key::<I>(e.0));
                assert(response_peers_of::<I>(self.entries().subrange(offset_half_one as int, i + 1))
                    =~= response_peers_of::<I>(
                    self.entries().subrange(offset_half_one as int, i as int),
                ).push(response_peer_of::<I>(e.0)));
                i = i + 1;
            }
            let ghost first = peers@;
            let mut i: usize = offset_half_two;
            while i < end_half_two
                invariant
                    len == self.entries().len(),
                    offset_half_two <= i <= end_half_two <= len,
                    peers@ == first + response_peers_of::<I>(
                        self.entries().subrange(offset_half_two as int, i as int),
                    ),
                decreases end_half_two - i,
            {
                let e = large_get_index(&self.peers, i);
                peers.push(response_peer_from_key::<I>(e.0));
                assert(response_peers_of::<I>(self.entries().subrange(offset_half_two as int, i + 1))
                    =~= response_peers_of::<I>(
                    self.entries().subrange(offset_half_two as int, i as int),
                ).push(response_peer_of::<I>(e.0)));
                i = i + 1;
            }
            let ghost s = self.entries();
            let ghost o1 = offset_half_one as int;
            let ghost o2 = offset_half_two as int;
            assert(valid_offsets(len as int, max_num_peers_to_take as int, o1, o2));
            assert(peers@ =~= response_peers_of::<I>(
                selected_entries(s, max_num_peers_to_take as int, o1, o2),
            ));
            peers
        }
    }

    pub fn clean_and_get_num_peers(&mut self, now: SecondsSinceServerStart) -> (r: usize)
        requires
            old(self).wf(),
        ensures
            final(self).wf(),
            final(self).entries() == retain_where(old(self).entries(), valid_pred(now)),
            r == final(self).entries().len(),
    {
        let len = large_len(&self.peers);
        let ghost e = self.entries();
        let mut expired_seeders: usize = 0;
        let mut i: usize = 0;
        while i < len
            invariant
                len == e.len(),
                e == self.entries(),
                self.wf(),
                0 <= i <= len,
                expired_seeders == num_seeders(crate::collections::dropped_where(e.take(i as int), valid_pred(now))),
                expired_seeders <= i,
            decreases len - i,
        {
            let entry = large_get_index(&self.peers, i);
            let ghost pre = e.take(i as int);
            assert(e.take(i + 1).drop_last() =~= pre);
            assert(e.take(i + 1).last() == entry);
            if !entry.1.valid_until.valid(now) {
                let ghost d = crate::collections::dropped_where(pre, valid_pred(now));
                assert(d.push(entry).drop_last() =~= d);
                if entry.1.is_seeder {
                    expired_seeders = expired_seeders + 1;
                }
            }
            i = i + 1;
        }
        assert(e.take(len as int) =~= e);
        proof {
            lemma_retain_keys_unique(e, valid_pred(now));
            lemma_retain_split(e, valid_pred(now), seeder_pred());
        }
        large_retain_valid(&mut self.peers, now);
        self.num_seeders = self.num_seeders - expired_seeders;
        large_shrink_to_fit(&mut self.peers);
        large_len(&self.peers)
    }

    pub fn try_shrink(&self) -> (r: Option<SmallPeerMap>)
        requires
            self.wf(),
        ensures
            self.entries().len() <= SMALL_PEER_MAP_CAPACITY ==> (r matches Some(small) && small.wf()
                && small.entries() == self.entries()),
            self.entries().len() > SMALL_PEER_MAP_CAPACITY ==> r is None,
    {
        let len = large_len(&self.peers);
        if len <= SMALL_PEER_MAP_CAPACITY {
            let mut small = SmallPeerMap::new();
            let mut i: usize = 0;
            while i < len
                invariant
                    len == self.entries().len(),
                    len <= 4,
                    self.wf(),
                    0 <= i <= len,
                    small.wf(),
                    small.entries() == self.entries().take(i as int),
                decreases len - i,
            {
                let e = large_get_index(&self.peers, i);
                assert(!has_key(small.entries(), e.0)) by {
                    if has_key(small.entries(), e.0) {
                        let j = choose|j: int| 0 <= j < small.entries().len() && small.entries()[j].0 == e.0;
                        assert(self.entries()[j].0 == self.entries()[i as int].0);
                    }
                }
                small.insert(e.0, e.1);
                assert(self.entries().take(i + 1) =~= self.entries().take(i as int).push(e));
                i = i + 1;
            }
            assert(self.entries().take(len as int) =~= self.entries());
            Some(small)
        } else {
            None
        }
    }
}

// ---------------------------------------------------------------------
// A torrent's peers, in whichever of the two maps fits their number

#[derive(PartialEq, Eq, Clone, Copy, Debug, Structural)]
pub enum PeerStatus {
    Seeding,
    Leeching,
    Stopped,
}

impl PeerStatus {
    pub open spec fn spec_from_event_and_bytes_left(event: AnnounceEvent, bytes_left: usize) -> Self {
        if event is Stopped {
            PeerStatus::Stopped
        } else if bytes_left == 0 {
            PeerStatus::Seeding
        } else {
            PeerStatus::Leeching
        }
    }

    pub fn from_event_and_bytes_left(event: AnnounceEvent, bytes_left: usize) -> (r: Self)
        ensures
            r == Self::spec_from_event_and_bytes_left(event, bytes_left),
    {
        if matches!(event, AnnounceEvent::Stopped) {
            Self::Stopped
        } else if bytes_left == 0 {
            Self::Seeding
        } else {
            Self::Leeching
        }
    }
}

/// Number of peers to put in an announce response: the configured maximum,
/// or fewer if the peer asks for fewer (asking for none asks for the
/// maximum)
pub open spec fn max_peers_to_take(max_peers: usize, numwant: Option<usize>) -> int {
    match numwant {
        Some(n) => if n == 0 || max_peers < n { max_peers as int } else { n as int },
        None => max_peers as int,
    }
}

/// The entries once the peer with the key is taken out: the small map
/// shifts the later entries down, the large one moves its last entry into
/// the gap
pub open spec fn rest_after_removal_of(
    e: Seq<(PeerMapKey, Peer)>,
    small: bool,
    key: PeerMapKey,
) -> Seq<(PeerMapKey, Peer)> {
    if !has_key(e, key) {
        e
    } else if small {
        e.remove(key_index(e, key))
    } else {
        swap_removed(e, key_index(e, key))
    }
}

/// The response peers of an announce on a map with the entries `e`, small
/// if `small`: the first ones of the others for a small map, a selection
/// from both halves for a large one
pub open spec fn announce_response_peers_of<I: Ip>(
    e: Seq<(PeerMapKey, Peer)>,
    small: bool,
    key: PeerMapKey,
    max: int,
    peers: Seq<ResponsePeer<I>>,
) -> bool {
    let rest = rest_after_removal_of(e, small, key);
    &&& small ==> peers == response_peers_of::<I>(rest.take(if max < rest.len() { max } else { rest.len() as int }))
    &&& !small ==> large_selection::<I>(rest, max, peers)
}

/// What an announce does: `new` is the torrent after the announce on one
/// with the entries `old_entries` (in a small map if `old_small`), and `r`
/// the seeders and leechers among the other peers and the response peers
pub open spec fn upsert_post<I: Ip>(
    old_entries: Seq<(PeerMapKey, Peer)>,
    old_small: bool,
    new: TorrentData,
    max_peers: usize,
    request: AnnounceRequest,
    ip_address: I,
    valid_until: ValidUntil,
    r: (usize, usize, Seq<ResponsePeer<I>>),
) -> bool {
    let key = peer_map_key(ip_address, request.port);
    let status = PeerStatus::spec_from_event_and_bytes_left(request.event, request.bytes_left);
    let rest = rest_after_removal_of(old_entries, old_small, key);
    let max = max_peers_to_take(max_peers, request.numwant);
    &&& new.wf()
    &&& new.entries() == if status is Stopped {
        rest
    } else {
        rest.push((key, Peer { is_seeder: status is Seeding, valid_until }))
    }
    &&& (new is Large) == if old_small {
        rest.len() == SMALL_PEER_MAP_CAPACITY && !(status is Stopped)
    } else {
        !(status is Stopped && rest.len() <= SMALL_PEER_MAP_CAPACITY)
    }
    &&& r.0 == num_seeders(rest)
    &&& r.1 == rest.len() - num_seeders(rest)
    &&& announce_response_peers_of::<I>(old_entries, old_small, key, max, r.2)
}

/// Scrape statistics of a torrent with the entries: its seeders and
/// leechers; downloads are not counted
pub open spec fn scrape_statistics_of(e: Seq<(PeerMapKey, Peer)>) -> ScrapeStatistics {
    ScrapeStatistics { complete: num_seeders(e) as usize, incomplete: (e.len() - num_seeders(e)) as usize, downloaded: 0 }
}

pub enum TorrentData {
    Small(SmallPeerMap),
    Large(LargePeerMap),
}

impl Default for TorrentData {
    fn default() -> (r: Self)
        ensures
            r is Small,
            r.wf(),
            r.entries() == Seq::<(PeerMapKey, Peer)>::empty(),
    {
        TorrentData::Small(SmallPeerMap::new())
    }
}

impl TorrentData {
    pub open spec fn entries(&self) -> Seq<(PeerMapKey, Peer)> {
        match self {
            TorrentData::Small(m) => m.entries(),
            TorrentData::Large(m) => m.entries(),
        }
    }

    pub open spec fn wf(&self) -> bool {
        match self {
            TorrentData::Small(m) => m.wf(),
            TorrentData::Large(m) => m.wf(),
        }
    }

    /// Handle an announce: take the announcing peer out, count the other
    /// peers and pick response peers among them, then put the peer back in
    /// unless it stopped. Returns the seeders, the leechers and the response
    /// peers.
    ///
    /// The response is created before inserting the peer, so it never holds
    /// the announcing peer, and the reported number of seeders and leechers
    /// does not count it.
    pub fn upsert_peer_and_get_response_peers<I: Ip>(
        &mut self,
        max_peers: usize,
        rng: &mut SmallRng,
        request: &AnnounceRequest,
        ip_address: I,
        valid_until: ValidUntil,
    ) -> (r: (usize, usize, Vec<ResponsePeer<I>>))
        requires
            old(self).wf(),
        ensures
            upsert_post::<I>(
                old(self).entries(),
                *old(self) is Small,
                *final(self),
                max_peers,
                *request,
                ip_address,
                valid_until,
                (r.0, r.1, r.2@),
            ),
            r.2@.len() <= max_peers,
    {
        let max_num_peers_to_take: usize = match request.numwant {
            Some(numwant) => if numwant == 0 || max_peers < numwant {
                max_peers
            } else {
                numwant
            },
            None => max_peers,
        };

        let status = PeerStatus::from_event_and_bytes_left(request.event, request.bytes_left);
        let stopped = matches!(status, PeerStatus::Stopped);

        let peer_map_key: PeerMapKey = (ip_address.bits(), request.port);
        let peer = Peer { is_seeder: matches!(status, PeerStatus::Seeding), valid_until };
        let ghost old_entries = self.entries();
        let ghost old_small = *self is Small;
        proof {
            lemma_no_key_index(old_entries, peer_map_key);
        }

        let mut old_map = TorrentData::Small(SmallPeerMap::new());
        std::mem::swap(self, &mut old_map);

        // Create the response before inserting the peer. This means that we
        // don't have to filter it out from the response peers, and that the
        // reported number of seeders/leechers will not include it
        let response_data = match old_map {
            TorrentData::Small(mut peer_map) => {
                let _opt_removed_peer = peer_map.remove(&peer_map_key);

                let (seeders, leechers) = peer_map.num_seeders_leechers();
                let response_peers = peer_map.extract_response_peers(max_num_peers_to_take);

                // Convert peer map to large variant if it is full and
                // announcing peer is not stopped and will therefore be
                // inserted
                if peer_map.is_full() && !stopped {
                    let mut large = peer_map.to_large();
                    large.insert(peer_map_key, peer);
                    *self = TorrentData::Large(large);
                } else {
                    if !stopped {
                        peer_map.insert(peer_map_key, peer);
                    }
                    *self = TorrentData::Small(peer_map);
                }
                (seeders, leechers, response_peers)
            },
            TorrentData::Large(mut peer_map) => {
                let _opt_removed_peer = peer_map.remove_peer(&peer_map_key);

                let (seeders, leechers) = peer_map.num_seeders_leechers();
                let response_peers = peer_map.extract_response_peers(rng, max_num_peers_to_take);

                // Try shrinking the map if announcing peer is stopped and
                // will therefore not be inserted
                if stopped {
                    match peer_map.try_shrink() {
                        Some(small) => {
                            *self = TorrentData::Small(small);
                        },
                        None => {
                            *self = TorrentData::Large(peer_map);
                        },
                    }
                } else {
                    peer_map.insert(peer_map_key, peer);
                    *self = TorrentData::Large(peer_map);
                }
                (seeders, leechers, response_peers)
            },
        };
        proof {
            assert(max_peers_to_take(max_peers, request.numwant) == max_num_peers_to_take);
            assert(peer_map_key == (ip_address.spec_bits(), request.port));
            law_announce_response_size::<I>(
                old_entries,
                old_small,
                *self,
                max_peers,
                *request,
                ip_address,
                valid_until,
                (response_data.0, response_data.1, response_data.2@),
            );
        }
        response_data
    }

    pub fn scrape_statistics(&self) -> (r: ScrapeStatistics)
        requires
            self.wf(),
        ensures
            r == scrape_statistics_of(self.entries()),
    {
        let (seeders, leechers) = match self {
            TorrentData::Small(peer_map) => peer_map.num_seeders_leechers(),
            TorrentData::Large(peer_map) => peer_map.num_seeders_leechers(),
        };

        ScrapeStatistics { complete: seeders, incomplete: leechers, downloaded: 0 }
    }

    /// Remove the peers that are no longer valid and return the number of
    /// remaining peers. A large map stays large.
    pub fn clean_and_get_num_peers(&mut self, now: SecondsSinceServerStart) -> (r: usize)
        requires
            old(self).wf(),
        ensures
            final(self).wf(),
            final(self).entries() == retain_where(old(self).entries(), valid_pred(now)),
            r == final(self).entries().len(),
            (*final(self) is Large) == (*old(self) is Large),
    {
        match self {
            TorrentData::Small(peer_map) => peer_map.clean_and_get_num_peers(now),
            TorrentData::Large(peer_map) => peer_map.clean_and_get_num_peers(now),
        }
    }
}

// ---------------------------------------------------------------------
// The torrents of one IP version: an `indexmap::IndexMap` by info hash

/// The torrents of a torrent map's `IndexMap`, by info hash
pub uninterp spec fn torrent_map_entries(m: IndexMap<InfoHash, TorrentData, ahash::RandomState>) -> Map<
    InfoHash,
    TorrentData,
>;

/// An empty `IndexMap` (`IndexMap::default`)
#[verifier::external_body]
fn torrents_new() -> (r: IndexMap<InfoHash, TorrentData, ahash::RandomState>)
    ensures
        torrent_map_entries(r).dom() == Set::<InfoHash>::empty(),
{
    IndexMap::default()
}

/// `IndexMap::entry(key).or_insert(default)`: the torrent of the key, first
/// inserted as `default` where the key is absent. What is written through
/// the reference is what the map holds for the key.
#[verifier::external_body]
fn torrents_entry_or_insert(
    m: &mut IndexMap<InfoHash, TorrentData, ahash::RandomState>,
    key: InfoHash,
    default: TorrentData,
) -> (r: &mut TorrentData)
    ensures
        torrent_map_entries(*old(m)).dom().contains(key) ==> *r == torrent_map_entries(*old(m))[key],
        !torrent_map_entries(*old(m)).dom().contains(key) ==> *r == default,
        torrent_map_entries(*final(m)) == torrent_map_entries(*old(m)).insert(key, *final(r)),
{
    m.entry(key).or_insert(default)
}

/// `IndexMap::get`: the torrent of the key, if the map holds it
#[verifier::external_body]
fn torrents_get<'a>(m: &'a IndexMap<InfoHash, TorrentData, ahash::RandomState>, key: &InfoHash) -> (r: Option<
    &'a TorrentData,
>)
    ensures
        match r {
            Some(t) => torrent_map_entries(*m).dom().contains(*key) && *t == torrent_map_entries(*m)[*key],
            None => !torrent_map_entries(*m).dom().contains(*key),
        },
{
    m.get(key)
}

/// `IndexMap::retain`, which hands each torrent once to the closure and
/// keeps it where the closure returns `true`: here the closure is
/// `clean_torrent`, so the torrents kept are those it keeps, cleaned.
#[verifier::external_body]
fn torrents_retain_cleaned(
    m: &mut IndexMap<InfoHash, TorrentData, ahash::RandomState>,
    access_list: &AccessList,
    mode: AccessListMode,
    now: SecondsSinceServerStart,
)
    requires
        forall|k: InfoHash| #[trigger] torrent_map_entries(*old(m)).dom().contains(k) ==> torrent_map_entries(
            *old(m),
        )[k].wf(),
    ensures
        forall|k: InfoHash|
            #[trigger] torrent_map_entries(*final(m)).dom().contains(k) <==> torrent_map_entries(*old(m)).dom().contains(k)
                && torrent_kept(torrent_map_entries(*old(m))[k], access_list@, mode, now, k),
        forall|k: InfoHash| #[trigger] torrent_map_entries(*final(m)).dom().contains(k) ==> torrent_cleaned(
            torrent_map_entries(*old(m))[k],
            torrent_map_entries(*final(m))[k],
            now,
        ),
{
    m.retain(|info_hash, torrent| clean_torrent(torrent, info_hash, access_list, mode, now))
}

/// `IndexMap::shrink_to_fit`: gives back spare capacity; the torrents stay
#[verifier::external_body]
fn torrents_shrink_to_fit(m: &mut IndexMap<InfoHash, TorrentData, ahash::RandomState>)
    ensures
        torrent_map_entries(*final(m)) == torrent_map_entries(*old(m)),
{
    m.shrink_to_fit()
}

/// Number of peers of a torrent that are still valid at `now`
pub open spec fn valid_peer_count(t: TorrentData, now: SecondsSinceServerStart) -> int {
    retain_where(t.entries(), valid_pred(now)).len() as int
}

/// Whether cleaning keeps a torrent: the access list allows its info hash
/// and it still has a valid peer
pub open spec fn torrent_kept(
    t: TorrentData,
    access_list: Set<[u8; 20]>,
    mode: AccessListMode,
    now: SecondsSinceServerStart,
    info_hash: InfoHash,
) -> bool {
    allows_spec(access_list, mode, info_hash.0) && valid_peer_count(t, now) > 0
}

/// A torrent after its peers were cleaned: the valid peers stay in order,
/// in a map of the same kind
pub open spec fn torrent_cleaned(before: TorrentData, after: TorrentData, now: SecondsSinceServerStart) -> bool {
    &&& after.wf()
    &&& after.entries() == retain_where(before.entries(), valid_pred(now))
    &&& (after is Large) == (before is Large)
}

/// Whether cleaning keeps the torrent of the info hash: not if the access
/// list forbids it; else its invalid peers go, and it stays if any peer is
/// left
fn clean_torrent(
    torrent: &mut TorrentData,
    info_hash: &InfoHash,
    access_list: &AccessList,
    mode: AccessListMode,
    now: SecondsSinceServerStart,
) -> (keep: bool)
    requires
        old(torrent).wf(),
    ensures
        keep == torrent_kept(*old(torrent), access_list@, mode, now, *info_hash),
        keep ==> torrent_cleaned(*old(torrent), *final(torrent), now),
{
    if !access_list.allows(mode, &info_hash.0) {
        return false;
    }
    let num_peers = torrent.clean_and_get_num_peers(now);
    num_peers > 0
}

/// Scrape statistics of an info hash: those of its torrent, or zeros for
/// an unknown torrent
pub open spec fn torrent_statistics(m: Map<InfoHash, TorrentData>, info_hash: InfoHash) -> ScrapeStatistics {
    if m.dom().contains(info_hash) {
        scrape_statistics_of(m[info_hash].entries())
    } else {
        ScrapeStatistics { complete: 0, incomplete: 0, downloaded: 0 }
    }
}

/// What a scrape over the torrents `m` reports: each of the info hashes
/// with its statistics
pub open spec fn requested_statistics(m: Map<InfoHash, TorrentData>, info_hashes: Seq<InfoHash>) -> Map<
    InfoHash,
    ScrapeStatistics,
> {
    Map::new(|h: InfoHash| info_hashes.contains(h), |h: InfoHash| torrent_statistics(m, h))
}

/// What an announce does to the torrents: the torrent of the info hash is
/// there afterwards, announced to as `TorrentData` does (a new torrent
/// starting without peers, in a small map), and no other torrent changes
pub open spec fn torrents_upserted<I: Ip>(
    old: Map<InfoHash, TorrentData>,
    new: Map<InfoHash, TorrentData>,
    max_peers: usize,
    request: AnnounceRequest,
    ip_address: I,
    valid_until: ValidUntil,
    r: (usize, usize, Seq<ResponsePeer<I>>),
) -> bool {
    let ih = request.info_hash;
    &&& new.dom() == old.dom().insert(ih)
    &&& new.remove(ih) == old.remove(ih)
    &&& upsert_post::<I>(
        if old.dom().contains(ih) { old[ih].entries() } else { Seq::empty() },
        !old.dom().contains(ih) || old[ih] is Small,
        new[ih],
        max_peers,
        request,
        ip_address,
        valid_until,
        r,
    )
}

pub struct TorrentMap {
    torrents: IndexMap<InfoHash, TorrentData, ahash::RandomState>,
}

impl TorrentMap {
    /// The torrents, by info hash
    pub closed spec fn view(&self) -> Map<InfoHash, TorrentData> {
        torrent_map_entries(self.torrents)
    }

    pub open spec fn wf(&self) -> bool {
        forall|k: InfoHash| #[trigger] self@.dom().contains(k) ==> self@[k].wf()
    }

    /// A torrent map without torrents. The worker index and IP version only
    /// label metrics, which this library does not keep.
    pub fn new(worker_index: usize, ipv4: bool) -> (r: Self)
        ensures
            r.wf(),
            r@ == Map::<InfoHash, TorrentData>::empty(),
    {
        let r = TorrentMap { torrents: torrents_new() };
        assert(r@ =~= Map::<InfoHash, TorrentData>::empty());
        r
    }

    pub fn upsert_peer_and_get_response_peers<I: Ip>(
        &mut self,
        config: &Config,
        rng: &mut SmallRng,
        valid_until: ValidUntil,
        peer_ip_address: I,
        request: &AnnounceRequest,
    ) -> (r: (usize, usize, Vec<ResponsePeer<I>>))
        requires
            old(self).wf(),
        ensures
            final(self).wf(),
            torrents_upserted::<I>(
                old(self)@,
                final(self)@,
                config.protocol.max_peers,
                *request,
                peer_ip_address,
                valid_until,
                (r.0, r.1, r.2@),
            ),
            r.2@.len() <= config.protocol.max_peers,
    {
        let ghost old_view = self@;
        let ghost ih = request.info_hash;
        let torrent_data = torrents_entry_or_insert(&mut self.torrents, request.info_hash, TorrentData::default());
        proof {
            if old_view.dom().contains(ih) {
                assert(old_view[ih].wf());
            }
        }
        let r = torrent_data.upsert_peer_and_get_response_peers(
            config.protocol.max_peers,
            rng,
            request,
            peer_ip_address,
            valid_until,
        );
        proof {
            assert(self@.dom() =~= old_view.dom().insert(ih));
            assert(self@.remove(ih) =~= old_view.remove(ih));
            assert forall|k: InfoHash| #[trigger] self@.dom().contains(k) implies self@[k].wf() by {
                if k != ih {
                    assert(old_view.dom().contains(k));
                }
            }
        }
        r
    }

    /// The statistics of the first `max_scrape_torrents` info hashes of the
    /// request, in order of info hash, each info hash once
    pub fn handle_scrape_request(&self, config: &Config, request: &ScrapeRequest) -> (r: ScrapeResponse)
        requires
            self.wf(),
        ensures
            files_sorted(r.files@),
            files_map(r.files@) == requested_statistics(
                self@,
                request.info_hashes@.take(
                    if request.info_hashes@.len() < config.protocol.max_scrape_torrents {
                        request.info_hashes@.len() as int
                    } else {
                        config.protocol.max_scrape_torrents as int
                    },
                ),
            ),
    {
        let num_to_take = if request.info_hashes.len() < config.protocol.max_scrape_torrents {
            request.info_hashes.len()
        } else {
            config.protocol.max_scrape_torrents
        };
        let ghost hashes = request.info_hashes@;

        let mut files: Vec<(InfoHash, ScrapeStatistics)> = Vec::new();
        assert(files_map(files@) =~= requested_statistics(self@, hashes.take(0)));
        let mut i: usize = 0;
        while i < num_to_take
            invariant
                self.wf(),
                num_to_take <= hashes.len(),
                hashes == request.info_hashes@,
                0 <= i <= num_to_take,
                files_sorted(files@),
                files_map(files@) == requested_statistics(self@, hashes.take(i as int)),
            decreases num_to_take - i,
        {
            let info_hash = request.info_hashes[i];
            let stats = match torrents_get(&self.torrents, &info_hash) {
                Some(torrent_data) => {
                    proof {
                        assert(self@.dom().contains(info_hash));
                    }
                    torrent_data.scrape_statistics()
                },
                None => ScrapeStatistics { complete: 0, incomplete: 0, downloaded: 0 },
            };
            insert_file(&mut files, info_hash, stats);
            proof {
                let before = hashes.take(i as int);
                let after = hashes.take(i + 1);
                assert(after =~= before.push(info_hash));
                assert forall|h: InfoHash| after.contains(h) <==> before.contains(h) || h == info_hash by {
                    if after.contains(h) {
                        let x = choose|x: int| 0 <= x < after.len() && after[x] == h;
                        if x < i {
                            assert(before[x] == h);
                        }
                    }
                    if before.contains(h) {
                        let x = choose|x: int| 0 <= x < before.len() && before[x] == h;
                        assert(after[x] == h);
                    }
                    if h == info_hash {
                        assert(after[i as int] == h);
                    }
                }
                assert(files_map(files@) =~= requested_statistics(self@, after));
            }
            i = i + 1;
        }
        ScrapeResponse { files }
    }

    /// Remove the torrents that the access list forbids and those left
    /// without valid peers once their invalid peers are gone, and give back
    /// spare capacity
    pub fn clean(&mut self, access_list: &AccessList, mode: AccessListMode, now: SecondsSinceServerStart)
        requires
            old(self).wf(),
        ensures
            final(self).wf(),
            forall|k: InfoHash|
                #[trigger] final(self)@.dom().contains(k) <==> old(self)@.dom().contains(k) && torrent_kept(
                    old(self)@[k],
                    access_list@,
                    mode,
                    now,
                    k,
                ),
            forall|k: InfoHash| #[trigger] final(self)@.dom().contains(k) ==> torrent_cleaned(
                old(self)@[k],
                final(self)@[k],
                now,
            ),
    {
        assert forall|k: InfoHash| #[trigger] torrent_map_entries(self.torrents).dom().contains(k) implies torrent_map_entries(
            self.torrents,
        )[k].wf() by {
            assert(self@.dom().contains(k));
        }
        torrents_retain_cleaned(&mut self.torrents, access_list, mode, now);
        torrents_shrink_to_fit(&mut self.torrents);
    }
}

// ---------------------------------------------------------------------
// The torrents of both IP versions

pub struct TorrentMaps {
    pub ipv4: TorrentMap,
    pub ipv6: TorrentMap,
}

/// What cleaning does to the torrents of one IP version: exactly the
/// torrents that the access list allows and that still have a valid peer
/// are left, with their peers cleaned
pub open spec fn torrents_cleaned(
    old: Map<InfoHash, TorrentData>,
    new: Map<InfoHash, TorrentData>,
    access_list: Set<[u8; 20]>,
    mode: AccessListMode,
    now: SecondsSinceServerStart,
) -> bool {
    &&& forall|k: InfoHash| #[trigger] new.dom().contains(k) <==> old.dom().contains(k) && torrent_kept(old[k], access_list, mode, now, k)
    &&& forall|k: InfoHash| #[trigger] new.dom().contains(k) ==> torrent_cleaned(old[k], new[k], now)
}

impl TorrentMaps {
    pub open spec fn wf(&self) -> bool {
        self.ipv4.wf() && self.ipv6.wf()
    }

    /// The torrents of the IP version of an address
    pub open spec fn torrents_of(&self, peer_addr: CanonicalSocketAddr) -> Map<InfoHash, TorrentData> {
        if peer_addr@ is V4 {
            self.ipv4@
        } else {
            self.ipv6@
        }
    }

    /// Torrent maps without torrents, for the swarm worker of the index
    pub fn new(worker_index: usize) -> (r: Self)
        ensures
            r.wf(),
            r.ipv4@ == Map::<InfoHash, TorrentData>::empty(),
            r.ipv6@ == Map::<InfoHash, TorrentData>::empty(),
    {
        Self { ipv4: TorrentMap::new(worker_index, true), ipv6: TorrentMap::new(worker_index, false) }
    }

    /// What an announce from `peer_addr` does: it announces to the
    /// torrents of the address's IP version, as a peer of that version,
    /// answers with the seeders and leechers among the other peers and with
    /// response peers of that version only, and leaves the other IP
    /// version's torrents as they are
    pub open spec fn announced(
        old: TorrentMaps,
        new: TorrentMaps,
        config: &Config,
        valid_until: ValidUntil,
        peer_addr: CanonicalSocketAddr,
        request: AnnounceRequest,
        r: AnnounceResponse,
    ) -> bool {
        &&& new.wf()
        &&& r.announce_interval == config.protocol.peer_announce_interval
        &&& r.warning_message is None
        &&& match peer_addr@.spec_ip() {
            IpAddr::V4(ip) => {
                &&& new.ipv6@ == old.ipv6@
                &&& r.peers6.0@ == Seq::<ResponsePeer<u128>>::empty()
                &&& torrents_upserted::<u32>(
                    old.ipv4@,
                    new.ipv4@,
                    config.protocol.max_peers,
                    request,
                    ip,
                    valid_until,
                    (r.complete, r.incomplete, r.peers.0@),
                )
            },
            IpAddr::V6(ip) => {
                &&& new.ipv4@ == old.ipv4@
                &&& r.peers.0@ == Seq::<ResponsePeer<u32>>::empty()
                &&& torrents_upserted::<u128>(
                    old.ipv6@,
                    new.ipv6@,
                    config.protocol.max_peers,
                    request,
                    ip,
                    valid_until,
                    (r.complete, r.incomplete, r.peers6.0@),
                )
            },
        }
    }

    pub fn handle_announce_request(
        &mut self,
        config: &Config,
        rng: &mut SmallRng,
        valid_until: ValidUntil,
        peer_addr: CanonicalSocketAddr,
        request: AnnounceRequest,
    ) -> (r: AnnounceResponse)
        requires
            old(self).wf(),
        ensures
            TorrentMaps::announced(*old(self), *final(self), config, valid_until, peer_addr, request, r),
            r.peers.0@.len() <= config.protocol.max_peers,
            r.peers6.0@.len() <= config.protocol.max_peers,
    {
        match peer_addr.get().ip() {
            IpAddr::V4(peer_ip_address) => {
                let (seeders, leechers, response_peers) = self.ipv4.upsert_peer_and_get_response_peers(
                    config,
                    rng,
                    valid_until,
                    peer_ip_address,
                    &request,
                );

                AnnounceResponse {
                    complete: seeders,
                    incomplete: leechers,
                    announce_interval: config.protocol.peer_announce_interval,
                    peers: ResponsePeerListV4(response_peers),
                    peers6: ResponsePeerListV6(Vec::new()),
                    warning_message: None,
                }
            },
            IpAddr::V6(peer_ip_address) => {
                let (seeders, leechers, response_peers) = self.ipv6.upsert_peer_and_get_response_peers(
                    config,
                    rng,
                    valid_until,
                    peer_ip_address,
                    &request,
                );

                AnnounceResponse {
                    complete: seeders,
                    incomplete: leechers,
                    announce_interval: config.protocol.peer_announce_interval,
                    peers: ResponsePeerListV4(Vec::new()),
                    peers6: ResponsePeerListV6(response_peers),
                    warning_message: None,
                }
            },
        }
    }

    pub fn handle_scrape_request(
        &self,
        config: &Config,
        peer_addr: CanonicalSocketAddr,
        request: ScrapeRequest,
    ) -> (r: ScrapeResponse)
        requires
            self.wf(),
        ensures
            files_sorted(r.files@),
            files_map(r.files@) == requested_statistics(
                self.torrents_of(peer_addr),
                request.info_hashes@.take(
                    if request.info_hashes@.len() < config.protocol.max_scrape_torrents {
                        request.info_hashes@.len() as int
                    } else {
                        config.protocol.max_scrape_torrents as int
                    },
                ),
            ),
    {
        if peer_addr.is_ipv4() {
            self.ipv4.handle_scrape_request(config, &request)
        } else {
            self.ipv6.handle_scrape_request(config, &request)
        }
    }

    /// Remove forbidden or inactive torrents of both IP versions, and give
    /// back spare capacity, as seen at `now`
    pub fn clean_at(&mut self, config: &Config, access_list: &AccessList, now: SecondsSinceServerStart)
        requires
            old(self).wf(),
        ensures
            final(self).wf(),
            torrents_cleaned(old(self).ipv4@, final(self).ipv4@, access_list@, config.access_list.mode, now),
            torrents_cleaned(old(self).ipv6@, final(self).ipv6@, access_list@, config.access_list.mode, now),
    {
        self.ipv4.clean(access_list, config.access_list.mode, now);
        self.ipv6.clean(access_list, config.access_list.mode, now);
    }

    /// Remove forbidden or inactive torrents, as seen now: the time since
    /// the server started is read from the clock, and the rest is
    /// `clean_at`
    pub fn clean(&mut self, config: &Config, access_list: &AccessList, server_start_instant: ServerStartInstant)
        requires
            old(self).wf(),
        ensures
            final(self).wf(),
            exists|now: SecondsSinceServerStart|
                torrents_cleaned(old(self).ipv4@, final(self).ipv4@, access_list@, config.access_list.mode, now)
                    && torrents_cleaned(old(self).ipv6@, final(self).ipv6@, access_list@, config.access_list.mode, now),
    {
        let now = server_start_instant.seconds_elapsed();
        self.clean_at(config, access_list, now);
    }
}

// ---------------------------------------------------------------------
// Laws of the swarm

/// All keys of the entries are the integer form of an address of type `I`
pub open spec fn keys_in_range<I: Ip>(s: Seq<(PeerMapKey, Peer)>) -> bool {
    forall|i: int| 0 <= i < s.len() ==> (#[trigger] I::spec_from_bits(s[i].0.0)).spec_bits() == s[i].0.0
}

/// The response peer stands for an entry of the sequence
pub open spec fn peer_drawn_from<I: Ip>(s: Seq<(PeerMapKey, Peer)>, p: ResponsePeer<I>) -> bool {
    exists|j: int| 0 <= j < s.len() && p == response_peer_of::<I>(s[j].0)
}

proof fn lemma_rest_after_removal(e: Seq<(PeerMapKey, Peer)>, small: bool, key: PeerMapKey)
    requires
        keys_unique(e),
    ensures
        forall|j: int|
            0 <= j < rest_after_removal_of(e, small, key).len() ==> e.contains(
                #[trigger] rest_after_removal_of(e, small, key)[j],
            ),
        !has_key(rest_after_removal_of(e, small, key), key),
        rest_after_removal_of(e, small, key).len() == e.len() - (if has_key(e, key) { 1int } else { 0 }),
{
    lemma_no_key_index(e, key);
    if has_key(e, key) {
        let i = key_index(e, key);
        if small {
            lemma_remove_keys_unique(e, i);
            assert forall|j: int| 0 <= j < e.remove(i).len() implies e.contains(#[trigger] e.remove(i)[j]) by {
                let j2 = if j < i { j } else { j + 1 };
                assert(e.remove(i)[j] == e[j2]);
            }
            assert(!has_key(e.remove(i), key)) by {
                if has_key(e.remove(i), key) {
                    let j = choose|j: int| 0 <= j < e.remove(i).len() && e.remove(i)[j].0 == key;
                    let j2 = if j < i { j } else { j + 1 };
                    assert(e.remove(i)[j] == e[j2]);
                }
            }
        } else {
            lemma_swap_removed_keys_unique(e, i);
            assert forall|j: int| 0 <= j < swap_removed(e, i).len() implies e.contains(
                #[trigger] swap_removed(e, i)[j],
            ) by {
                let j2 = if j == i { e.len() - 1 } else { j };
                assert(swap_removed(e, i)[j] == e[j2]);
            }
            assert(!has_key(swap_removed(e, i), key)) by {
                if has_key(swap_removed(e, i), key) {
                    let j = choose|j: int| 0 <= j < swap_removed(e, i).len() && swap_removed(e, i)[j].0 == key;
                    let j2 = if j == i { e.len() - 1 } else { j };
                    assert(swap_removed(e, i)[j] == e[j2]);
                }
            }
        }
    } else {
        assert forall|j: int| 0 <= j < e.len() implies e.contains(#[trigger] e[j]) by {}
    }
}

/// An announce response never lists the announcing peer, lists at most
/// the number of peers asked for, and, when the other peers are no more
/// than that, lists as many peers as there are others.
pub proof fn law_announce_response_excludes_announcer<I: Ip>(
    e: Seq<(PeerMapKey, Peer)>,
    small: bool,
    ip_address: I,
    port: u16,
    max: int,
    peers: Seq<ResponsePeer<I>>,
)
    requires
        keys_unique(e),
        keys_in_range::<I>(e),
        0 <= max,
        announce_response_peers_of::<I>(e, small, peer_map_key(ip_address, port), max, peers),
    ensures
        forall|i: int| 0 <= i < peers.len() ==> peers[i] != (ResponsePeer { ip_address, port }),
        peers.len() <= max,
        rest_after_removal_of(e, small, peer_map_key(ip_address, port)).len() <= max ==> peers.len()
            == rest_after_removal_of(e, small, peer_map_key(ip_address, port)).len(),
{
    let key = peer_map_key(ip_address, port);
    let rest = rest_after_removal_of(e, small, key);
    lemma_rest_after_removal(e, small, key);
    I::lemma_bits_roundtrip(ip_address);
    // Each response peer stands for an entry of the rest
    assert forall|i: int| 0 <= i < peers.len() implies peer_drawn_from::<I>(rest, #[trigger] peers[i]) by {
        if small {
            let n = if max < rest.len() { max } else { rest.len() as int };
            assert(peers[i] == response_peer_of::<I>(rest.take(n)[i].0));
            assert(rest.take(n)[i] == rest[i]);
        } else if rest.len() <= max {
            assert(peers[i] == response_peer_of::<I>(rest[i].0));
        } else {
            let (o1, o2) = choose|o1: int, o2: int|
                valid_offsets(rest.len() as int, max, o1, o2) && peers == response_peers_of::<I>(
                    selected_entries(rest, max, o1, o2),
                );
            let h = max / 2;
            let sel = selected_entries(rest, max, o1, o2);
            if i < h {
                assert(sel[i] == rest[o1 + i]);
            } else {
                assert(sel[i] == rest[o2 + i - h]);
            }
        }
    }
    assert forall|i: int| 0 <= i < peers.len() implies peers[i] != (ResponsePeer { ip_address, port }) by {
        assert(peer_drawn_from::<I>(rest, peers[i]));
        let j = choose|j: int| 0 <= j < rest.len() && peers[i] == response_peer_of::<I>(rest[j].0);
        assert(e.contains(rest[j]));
        let k = choose|k: int| 0 <= k < e.len() && e[k] == rest[j];
        assert(I::spec_from_bits(e[k].0.0).spec_bits() == e[k].0.0);
        if peers[i] == (ResponsePeer { ip_address, port }) {
            assert(rest[j].0 == key);
        }
    }
    if !small && rest.len() > max {
        let (o1, o2) = choose|o1: int, o2: int|
            valid_offsets(rest.len() as int, max, o1, o2) && peers == response_peers_of::<I>(
                selected_entries(rest, max, o1, o2),
            );
        assert(selected_entries(rest, max, o1, o2).len() == 2 * (max / 2));
    }
}

proof fn lemma_response_peers_len<I: Ip>(
    e: Seq<(PeerMapKey, Peer)>,
    small: bool,
    key: PeerMapKey,
    max: int,
    peers: Seq<ResponsePeer<I>>,
)
    requires
        0 <= max,
        announce_response_peers_of::<I>(e, small, key, max, peers),
    ensures
        peers.len() <= max,
        rest_after_removal_of(e, small, key).len() <= max ==> peers.len() == rest_after_removal_of(e, small, key).len(),
{
    let rest = rest_after_removal_of(e, small, key);
    if !small && rest.len() > max {
        let (o1, o2) = choose|o1: int, o2: int|
            valid_offsets(rest.len() as int, max, o1, o2) && peers == response_peers_of::<I>(
                selected_entries(rest, max, o1, o2),
            );
        assert(selected_entries(rest, max, o1, o2).len() == 2 * (max / 2));
    }
}

/// An HTTP announce answers with at most the configured maximum number of
/// peers, whatever the peer asks for; with no more peers than a positive
/// `numwant`; and with all the other peers of the torrent when they are no
/// more than both.
pub proof fn law_announce_response_size<I: Ip>(
    old_entries: Seq<(PeerMapKey, Peer)>,
    old_small: bool,
    new: TorrentData,
    max_peers: usize,
    request: AnnounceRequest,
    ip_address: I,
    valid_until: ValidUntil,
    r: (usize, usize, Seq<ResponsePeer<I>>),
)
    requires
        upsert_post::<I>(old_entries, old_small, new, max_peers, request, ip_address, valid_until, r),
    ensures
        r.2.len() <= max_peers,
        request.numwant is Some && request.numwant->Some_0 > 0 ==> r.2.len() <= request.numwant->Some_0,
        ({
            let others = rest_after_removal_of(old_entries, old_small, peer_map_key(ip_address, request.port)).len();
            others <= max_peers && (request.numwant is Some && request.numwant->Some_0 > 0 ==> others
                <= request.numwant->Some_0) ==> r.2.len() == others
        }),
{
    let key = peer_map_key(ip_address, request.port);
    lemma_response_peers_len::<I>(old_entries, old_small, key, max_peers_to_take(max_peers, request.numwant), r.2);
}

/// The announce response does not count the announcing peer, a scrape right
/// after a non-stopped announce does: it reports one peer more, and one
/// seeder more exactly when the peer has nothing left to download.
pub proof fn law_scrape_after_announce_counts_peer<I: Ip>(
    old: Map<InfoHash, TorrentData>,
    new: Map<InfoHash, TorrentData>,
    max_peers: usize,
    request: AnnounceRequest,
    ip_address: I,
    valid_until: ValidUntil,
    r: (usize, usize, Seq<ResponsePeer<I>>),
)
    requires
        torrents_upserted::<I>(old, new, max_peers, request, ip_address, valid_until, r),
        old.dom().contains(request.info_hash) ==> old[request.info_hash].wf(),
        !(request.event is Stopped),
    ensures
        ({
            let stats = torrent_statistics(new, request.info_hash);
            &&& stats.complete + stats.incomplete == r.0 + r.1 + 1
            &&& stats.complete == r.0 + if request.bytes_left == 0 { 1int } else { 0 }
        }),
{
    let ih = request.info_hash;
    let e = if old.dom().contains(ih) { old[ih].entries() } else { Seq::<(PeerMapKey, Peer)>::empty() };
    let small = !old.dom().contains(ih) || old[ih] is Small;
    let key = peer_map_key(ip_address, request.port);
    let rest = rest_after_removal_of(e, small, key);
    let status = PeerStatus::spec_from_event_and_bytes_left(request.event, request.bytes_left);
    let peer = Peer { is_seeder: status is Seeding, valid_until };
    assert(new[ih].entries() == rest.push((key, peer)));
    crate::collections::lemma_count_add(rest, seq![(key, peer)], seeder_pred());
    crate::collections::lemma_count_single((key, peer), seeder_pred());
    assert(rest.push((key, peer)) =~= rest + seq![(key, peer)]);
    lemma_count_le_len(rest, seeder_pred());
    lemma_count_le_len(rest.push((key, peer)), seeder_pred());
    assert(new[ih].wf());
    assert(new.dom().contains(ih));
    assert(num_seeders(new[ih].entries()) <= new[ih].entries().len());
    assert(rest.len() == r.0 + r.1);
}

} // verus!
