//! Counts of the peers of each BitTorrent client, kept by the statistics
//! worker from the peers that the swarm workers add and remove.

use vstd::prelude::*;

use indexmap::IndexMap;

use crate::decimal::{thousands, thousands_string};
use crate::ordered::larger_first;
use crate::peer_id::{client_of_peer_id, client_text, hex_lower, PeerClient, PeerClientView};
use crate::udp::config::Config;
use crate::udp::protocol::PeerId;

verus! {

// ---------------------------------------------------------------------
// The peers: an `indexmap::IndexMap` from peer id to the number of
// torrents that the peer is in, its client and the hex of its first bytes

/// The peers of the map, by peer id
pub uninterp spec fn peer_entries(m: IndexMap<PeerId, (usize, PeerClient, String), ahash::RandomState>) -> Map<
    PeerId,
    (usize, PeerClient, String),
>;

/// An empty `IndexMap` (`IndexMap::default`)
#[verifier::external_body]
fn peers_new() -> (r: IndexMap<PeerId, (usize, PeerClient, String), ahash::RandomState>)
    ensures
        peer_entries(r).dom() == Set::<PeerId>::empty(),
{
    IndexMap::default()
}

/// `IndexMap::contains_key`
#[verifier::external_body]
fn peers_contains(m: &IndexMap<PeerId, (usize, PeerClient, String), ahash::RandomState>, k: &PeerId) -> (r: bool)
    ensures
        r == peer_entries(*m).dom().contains(*k),
{
    m.contains_key(k)
}

/// `IndexMap::get_mut` of a key that the map holds. What is written
/// through the reference is what the map holds for the key.
#[verifier::external_body]
fn peers_get_mut<'a>(m: &'a mut IndexMap<PeerId, (usize, PeerClient, String), ahash::RandomState>, k: &PeerId) -> (r:
    &'a mut (usize, PeerClient, String))
    requires
        peer_entries(*old(m)).dom().contains(*k),
    ensures
        *r == peer_entries(*old(m))[*k],
        peer_entries(*final(m)) == peer_entries(*old(m)).insert(*k, *final(r)),
{
    m.get_mut(k).unwrap()
}

/// `IndexMap::insert`
#[verifier::external_body]
fn peers_insert(
    m: &mut IndexMap<PeerId, (usize, PeerClient, String), ahash::RandomState>,
    k: PeerId,
    v: (usize, PeerClient, String),
)
    ensures
        peer_entries(*final(m)) == peer_entries(*old(m)).insert(k, v),
{
    m.insert(k, v);
}

/// `IndexMap::swap_remove`: the key is gone afterwards
#[verifier::external_body]
fn peers_swap_remove(m: &mut IndexMap<PeerId, (usize, PeerClient, String), ahash::RandomState>, k: &PeerId)
    ensures
        peer_entries(*final(m)) == peer_entries(*old(m)).remove(*k),
{
    m.swap_remove(k);
}

/// `IndexMap::shrink_to_fit`: the peers stay as they are
#[verifier::external_body]
fn peers_shrink_to_fit(m: &mut IndexMap<PeerId, (usize, PeerClient, String), ahash::RandomState>)
    ensures
        peer_entries(*final(m)) == peer_entries(*old(m)),
{
    m.shrink_to_fit()
}

/// `ks` lists the peers of `m` each once, and `clients` holds their
/// clients in that order
pub open spec fn lists_clients(
    m: Map<PeerId, (usize, PeerClient, String)>,
    ks: Seq<PeerId>,
    clients: Seq<PeerClientView>,
) -> bool {
    &&& ks.no_duplicates()
    &&& forall|k: PeerId| ks.contains(k) <==> m.dom().contains(k)
    &&& clients.len() == ks.len()
    &&& forall|i: int| 0 <= i < ks.len() ==> clients[i] == (#[trigger] m[ks[i]]).1@
}

/// The clients, as views
pub open spec fn client_views(cs: Seq<&PeerClient>) -> Seq<PeerClientView> {
    cs.map_values(|c: &PeerClient| c@)
}

/// The clients of the peers (`IndexMap::values`, picking the client of
/// each), one per peer, in the map's order, which nothing here fixes
#[verifier::external_body]
fn peers_clients<'a>(m: &'a IndexMap<PeerId, (usize, PeerClient, String), ahash::RandomState>) -> (r: Vec<
    &'a PeerClient,
>)
    ensures
        exists|ks: Seq<PeerId>| #[trigger] lists_clients(peer_entries(*m), ks, client_views(r@)),
{
    m.values().map(|v| &v.1).collect()
}

// ---------------------------------------------------------------------
// The clients: an `indexmap::IndexMap` from client to its number of peers

/// The entries of the map, in its order
pub uninterp spec fn client_entries(m: IndexMap<PeerClient, usize, ahash::RandomState>) -> Seq<(PeerClient, usize)>;

/// No two entries are of the same client
pub open spec fn clients_unique(s: Seq<(PeerClient, usize)>) -> bool {
    forall|i: int, j: int| 0 <= i < s.len() && 0 <= j < s.len() && i != j ==> s[i].0@ != s[j].0@
}

/// An empty `IndexMap` (`IndexMap::default`)
#[verifier::external_body]
fn clients_new() -> (r: IndexMap<PeerClient, usize, ahash::RandomState>)
    ensures
        client_entries(r) == Seq::<(PeerClient, usize)>::empty(),
{
    IndexMap::default()
}

/// `IndexMap::get_index_of`: the index of the entry of the client, if any
#[verifier::external_body]
fn clients_index_of(m: &IndexMap<PeerClient, usize, ahash::RandomState>, c: &PeerClient) -> (r: Option<usize>)
    requires
        clients_unique(client_entries(*m)),
    ensures
        match r {
            Some(i) => i < client_entries(*m).len() && client_entries(*m)[i as int].0@ == c@,
            None => forall|i: int| 0 <= i < client_entries(*m).len() ==> client_entries(*m)[i].0@ != c@,
        },
{
    m.get_index_of(c)
}

/// The count at an index (`IndexMap::get_index_mut`). What is written
/// through the reference is what the map holds there.
#[verifier::external_body]
fn clients_count_at<'a>(m: &'a mut IndexMap<PeerClient, usize, ahash::RandomState>, i: usize) -> (r: &'a mut usize)
    requires
        i < client_entries(*old(m)).len(),
    ensures
        *r == client_entries(*old(m))[i as int].1,
        client_entries(*final(m)) == client_entries(*old(m)).update(
            i as int,
            (client_entries(*old(m))[i as int].0, *final(r)),
        ),
{
    m.get_index_mut(i).unwrap().1
}

/// `IndexMap::insert` of a client that the map does not hold: the entry is
/// appended last
#[verifier::external_body]
fn clients_insert_new(m: &mut IndexMap<PeerClient, usize, ahash::RandomState>, c: PeerClient, n: usize)
    requires
        clients_unique(client_entries(*old(m))),
        forall|i: int| 0 <= i < client_entries(*old(m)).len() ==> client_entries(*old(m))[i].0@ != c@,
    ensures
        client_entries(*final(m)) == client_entries(*old(m)).push((c, n)),
{
    m.insert(c, n);
}

/// `p` is a permutation of the indices below `n`
pub open spec fn is_permutation(p: Seq<int>, n: nat) -> bool {
    &&& p.len() == n
    &&& forall|i: int| 0 <= i < n ==> 0 <= #[trigger] p[i] < n
    &&& forall|i: int, j: int| 0 <= i < n && 0 <= j < n && i != j ==> p[i] != p[j]
    &&& forall|k: int| 0 <= k < n ==> #[trigger] index_hit(p, k)
}

/// Some index of `p` holds `k`
pub open spec fn index_hit(p: Seq<int>, k: int) -> bool {
    exists|i: int| 0 <= i < p.len() && p[i] == k
}

/// The entries are in order of their counts, largest first
pub open spec fn largest_first(s: Seq<(PeerClient, usize)>) -> bool {
    forall|i: int, j: int| 0 <= i < j < s.len() ==> s[i].1 >= s[j].1
}

/// `IndexMap::sort_unstable_by` with the larger count first: the entries
/// are rearranged, those with equal counts in some order
#[verifier::external_body]
fn clients_sort_largest_first(m: &mut IndexMap<PeerClient, usize, ahash::RandomState>)
    ensures
        largest_first(client_entries(*final(m))),
        client_entries(*final(m)).len() == client_entries(*old(m)).len(),
        exists|p: Seq<int>|
            is_permutation(p, client_entries(*old(m)).len()) && forall|i: int|
                0 <= i < p.len() ==> client_entries(*final(m))[i] == client_entries(*old(m))[#[trigger] p[i]],
{
    m.sort_unstable_by(|_, a, _, b| larger_first(a, b))
}

/// The entries, in order (`IndexMap::into_iter`)
#[verifier::external_body]
fn clients_into_vec(m: IndexMap<PeerClient, usize, ahash::RandomState>) -> (r: Vec<(PeerClient, usize)>)
    ensures
        r@ == client_entries(m),
{
    m.into_iter().collect()
}

// ---------------------------------------------------------------------
// Counting

/// A copy of the client
pub fn clone_client(c: &PeerClient) -> (r: PeerClient)
    ensures
        r == *c,
{
    match c {
        PeerClient::BitTorrent(v) => PeerClient::BitTorrent(v.clone()),
        PeerClient::Deluge(v) => PeerClient::Deluge(v.clone()),
        PeerClient::LibTorrentRakshasa(v) => PeerClient::LibTorrentRakshasa(v.clone()),
        PeerClient::LibTorrentRasterbar(v) => PeerClient::LibTorrentRasterbar(v.clone()),
        PeerClient::QBitTorrent(v) => PeerClient::QBitTorrent(v.clone()),
        PeerClient::Transmission(v) => PeerClient::Transmission(v.clone()),
        PeerClient::UTorrent(v) => PeerClient::UTorrent(v.clone()),
        PeerClient::UTorrentEmbedded(v) => PeerClient::UTorrentEmbedded(v.clone()),
        PeerClient::UTorrentMac(v) => PeerClient::UTorrentMac(v.clone()),
        PeerClient::UTorrentWeb(v) => PeerClient::UTorrentWeb(v.clone()),
        PeerClient::Vuze(v) => PeerClient::Vuze(v.clone()),
        PeerClient::WebTorrent(v) => PeerClient::WebTorrent(v.clone()),
        PeerClient::WebTorrentDesktop(v) => PeerClient::WebTorrentDesktop(v.clone()),
        PeerClient::Mainline(v) => PeerClient::Mainline(v.clone()),
        PeerClient::OtherWithPrefixAndVersion { prefix, version } => PeerClient::OtherWithPrefixAndVersion {
            prefix: prefix.clone(),
            version: version.clone(),
        },
        PeerClient::OtherWithPrefix(prefix) => PeerClient::OtherWithPrefix(prefix.clone()),
        PeerClient::Other => PeerClient::Other,
    }
}

/// Number of times the client occurs in the sequence
pub open spec fn occurrences(cs: Seq<PeerClientView>, c: PeerClientView) -> nat
    decreases cs.len(),
{
    if cs.len() == 0 {
        0
    } else {
        occurrences(cs.drop_last(), c) + if cs.last() == c { 1nat } else { 0nat }
    }
}

/// `r` counts the clients of `cs`: each client once, with its number of
/// occurrences
pub open spec fn counts_clients(cs: Seq<PeerClientView>, r: Seq<(PeerClient, usize)>) -> bool {
    &&& clients_unique(r)
    &&& forall|i: int| 0 <= i < r.len() ==> (#[trigger] r[i]).1 == occurrences(cs, r[i].0@)
    &&& forall|x: int| 0 <= x < cs.len() ==> client_listed(r, #[trigger] cs[x])
    &&& forall|i: int| 0 <= i < r.len() ==> occurrences(cs, (#[trigger] r[i]).0@) > 0
}

/// The client has an entry
pub open spec fn client_listed(r: Seq<(PeerClient, usize)>, c: PeerClientView) -> bool {
    exists|i: int| 0 <= i < r.len() && r[i].0@ == c
}

proof fn lemma_occurrences_le(cs: Seq<PeerClientView>, c: PeerClientView)
    ensures
        occurrences(cs, c) <= cs.len(),
    decreases cs.len(),
{
    if cs.len() > 0 {
        lemma_occurrences_le(cs.drop_last(), c);
    }
}

proof fn lemma_occurrences_positive(cs: Seq<PeerClientView>, x: int)
    requires
        0 <= x < cs.len(),
    ensures
        occurrences(cs, cs[x]) > 0,
    decreases cs.len(),
{
    if x < cs.len() - 1 {
        lemma_occurrences_positive(cs.drop_last(), x);
    }
}

/// Counts the clients in the map `clients` and sorts them, largest count
/// first
fn count_clients(clients: &Vec<&PeerClient>) -> (r: Vec<(PeerClient, usize)>)
    ensures
        counts_clients(client_views(clients@), r@),
        largest_first(r@),
{
    let ghost cs = client_views(clients@);
    let mut counts = clients_new();
    let mut x: usize = 0;
    while x < clients.len()
        invariant
            cs == client_views(clients@),
            0 <= x <= clients@.len(),
            counts_clients(cs.take(x as int), client_entries(counts)),
        decreases clients@.len() - x,
    {
        let c = clients[x];
        let ghost e = client_entries(counts);
        let ghost pre = cs.take(x as int);
        let ghost post = cs.take(x + 1);
        proof {
            assert(post.drop_last() =~= pre);
            assert(post.last() == c@);
            assert forall|y: int| 0 <= y < x + 1 implies #[trigger] post[y] == cs[y] by {}
        }
        match clients_index_of(&counts, c) {
            Some(i) => {
                proof {
                    lemma_occurrences_le(pre, c@);
                }
                let count = clients_count_at(&mut counts, i);
                *count = *count + 1;
                proof {
                    let e2 = client_entries(counts);
                    assert forall|j: int| 0 <= j < e2.len() implies (#[trigger] e2[j]).1 == occurrences(post, e2[j].0@) by {
                        if j != i {
                            assert(e2[j] == e[j]);
                            assert(e[j].0@ != c@);
                        }
                    }
                    assert forall|y: int| 0 <= y < post.len() implies client_listed(e2, #[trigger] post[y]) by {
                        if y < x {
                            assert(pre[y] == post[y]);
                            assert(client_listed(e, pre[y]));
                            let j = choose|j: int| 0 <= j < e.len() && e[j].0@ == pre[y];
                            assert(e2[j].0@ == e[j].0@);
                        } else {
                            assert(e2[i as int].0@ == post[y]);
                        }
                    }
                }
            },
            None => {
                proof {
                    assert(occurrences(pre, c@) == 0) by {
                        if occurrences(pre, c@) > 0 {
                            lemma_occurrences_zero(pre, c@);
                            let y = choose|y: int| 0 <= y < pre.len() && pre[y] == c@;
                            assert(client_listed(e, pre[y]));
                        }
                    }
                }
                clients_insert_new(&mut counts, clone_client(c), 1);
                proof {
                    let e2 = client_entries(counts);
                    assert forall|j: int| 0 <= j < e2.len() implies (#[trigger] e2[j]).1 == occurrences(post, e2[j].0@) by {
                        if j < e.len() {
                            assert(e2[j] == e[j]);
                        }
                    }
                    assert forall|y: int| 0 <= y < post.len() implies client_listed(e2, #[trigger] post[y]) by {
                        if y < x {
                            assert(pre[y] == post[y]);
                            assert(client_listed(e, pre[y]));
                            let j = choose|j: int| 0 <= j < e.len() && e[j].0@ == pre[y];
                            assert(e2[j] == e[j]);
                        } else {
                            assert(e2[e.len() as int].0@ == post[y]);
                        }
                    }
                }
            },
        }
        x = x + 1;
    }
    proof {
        assert(cs.take(x as int) =~= cs);
    }
    let ghost unsorted = client_entries(counts);
    clients_sort_largest_first(&mut counts);
    proof {
        let sorted = client_entries(counts);
        let p = choose|p: Seq<int>|
            is_permutation(p, unsorted.len()) && forall|i: int|
                0 <= i < p.len() ==> sorted[i] == unsorted[#[trigger] p[i]];
        assert forall|i: int, j: int| 0 <= i < sorted.len() && 0 <= j < sorted.len() && i != j implies sorted[i].0@
            != sorted[j].0@ by {
            assert(sorted[i] == unsorted[p[i]]);
            assert(sorted[j] == unsorted[p[j]]);
        }
        assert forall|i: int| 0 <= i < sorted.len() implies (#[trigger] sorted[i]).1 == occurrences(cs, sorted[i].0@)
            && occurrences(cs, sorted[i].0@) > 0 by {
            assert(sorted[i] == unsorted[p[i]]);
        }
        assert forall|y: int| 0 <= y < cs.len() implies client_listed(sorted, #[trigger] cs[y]) by {
            assert(client_listed(unsorted, cs[y]));
            let k = choose|k: int| 0 <= k < unsorted.len() && unsorted[k].0@ == cs[y];
            assert(index_hit(p, k));
            let i = choose|i: int| 0 <= i < p.len() && p[i] == k;
            assert(sorted[i] == unsorted[k]);
        }
    }
    clients_into_vec(counts)
}

proof fn lemma_occurrences_zero(cs: Seq<PeerClientView>, c: PeerClientView)
    requires
        occurrences(cs, c) > 0,
    ensures
        exists|y: int| 0 <= y < cs.len() && cs[y] == c,
    decreases cs.len(),
{
    if cs.last() != c {
        lemma_occurrences_zero(cs.drop_last(), c);
        let y = choose|y: int| 0 <= y < cs.drop_last().len() && cs.drop_last()[y] == c;
        assert(cs[y] == c);
    }
}

// ---------------------------------------------------------------------
// The counts that the statistics worker keeps

/// The clients of the peers `ks` of `m`, in that order
pub open spec fn clients_of(m: Map<PeerId, (usize, PeerClient, String)>, ks: Seq<PeerId>) -> Seq<PeerClientView> {
    ks.map_values(|k: PeerId| m[k].1@)
}

/// `r` counts the clients of the peers of `m`, each client once, largest
/// count first, and `ks` lists those peers
pub open spec fn counts_peer_clients(
    m: Map<PeerId, (usize, PeerClient, String)>,
    ks: Seq<PeerId>,
    r: Seq<(PeerClient, usize)>,
) -> bool {
    &&& ks.no_duplicates()
    &&& forall|k: PeerId| ks.contains(k) <==> m.dom().contains(k)
    &&& counts_clients(clients_of(m, ks), r)
    &&& largest_first(r)
}

/// The hex of the first eight bytes of a peer id
pub open spec fn prefix_hex(id: Seq<u8>) -> Seq<char> {
    hex_lower(id.take(8)).map_values(|b: u8| b as char)
}

/// The rows that show client counts: the client's text and its count with
/// thousands separators
pub open spec fn rows_of(counts: Seq<(PeerClient, usize)>, rows: Seq<(String, String)>) -> bool {
    &&& rows.len() == counts.len()
    &&& forall|i: int|
        0 <= i < rows.len() ==> (#[trigger] rows[i]).0@ == client_text(counts[i].0@) && rows[i].1@ == thousands(
            counts[i].1 as nat,
        )
}

/// Whether the statistics worker keeps peer client counts: when it writes
/// statistics as HTML and peer clients are counted
pub fn process_peer_client_data(config: &Config) -> (r: bool)
    ensures
        r == (config.statistics.write_html_to_file && config.statistics.peer_clients),
{
    config.statistics.write_html_to_file && config.statistics.peer_clients
}

/// What adding a peer to a torrent does to the counts: one more torrent for
/// a known peer (the count saturates), else the peer is kept with one
/// torrent, its client and its prefix
pub open spec fn peer_added_to(
    old: Map<PeerId, (usize, PeerClient, String)>,
    new: Map<PeerId, (usize, PeerClient, String)>,
    peer_id: PeerId,
) -> bool {
    &&& new.dom() == old.dom().insert(peer_id)
    &&& new.remove(peer_id) == old.remove(peer_id)
    &&& old.dom().contains(peer_id) ==> new[peer_id] == (
        if old[peer_id].0 == usize::MAX { usize::MAX } else { (old[peer_id].0 + 1) as usize },
        old[peer_id].1,
        old[peer_id].2,
    )
    &&& !old.dom().contains(peer_id) ==> {
        &&& new[peer_id].0 == 1
        &&& new[peer_id].1@ == client_of_peer_id(peer_id.0@)
        &&& new[peer_id].2@ == prefix_hex(peer_id.0@)
    }
}

/// What removing a peer from a torrent does to the counts: one torrent
/// less, and a peer in no torrent is forgotten; an unknown peer changes
/// nothing
pub open spec fn peer_removed_from(old: Map<PeerId, (usize, PeerClient, String)>, peer_id: PeerId) -> Map<
    PeerId,
    (usize, PeerClient, String),
> {
    if !old.dom().contains(peer_id) {
        old
    } else if old[peer_id].0 <= 1 {
        old.remove(peer_id)
    } else {
        old.insert(peer_id, ((old[peer_id].0 - 1) as usize, old[peer_id].1, old[peer_id].2))
    }
}

/// Removing a peer from a torrent undoes adding it: the counts are as
/// before (as long as the peer's count had not reached `usize::MAX`).
pub proof fn law_peer_removed_undoes_peer_added(
    before: Map<PeerId, (usize, PeerClient, String)>,
    added: Map<PeerId, (usize, PeerClient, String)>,
    peer_id: PeerId,
)
    requires
        forall|k: PeerId| #[trigger] before.dom().contains(k) ==> before[k].0 > 0,
        peer_added_to(before, added, peer_id),
        before.dom().contains(peer_id) ==> before[peer_id].0 < usize::MAX,
    ensures
        peer_removed_from(added, peer_id) == before,
{
    if before.dom().contains(peer_id) {
        let e = before[peer_id];
        assert(added[peer_id] == ((e.0 + 1) as usize, e.1, e.2));
        assert(added[peer_id].0 > 1);
        assert(peer_removed_from(added, peer_id) == added.insert(peer_id, (e.0, e.1, e.2)));
        assert forall|k: PeerId| #[trigger] added.insert(peer_id, (e.0, e.1, e.2)).dom().contains(k) implies added.insert(
            peer_id,
            (e.0, e.1, e.2),
        )[k] == before[k] by {
            if k != peer_id {
                assert(added.remove(peer_id)[k] == before.remove(peer_id)[k]);
            }
        }
        assert(added.insert(peer_id, (e.0, e.1, e.2)) =~= before);
    } else {
        assert(peer_removed_from(added, peer_id) == added.remove(peer_id));
        assert(added.remove(peer_id) =~= before.remove(peer_id));
        assert(before.remove(peer_id) =~= before);
    }
}

/// For each peer, in how many torrents it is, its client and the hex of
/// the first bytes of its id. A count stays with a peer that leaves one
/// torrent but is still in others.
pub struct PeerClientCounts {
    peers: IndexMap<PeerId, (usize, PeerClient, String), ahash::RandomState>,
}

impl PeerClientCounts {
    pub closed spec fn view(&self) -> Map<PeerId, (usize, PeerClient, String)> {
        peer_entries(self.peers)
    }

    /// Every peer kept is in some torrent
    pub open spec fn wf(&self) -> bool {
        forall|k: PeerId| #[trigger] self@.dom().contains(k) ==> self@[k].0 > 0
    }

    pub fn new() -> (r: Self)
        ensures
            r.wf(),
            r@ == Map::<PeerId, (usize, PeerClient, String)>::empty(),
    {
        let r = PeerClientCounts { peers: peers_new() };
        assert(r@ =~= Map::<PeerId, (usize, PeerClient, String)>::empty());
        r
    }

    /// A swarm worker added the peer to a torrent: one more torrent for a
    /// known peer (the count saturates), else the peer is kept with its
    /// client and prefix
    pub fn peer_added(&mut self, peer_id: PeerId)
        requires
            old(self).wf(),
        ensures
            final(self).wf(),
            peer_added_to(old(self)@, final(self)@, peer_id),
    {
        let ghost old_view = self@;
        if peers_contains(&self.peers, &peer_id) {
            let entry = peers_get_mut(&mut self.peers, &peer_id);
            entry.0 = entry.0.saturating_add(1);
        } else {
            let id = crate::peer_id::PeerId(peer_id.0);
            let client = id.client();
            let prefix = id.first_8_bytes_hex();
            peers_insert(&mut self.peers, peer_id, (1, client, prefix));
        }
        proof {
            assert(self@.dom() =~= old_view.dom().insert(peer_id));
            assert(self@.remove(peer_id) =~= old_view.remove(peer_id));
            assert forall|k: PeerId| #[trigger] self@.dom().contains(k) implies self@[k].0 > 0 by {
                if k != peer_id {
                    assert(old_view.dom().contains(k));
                }
            }
        }
    }

    /// A swarm worker removed the peer from a torrent: one torrent less,
    /// and a peer in no torrent is forgotten. An unknown peer changes
    /// nothing.
    pub fn peer_removed(&mut self, peer_id: PeerId)
        requires
            old(self).wf(),
        ensures
            final(self).wf(),
            final(self)@ == peer_removed_from(old(self)@, peer_id),
    {
        let ghost old_view = self@;
        if peers_contains(&self.peers, &peer_id) {
            let entry = peers_get_mut(&mut self.peers, &peer_id);
            entry.0 = entry.0 - 1;
            let gone = entry.0 == 0;
            if gone {
                peers_swap_remove(&mut self.peers, &peer_id);
                proof {
                    assert(self@ =~= old_view.remove(peer_id));
                }
            }
            proof {
                assert forall|k: PeerId| #[trigger] self@.dom().contains(k) implies self@[k].0 > 0 by {
                    if k != peer_id {
                        assert(old_view.dom().contains(k));
                    }
                }
            }
        }
    }

    /// The number of peers of each client, each peer counted once however
    /// many torrents it is in, largest count first
    pub fn client_counts(&self) -> (r: Vec<(PeerClient, usize)>)
        ensures
            exists|ks: Seq<PeerId>| #[trigger] counts_peer_clients(self@, ks, r@),
    {
        let clients = peers_clients(&self.peers);
        let r = count_clients(&clients);
        proof {
            let ks = choose|ks: Seq<PeerId>| #[trigger] lists_clients(self@, ks, client_views(clients@));
            assert(client_views(clients@) =~= clients_of(self@, ks));
            assert(counts_peer_clients(self@, ks, r@));
        }
        r
    }

    /// The rows of the peer client table: each client's text and its number
    /// of peers with thousands separators, largest count first; none unless
    /// peer client data is processed
    pub fn peer_client_rows(&self, config: &Config) -> (r: Vec<(String, String)>)
        ensures
            !(config.statistics.write_html_to_file && config.statistics.peer_clients) ==> r@.len() == 0,
            config.statistics.write_html_to_file && config.statistics.peer_clients ==> exists|
                counts: Seq<(PeerClient, usize)>,
            |
                #![trigger rows_of(counts, r@)]
                rows_of(counts, r@) && exists|ks: Seq<PeerId>| #[trigger] counts_peer_clients(self@, ks, counts),
    {
        let mut rows: Vec<(String, String)> = Vec::new();
        if !process_peer_client_data(config) {
            return rows;
        }
        let counts = self.client_counts();
        let mut i: usize = 0;
        while i < counts.len()
            invariant
                0 <= i <= counts@.len(),
                rows@.len() == i,
                forall|j: int|
                    0 <= j < i ==> (#[trigger] rows@[j]).0@ == client_text(counts@[j].0@) && rows@[j].1@ == thousands(
                        counts@[j].1 as nat,
                    ),
            decreases counts@.len() - i,
        {
            let text = counts[i].0.to_string();
            let count = thousands_string(counts[i].1);
            rows.push((text, count));
            i = i + 1;
        }
        assert(rows_of(counts@, rows@));
        rows
    }

    /// Give back spare capacity; the counts stay
    pub fn shrink_to_fit(&mut self)
        ensures
            final(self)@ == old(self)@,
    {
        peers_shrink_to_fit(&mut self.peers);
    }
}

} // verus!
