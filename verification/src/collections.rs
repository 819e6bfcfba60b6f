//! Declarations of the outside collection and random number types that the
//! swarm storage keeps, and the sequence facts that the storage proofs
//! share.

use vstd::prelude::*;

use arrayvec::ArrayVec;
use indexmap::IndexMap;
use rand::rngs::SmallRng;
use rand::Rng;

verus! {

#[verifier::external_type_specification]
#[verifier::external_body]
#[verifier::reject_recursive_types(T)]
pub struct ExArrayVec<T, const CAP: usize>(ArrayVec<T, CAP>);

#[verifier::external_type_specification]
#[verifier::external_body]
#[verifier::reject_recursive_types(K)]
#[verifier::reject_recursive_types(V)]
#[verifier::reject_recursive_types(S)]
pub struct ExIndexMap<K, V, S>(IndexMap<K, V, S>);

#[verifier::external_type_specification]
#[verifier::external_body]
pub struct ExRandomState(ahash::RandomState);

#[verifier::external_type_specification]
#[verifier::external_body]
pub struct ExSmallRng(SmallRng);

/// A uniformly random number in `from..to` (`rand::Rng::gen_range`, which
/// panics on an empty range). Depends on chance: only the range is
/// promised.
#[verifier::external_body]
pub fn gen_range_usize(rng: &mut SmallRng, from: usize, to: usize) -> (r: usize)
    requires
        from < to,
    ensures
        from <= r < to,
{
    rng.gen_range(from..to)
}

/// Key of a peer in a peer map: IP address bits and port
pub type PeerMapKey = (u128, u16);

/// No two entries share a key
pub open spec fn keys_unique<K, V>(s: Seq<(K, V)>) -> bool {
    forall|i: int, j: int| 0 <= i < s.len() && 0 <= j < s.len() && i != j ==> s[i].0 != s[j].0
}

pub open spec fn has_key<K, V>(s: Seq<(K, V)>, k: K) -> bool {
    exists|i: int| 0 <= i < s.len() && s[i].0 == k
}

/// Index of an entry with the key, or -1 if there is none
pub open spec fn key_index<K, V>(s: Seq<(K, V)>, k: K) -> int {
    if has_key(s, k) {
        choose|i: int| 0 <= i < s.len() && s[i].0 == k
    } else {
        -1
    }
}

/// The entries after removing index `i` by moving the last entry into its
/// place (`swap_remove`)
pub open spec fn swap_removed<K, V>(s: Seq<(K, V)>, i: int) -> Seq<(K, V)> {
    if i == s.len() - 1 {
        s.drop_last()
    } else {
        s.drop_last().update(i, s.last())
    }
}

/// Number of entries whose value satisfies `p`
pub open spec fn count_where<K, V>(s: Seq<(K, V)>, p: spec_fn(V) -> bool) -> nat
    decreases s.len(),
{
    if s.len() == 0 {
        0
    } else {
        count_where(s.drop_last(), p) + if p(s.last().1) { 1nat } else { 0nat }
    }
}

/// The entries whose value satisfies `keep`, in order
pub open spec fn retain_where<K, V>(s: Seq<(K, V)>, keep: spec_fn(V) -> bool) -> Seq<(K, V)>
    decreases s.len(),
{
    if s.len() == 0 {
        s
    } else if keep(s.last().1) {
        retain_where(s.drop_last(), keep).push(s.last())
    } else {
        retain_where(s.drop_last(), keep)
    }
}

/// The entries whose value does not satisfy `keep`, in order
pub open spec fn dropped_where<K, V>(s: Seq<(K, V)>, keep: spec_fn(V) -> bool) -> Seq<(K, V)>
    decreases s.len(),
{
    if s.len() == 0 {
        s
    } else if keep(s.last().1) {
        dropped_where(s.drop_last(), keep)
    } else {
        dropped_where(s.drop_last(), keep).push(s.last())
    }
}

pub proof fn lemma_key_index<K, V>(s: Seq<(K, V)>, k: K, j: int)
    requires
        keys_unique(s),
        0 <= j < s.len(),
        s[j].0 == k,
    ensures
        has_key(s, k),
        key_index(s, k) == j,
{
}

pub proof fn lemma_no_key_index<K, V>(s: Seq<(K, V)>, k: K)
    ensures
        has_key(s, k) ==> 0 <= key_index(s, k) < s.len() && s[key_index(s, k)].0 == k,
        !has_key(s, k) ==> key_index(s, k) == -1,
{
}

pub proof fn lemma_count_add<K, V>(a: Seq<(K, V)>, b: Seq<(K, V)>, p: spec_fn(V) -> bool)
    ensures
        count_where(a + b, p) == count_where(a, p) + count_where(b, p),
    decreases b.len(),
{
    if b.len() == 0 {
        assert(a + b =~= a);
    } else {
        lemma_count_add(a, b.drop_last(), p);
        assert((a + b).drop_last() =~= a + b.drop_last());
    }
}

pub proof fn lemma_count_le_len<K, V>(s: Seq<(K, V)>, p: spec_fn(V) -> bool)
    ensures
        count_where(s, p) <= s.len(),
    decreases s.len(),
{
    if s.len() > 0 {
        lemma_count_le_len(s.drop_last(), p);
    }
}

pub proof fn lemma_count_single<K, V>(e: (K, V), p: spec_fn(V) -> bool)
    ensures
        count_where(seq![e], p) == if p(e.1) { 1nat } else { 0nat },
{
    assert(seq![e].drop_last() =~= Seq::<(K, V)>::empty());
    reveal_with_fuel(count_where, 2);
}

pub proof fn lemma_count_remove<K, V>(s: Seq<(K, V)>, i: int, p: spec_fn(V) -> bool)
    requires
        0 <= i < s.len(),
    ensures
        count_where(s.remove(i), p) + (if p(s[i].1) { 1nat } else { 0nat }) == count_where(s, p),
{
    let a = s.take(i);
    let b = s.skip(i + 1);
    assert(s.remove(i) =~= a + b);
    assert(s =~= a + seq![s[i]] + b);
    lemma_count_add(a, b, p);
    lemma_count_add(a + seq![s[i]], b, p);
    lemma_count_add(a, seq![s[i]], p);
    lemma_count_single(s[i], p);
}

pub proof fn lemma_count_update<K, V>(s: Seq<(K, V)>, i: int, x: (K, V), p: spec_fn(V) -> bool)
    requires
        0 <= i < s.len(),
    ensures
        count_where(s.update(i, x), p) + (if p(s[i].1) { 1nat } else { 0nat }) == count_where(s, p)
            + (if p(x.1) { 1nat } else { 0nat }),
{
    lemma_count_remove(s, i, p);
    lemma_count_remove(s.update(i, x), i, p);
    assert(s.update(i, x).remove(i) =~= s.remove(i));
}

pub proof fn lemma_count_swap_removed<K, V>(s: Seq<(K, V)>, i: int, p: spec_fn(V) -> bool)
    requires
        0 <= i < s.len(),
    ensures
        count_where(swap_removed(s, i), p) + (if p(s[i].1) { 1nat } else { 0nat }) == count_where(s, p),
{
    if i < s.len() - 1 {
        lemma_count_update(s.drop_last(), i, s.last(), p);
    }
}

pub proof fn lemma_retain_split<K, V>(s: Seq<(K, V)>, keep: spec_fn(V) -> bool, p: spec_fn(V) -> bool)
    ensures
        count_where(retain_where(s, keep), p) + count_where(dropped_where(s, keep), p) == count_where(s, p),
        retain_where(s, keep).len() + dropped_where(s, keep).len() == s.len(),
    decreases s.len(),
{
    if s.len() > 0 {
        let d = s.drop_last();
        lemma_retain_split(d, keep, p);
        let r = retain_where(d, keep);
        let x = dropped_where(d, keep);
        assert(r.push(s.last()).drop_last() =~= r);
        assert(x.push(s.last()).drop_last() =~= x);
    }
}

pub proof fn lemma_retain_contains<K, V>(s: Seq<(K, V)>, keep: spec_fn(V) -> bool, j: int)
    requires
        0 <= j < retain_where(s, keep).len(),
    ensures
        s.contains(retain_where(s, keep)[j]),
        keep(retain_where(s, keep)[j].1),
    decreases s.len(),
{
    if s.len() > 0 {
        let r = retain_where(s.drop_last(), keep);
        if keep(s.last().1) && j == r.len() {
            assert(s[s.len() - 1] == s.last());
        } else {
            lemma_retain_contains(s.drop_last(), keep, j);
            let x = retain_where(s, keep)[j];
            let k = choose|k: int| 0 <= k < s.drop_last().len() && s.drop_last()[k] == x;
            assert(s[k] == x);
        }
    }
}

pub proof fn lemma_retain_keys_unique<K, V>(s: Seq<(K, V)>, keep: spec_fn(V) -> bool)
    requires
        keys_unique(s),
    ensures
        keys_unique(retain_where(s, keep)),
    decreases s.len(),
{
    if s.len() > 0 {
        let d = s.drop_last();
        assert(keys_unique(d));
        lemma_retain_keys_unique(d, keep);
        if keep(s.last().1) {
            let r = retain_where(d, keep);
            assert forall|j: int| 0 <= j < r.len() implies r[j].0 != s.last().0 by {
                lemma_retain_contains(d, keep, j);
                let k = choose|k: int| 0 <= k < d.len() && d[k] == r[j];
                assert(s[k] == d[k]);
            }
        }
    }
}

/// Every entry of the sequence that satisfies `keep` is retained
pub proof fn lemma_retain_complete<K, V>(s: Seq<(K, V)>, keep: spec_fn(V) -> bool, j: int)
    requires
        0 <= j < s.len(),
        keep(s[j].1),
    ensures
        retain_where(s, keep).contains(s[j]),
    decreases s.len(),
{
    if j < s.len() - 1 {
        lemma_retain_complete(s.drop_last(), keep, j);
        let r = retain_where(s.drop_last(), keep);
        let k = choose|k: int| 0 <= k < r.len() && r[k] == s[j];
        if keep(s.last().1) {
            assert(r.push(s.last())[k] == s[j]);
        }
    } else {
        let r = retain_where(s.drop_last(), keep);
        assert(r.push(s.last())[r.len() as int] == s[j]);
    }
}

pub proof fn lemma_remove_keys_unique<K, V>(s: Seq<(K, V)>, i: int)
    requires
        keys_unique(s),
        0 <= i < s.len(),
    ensures
        keys_unique(s.remove(i)),
        !has_key(s.remove(i), s[i].0),
        forall|k: K| k != s[i].0 ==> (has_key(s.remove(i), k) <==> has_key(s, k)),
{
    let r = s.remove(i);
    assert forall|a: int, b: int| 0 <= a < r.len() && 0 <= b < r.len() && a != b implies r[a].0 != r[b].0 by {
        let a2 = if a < i { a } else { a + 1 };
        let b2 = if b < i { b } else { b + 1 };
        assert(r[a] == s[a2]);
        assert(r[b] == s[b2]);
    }
    assert forall|k: K| k != s[i].0 implies (has_key(r, k) <==> has_key(s, k)) by {
        if has_key(s, k) {
            let j = choose|j: int| 0 <= j < s.len() && s[j].0 == k;
            let j2 = if j < i { j } else { j - 1 };
            assert(r[j2] == s[j]);
        }
        if has_key(r, k) {
            let j = choose|j: int| 0 <= j < r.len() && r[j].0 == k;
            let j2 = if j < i { j } else { j + 1 };
            assert(r[j] == s[j2]);
        }
    }
    if has_key(r, s[i].0) {
        let j = choose|j: int| 0 <= j < r.len() && r[j].0 == s[i].0;
        let j2 = if j < i { j } else { j + 1 };
        assert(r[j] == s[j2]);
    }
}

pub proof fn lemma_swap_removed_keys_unique<K, V>(s: Seq<(K, V)>, i: int)
    requires
        keys_unique(s),
        0 <= i < s.len(),
    ensures
        keys_unique(swap_removed(s, i)),
        swap_removed(s, i).len() == s.len() - 1,
        !has_key(swap_removed(s, i), s[i].0),
        forall|k: K| k != s[i].0 ==> (has_key(swap_removed(s, i), k) <==> has_key(s, k)),
{
    let r = swap_removed(s, i);
    let last = s.len() - 1;
    // position in `s` of each entry of `r`
    assert forall|a: int| 0 <= a < r.len() implies r[a] == s[if a == i { last } else { a }] by {}
    assert forall|a: int, b: int| 0 <= a < r.len() && 0 <= b < r.len() && a != b implies r[a].0 != r[b].0 by {
        let a2 = if a == i { last } else { a };
        let b2 = if b == i { last } else { b };
        assert(r[a] == s[a2]);
        assert(r[b] == s[b2]);
    }
    assert forall|k: K| k != s[i].0 implies (has_key(r, k) <==> has_key(s, k)) by {
        if has_key(s, k) {
            let j = choose|j: int| 0 <= j < s.len() && s[j].0 == k;
            let j2 = if j == last { i } else { j };
            assert(r[j2] == s[j]);
        }
        if has_key(r, k) {
            let j = choose|j: int| 0 <= j < r.len() && r[j].0 == k;
            let j2 = if j == i { last } else { j };
            assert(r[j] == s[j2]);
        }
    }
    if has_key(r, s[i].0) {
        let j = choose|j: int| 0 <= j < r.len() && r[j].0 == s[i].0;
        let j2 = if j == i { last } else { j };
        assert(r[j] == s[j2]);
    }
}

} // verus!
