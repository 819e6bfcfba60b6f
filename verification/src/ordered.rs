//! What the standard library's ordered map promises of the order of its
//! integer keys, and the order that sorts counts largest first.

use vstd::prelude::*;
use vstd::std_specs::btree::increasing_seq;
use vstd::std_specs::cmp::OrdSpec;

use std::cmp::Ordering;

verus! {

/// Keys that an ordered map yields in increasing order are strictly
/// increasing integers
pub proof fn lemma_increasing_keys(ks: Seq<usize>)
    requires
        increasing_seq(ks),
    ensures
        forall|i: int, j: int| 0 <= i < j < ks.len() ==> ks[i] < ks[j],
{
    broadcast use vstd::laws_cmp::group_laws_cmp;

    assert forall|i: int, j: int| 0 <= i < j < ks.len() implies ks[i] < ks[j] by {
        assert(ks[i].cmp_spec(&ks[j]) is Less);
    }
}

/// The order that puts the larger of two counts first (`b.cmp(a)`)
pub fn larger_first(a: &usize, b: &usize) -> (r: Ordering)
    ensures
        (r is Less) == (*a > *b),
        (r is Equal) == (*a == *b),
        (r is Greater) == (*a < *b),
{
    if *b < *a {
        Ordering::Less
    } else if *b == *a {
        Ordering::Equal
    } else {
        Ordering::Greater
    }
}

} // verus!
