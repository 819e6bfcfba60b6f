//! The files of a scrape response, kept in increasing order of info hash
//! as an ordered map keeps its keys: info hashes compare as byte strings.

use vstd::prelude::*;

use crate::http_protocol::common::InfoHash;
use crate::http_protocol::response::ScrapeStatistics;

verus! {

/// Whether the bytes `a` come before the bytes `b`: at the first place where
/// they differ, `a` has the smaller byte, or `a` is a proper prefix of `b`
pub open spec fn bytes_before(a: Seq<u8>, b: Seq<u8>) -> bool
    decreases a.len(),
{
    if a.len() == 0 || b.len() == 0 {
        a.len() < b.len()
    } else if a[0] != b[0] {
        a[0] < b[0]
    } else {
        bytes_before(a.drop_first(), b.drop_first())
    }
}

/// Whether the info hash comes before the other one
pub open spec fn hash_before(a: InfoHash, b: InfoHash) -> bool {
    bytes_before(a.0@, b.0@)
}

proof fn lemma_bytes_before_irreflexive(a: Seq<u8>)
    ensures
        !bytes_before(a, a),
    decreases a.len(),
{
    if a.len() > 0 {
        lemma_bytes_before_irreflexive(a.drop_first());
    }
}

proof fn lemma_bytes_before_transitive(a: Seq<u8>, b: Seq<u8>, c: Seq<u8>)
    requires
        bytes_before(a, b),
        bytes_before(b, c),
    ensures
        bytes_before(a, c),
    decreases a.len(),
{
    if a.len() > 0 && b.len() > 0 && c.len() > 0 {
        if a[0] == b[0] && b[0] == c[0] {
            lemma_bytes_before_transitive(a.drop_first(), b.drop_first(), c.drop_first());
        }
    }
}

proof fn lemma_bytes_before_total(a: Seq<u8>, b: Seq<u8>)
    requires
        a.len() == b.len(),
        !bytes_before(a, b),
        !bytes_before(b, a),
    ensures
        a == b,
    decreases a.len(),
{
    if a.len() > 0 {
        lemma_bytes_before_total(a.drop_first(), b.drop_first());
        assert(a =~= seq![a[0]] + a.drop_first());
        assert(b =~= seq![b[0]] + b.drop_first());
    } else {
        assert(a =~= b);
    }
}

/// Info hashes are ordered totally
pub proof fn lemma_hash_order(a: InfoHash, b: InfoHash, c: InfoHash)
    ensures
        !hash_before(a, a),
        hash_before(a, b) && hash_before(b, c) ==> hash_before(a, c),
        a != b ==> hash_before(a, b) || hash_before(b, a),
{
    lemma_bytes_before_irreflexive(a.0@);
    if hash_before(a, b) && hash_before(b, c) {
        lemma_bytes_before_transitive(a.0@, b.0@, c.0@);
    }
    if !hash_before(a, b) && !hash_before(b, a) {
        lemma_bytes_before_total(a.0@, b.0@);
        assert(a.0 =~= b.0);
    }
}

/// Whether the first info hash comes before the second one, byte by byte
pub fn info_hash_before(a: &InfoHash, b: &InfoHash) -> (r: bool)
    ensures
        r == hash_before(*a, *b),
{
    let mut i: usize = 0;
    assert(a.0@.skip(0) =~= a.0@);
    assert(b.0@.skip(0) =~= b.0@);
    while i < 20
        invariant
            0 <= i <= 20,
            bytes_before(a.0@, b.0@) == bytes_before(a.0@.skip(i as int), b.0@.skip(i as int)),
        decreases 20 - i,
    {
        assert(a.0@.skip(i as int)[0] == a.0[i as int]);
        assert(b.0@.skip(i as int)[0] == b.0[i as int]);
        if a.0[i] != b.0[i] {
            return a.0[i] < b.0[i];
        }
        assert(a.0@.skip(i as int).drop_first() =~= a.0@.skip(i + 1));
        assert(b.0@.skip(i as int).drop_first() =~= b.0@.skip(i + 1));
        i = i + 1;
    }
    false
}

/// The files are in strictly increasing order of info hash
pub open spec fn files_sorted(s: Seq<(InfoHash, ScrapeStatistics)>) -> bool {
    forall|i: int, j: int| 0 <= i < j < s.len() ==> hash_before(#[trigger] s[i].0, #[trigger] s[j].0)
}

/// The file at place `i` is of the info hash
pub open spec fn file_at(s: Seq<(InfoHash, ScrapeStatistics)>, i: int, k: InfoHash) -> bool {
    0 <= i < s.len() && s[i].0 == k
}

/// Some file is of the info hash
pub open spec fn has_file(s: Seq<(InfoHash, ScrapeStatistics)>, k: InfoHash) -> bool {
    exists|i: int| #[trigger] file_at(s, i, k)
}

/// The statistics of each info hash that has a file
pub open spec fn files_map(s: Seq<(InfoHash, ScrapeStatistics)>) -> Map<InfoHash, ScrapeStatistics> {
    Map::new(
        |k: InfoHash| has_file(s, k),
        |k: InfoHash| s[choose|i: int| file_at(s, i, k)].1,
    )
}

proof fn lemma_sorted_file_value(s: Seq<(InfoHash, ScrapeStatistics)>, i: int)
    requires
        files_sorted(s),
        0 <= i < s.len(),
    ensures
        files_map(s).dom().contains(s[i].0),
        files_map(s)[s[i].0] == s[i].1,
{
    let k = s[i].0;
    assert(file_at(s, i, k));
    let c = choose|c: int| file_at(s, c, k);
    if c != i {
        lemma_hash_order(s[c].0, s[i].0, s[i].0);
        if c < i {
            assert(hash_before(s[c].0, s[i].0));
        } else {
            assert(hash_before(s[i].0, s[c].0));
        }
    }
}

/// Puts the statistics of an info hash into the files: replaces those of
/// the info hash if there are any, else inserts them in order
pub fn insert_file(files: &mut Vec<(InfoHash, ScrapeStatistics)>, info_hash: InfoHash, stats: ScrapeStatistics)
    requires
        files_sorted(old(files)@),
    ensures
        files_sorted(final(files)@),
        files_map(final(files)@) == files_map(old(files)@).insert(info_hash, stats),
{
    let ghost s = files@;
    let mut j: usize = 0;
    while j < files.len() && info_hash_before(&files[j].0, &info_hash)
        invariant
            files@ == s,
            files_sorted(s),
            0 <= j <= s.len(),
            forall|a: int| 0 <= a < j ==> hash_before(#[trigger] s[a].0, info_hash),
        decreases s.len() - j,
    {
        j = j + 1;
    }
    // Every file from `j` on comes after the info hash, except one of the
    // info hash itself at `j`
    let same = j < files.len() && !info_hash_before(&info_hash, &files[j].0);
    proof {
        if j < s.len() {
            lemma_hash_order(s[j as int].0, info_hash, info_hash);
            if !same {
                assert(hash_before(info_hash, s[j as int].0));
            } else {
                lemma_hash_order(s[j as int].0, info_hash, s[j as int].0);
                assert(s[j as int].0 == info_hash);
            }
        }
    }
    if same {
        files.set(j, (info_hash, stats));
        proof {
            let t = files@;
            assert(t == s.update(j as int, (info_hash, stats)));
            assert(files_sorted(t)) by {
                assert forall|a: int, b: int| 0 <= a < b < t.len() implies hash_before(#[trigger] t[a].0, #[trigger] t[b].0) by {
                    assert(t[a].0 == s[a].0);
                    assert(t[b].0 == s[b].0);
                }
            }
            assert(files_map(t) =~= files_map(s).insert(info_hash, stats)) by {
                assert forall|k: InfoHash| #[trigger] has_file(t, k) <==> has_file(s, k) || k == info_hash by {
                    if has_file(t, k) {
                        let a = choose|a: int| file_at(t, a, k);
                        assert(file_at(s, a, k));
                    }
                    if has_file(s, k) {
                        let a = choose|a: int| file_at(s, a, k);
                        assert(file_at(t, a, k));
                    }
                    if k == info_hash {
                        assert(file_at(t, j as int, k));
                    }
                }
                assert forall|k: InfoHash| #[trigger] files_map(t).dom().contains(k) implies files_map(t)[k] == files_map(s).insert(
                    info_hash,
                    stats,
                )[k] by {
                    let a = choose|a: int| file_at(t, a, k);
                    lemma_sorted_file_value(t, a);
                    if k != info_hash {
                        lemma_sorted_file_value(s, a);
                    }
                }
            }
        }
    } else {
        files.insert(j, (info_hash, stats));
        proof {
            let t = files@;
            assert(t == s.insert(j as int, (info_hash, stats)));
            assert(files_sorted(t)) by {
                assert forall|a: int, b: int| 0 <= a < b < t.len() implies hash_before(#[trigger] t[a].0, #[trigger] t[b].0) by {
                    let sa = if a < j { a } else { a - 1 };
                    let sb = if b < j { b } else { b - 1 };
                    if a < j && b < j {
                        assert(t[a] == s[a] && t[b] == s[b]);
                    } else if a < j && b == j {
                        assert(t[a] == s[a]);
                    } else if a < j && b > j {
                        assert(t[a] == s[a] && t[b] == s[b - 1]);
                        lemma_hash_order(s[a].0, info_hash, s[b - 1].0);
                        if b - 1 > j {
                            lemma_hash_order(info_hash, s[j as int].0, s[b - 1].0);
                        }
                    } else if a == j {
                        assert(t[b] == s[b - 1]);
                        if b - 1 > j {
                            lemma_hash_order(info_hash, s[j as int].0, s[b - 1].0);
                        }
                    } else {
                        assert(t[a] == s[a - 1] && t[b] == s[b - 1]);
                    }
                }
            }
            assert(files_map(t) =~= files_map(s).insert(info_hash, stats)) by {
                assert forall|k: InfoHash| #[trigger] has_file(t, k) <==> has_file(s, k) || k == info_hash by {
                    if has_file(t, k) {
                        let a = choose|a: int| file_at(t, a, k);
                        if a < j {
                            assert(file_at(s, a, k));
                        } else if a > j {
                            assert(file_at(s, a - 1, k));
                        }
                    }
                    if has_file(s, k) {
                        let a = choose|a: int| file_at(s, a, k);
                        if a < j {
                            assert(file_at(t, a, k));
                        } else {
                            assert(file_at(t, a + 1, k));
                        }
                    }
                    if k == info_hash {
                        assert(file_at(t, j as int, k));
                    }
                }
                assert forall|k: InfoHash| #[trigger] files_map(t).dom().contains(k) implies files_map(t)[k] == files_map(s).insert(
                    info_hash,
                    stats,
                )[k] by {
                    let a = choose|a: int| file_at(t, a, k);
                    lemma_sorted_file_value(t, a);
                    if k != info_hash {
                        if a < j {
                            assert(t[a] == s[a]);
                            lemma_sorted_file_value(s, a);
                        } else {
                            assert(a > j);
                            assert(t[a] == s[a - 1]);
                            lemma_sorted_file_value(s, a - 1);
                        }
                    } else {
                        assert(t[j as int] == (info_hash, stats));
                        lemma_sorted_file_value(t, j as int);
                    }
                }
            }
        }
    }
}

} // verus!
