//! Content equality of files and trees.
//!
//! A file comparison first checks the lengths, then walks both byte strings
//! in fixed-size chunks and compares a fast non-cryptographic digest of each
//! chunk.  A directory comparison checks the entry counts and then matches
//! every entry of the first directory against the equally named entry of the
//! second, recursing; entry pairs are compared in parallel.  Equal contents
//! always compare equal; a mismatch is detected through the chunk digests,
//! so the checker is exact up to collisions of the digest.

use vstd::prelude::*;

use crate::fstree::{entries_shot, tree_shot, EntryShot, FsEntry, FsTree, TreeShot};
use crate::fstree::{distinct_names, link_free};
use crate::fstree::{lemma_entries_shot_index, lemma_entries_shot_len};
use rayon::iter::{IntoParallelRefIterator, ParallelIterator};

verus! {

broadcast use vstd::std_specs::vec::group_vec_axioms, vstd::seq::group_seq_axioms;

/// The number of bytes hashed and compared at a time.
pub const CHUNK: usize = 8192;

/// The digest that `xxhash_rust::xxh3` computes for a byte string.
pub uninterp spec fn xxh3_of(bytes: Seq<u8>) -> u64;

/// Relies on `xxhash_rust::xxh3::Xxh3::{new, update, digest}`: the digest
/// depends on the bytes fed to the hasher alone.
#[verifier::external_body]
fn xxh3_digest(chunk: &[u8]) -> (h: u64)
    ensures
        h == xxh3_of(chunk@),
{
    let mut hasher = xxhash_rust::xxh3::Xxh3::new();
    hasher.update(chunk);
    hasher.digest()
}

/// Whether equally long byte strings have the same digest on every chunk.
pub open spec fn chunks_match(a: Seq<u8>, b: Seq<u8>) -> bool
    decreases a.len(),
{
    if a.len() == 0 && b.len() == 0 {
        true
    } else {
        let ca = if a.len() < CHUNK as int { a.len() as int } else { CHUNK as int };
        let cb = if b.len() < CHUNK as int { b.len() as int } else { CHUNK as int };
        if ca != cb {
            false
        } else if xxh3_of(a.subrange(0, ca)) != xxh3_of(b.subrange(0, cb)) {
            false
        } else {
            chunks_match(a.subrange(ca, a.len() as int), b.subrange(cb, b.len() as int))
        }
    }
}

/// What the file comparison reports: equal lengths and matching chunks.
pub open spec fn files_match(a: Seq<u8>, b: Seq<u8>) -> bool {
    a.len() == b.len() && chunks_match(a, b)
}

/// The index of the first entry with the given name, if any.
pub open spec fn find_name(es: Seq<EntryShot>, name: Seq<char>) -> Option<int>
    decreases es.len(),
{
    if es.len() == 0 {
        None
    } else if es[0].name == name {
        Some(0int)
    } else {
        match find_name(es.subrange(1, es.len() as int), name) {
            Some(j) => Some(j + 1),
            None => None,
        }
    }
}

/// What the tree comparison reports.  Files must match chunk by chunk;
/// directories must have the same entry count and every entry of the first
/// must match the first equally named entry of the second; a node that is
/// neither, or a mixed pair, never matches.
pub open spec fn trees_match(a: TreeShot, b: TreeShot) -> bool
    decreases a, 0int,
{
    match (a, b) {
        (TreeShot::File { bytes: x }, TreeShot::File { bytes: y }) => files_match(x, y),
        (TreeShot::Dir { entries: x }, TreeShot::Dir { entries: y }) => {
            proof {
                assert(decreases_to!(a => x));
            }
            x.len() == y.len() && dirs_match(x, y)
        },
        _ => false,
    }
}

/// Every entry of `x`, in turn, matches its namesake in `y`.
pub open spec fn dirs_match(x: Seq<EntryShot>, y: Seq<EntryShot>) -> bool
    decreases x, 1int,
{
    if x.len() == 0 {
        true
    } else {
        proof {
            assert(decreases_to!(x => x[0]));
        }
        entry_match(x[0], y) && dirs_match(x.subrange(1, x.len() as int), y)
    }
}

/// The entry matches the first equally named entry of `y`, which must exist.
pub open spec fn entry_match(e: EntryShot, y: Seq<EntryShot>) -> bool
    decreases e, 2int,
{
    match find_name(y, e.name) {
        Some(j) => trees_match(e.node, y[j].node),
        None => false,
    }
}

/// Compares two byte strings as the file checker does: a length check,
/// then one digest comparison per chunk.
pub fn files_equal(file1: &[u8], file2: &[u8]) -> (r: bool)
    ensures
        r == files_match(file1@, file2@),
{
    if file1.len() != file2.len() {
        return false;
    }
    let n = file1.len();
    proof {
        assert(file1@.subrange(0, n as int) =~= file1@);
        assert(file2@.subrange(0, n as int) =~= file2@);
    }
    let mut off: usize = 0;
    while off < n
        invariant
            file1@.len() == n,
            file2@.len() == n,
            off <= n,
            chunks_match(file1@, file2@) == chunks_match(
                file1@.subrange(off as int, n as int),
                file2@.subrange(off as int, n as int),
            ),
        decreases n - off,
    {
        let end = if n - off < CHUNK {
            n
        } else {
            off + CHUNK
        };
        let c1 = vstd::slice::slice_subrange(file1, off, end);
        let c2 = vstd::slice::slice_subrange(file2, off, end);
        let h1 = xxh3_digest(c1);
        let h2 = xxh3_digest(c2);
        proof {
            let s1 = file1@.subrange(off as int, n as int);
            let s2 = file2@.subrange(off as int, n as int);
            let ca = end - off;
            assert(s1.subrange(0, ca) =~= c1@);
            assert(s2.subrange(0, ca) =~= c2@);
            assert(s1.subrange(ca, s1.len() as int) =~= file1@.subrange(end as int, n as int));
            assert(s2.subrange(ca, s2.len() as int) =~= file2@.subrange(end as int, n as int));
        }
        if h1 != h2 {
            return false;
        }
        off = end;
    }
    proof {
        assert(file1@.subrange(n as int, n as int) =~= Seq::<u8>::empty());
        assert(file2@.subrange(n as int, n as int) =~= Seq::<u8>::empty());
    }
    true
}

pub proof fn lemma_find_name_props(es: Seq<EntryShot>, name: Seq<char>)
    ensures
        match find_name(es, name) {
            Some(j) => 0 <= j < es.len() && es[j].name == name && (forall|k: int|
                0 <= k < j ==> es[k].name != name),
            None => forall|k: int| 0 <= k < es.len() ==> es[k].name != name,
        },
    decreases es.len(),
{
    if es.len() > 0 && es[0].name != name {
        let sub = es.subrange(1, es.len() as int);
        lemma_find_name_props(sub, name);
        assert(forall|k: int| 1 <= k < es.len() ==> es[k] == sub[k - 1]);
    }
}

pub proof fn lemma_find_name_first(es: Seq<EntryShot>, name: Seq<char>, j: int)
    requires
        0 <= j < es.len(),
        es[j].name == name,
        forall|k: int| 0 <= k < j ==> es[k].name != name,
    ensures
        find_name(es, name) == Some(j),
    decreases es.len(),
{
    if es[0].name != name {
        lemma_find_name_first(es.subrange(1, es.len() as int), name, j - 1);
    }
}

/// The index of the first entry named `name`, scanning from the front.
fn find_entry(entries: &Vec<FsEntry>, name: &String) -> (r: Option<usize>)
    ensures
        match r {
            Some(j) => j < entries@.len() && find_name(entries_shot(entries@), name@) == Some(
                j as int,
            ),
            None => find_name(entries_shot(entries@), name@) is None,
        },
{
    let ghost shots = entries_shot(entries@);
    let mut i: usize = 0;
    while i < entries.len()
        invariant
            i <= entries@.len(),
            shots == entries_shot(entries@),
            forall|k: int| 0 <= k < i ==> entries@[k].name@ != name@,
        decreases entries@.len() - i,
    {
        if entries[i].name == *name {
            proof {
                assert forall|k: int| 0 <= k < i implies shots[k].name != name@ by {
                    lemma_entries_shot_index(entries@, k);
                }
                lemma_entries_shot_index(entries@, i as int);
                lemma_find_name_first(shots, name@, i as int);
            }
            return Some(i);
        }
        i += 1;
    }
    proof {
        lemma_entries_shot_len(entries@);
        assert forall|k: int| 0 <= k < shots.len() implies shots[k].name != name@ by {
            lemma_entries_shot_index(entries@, k);
        }
        lemma_find_name_props(shots, name@);
    }
    None
}

/// Compares one directory entry against the entries of the other directory.
fn compare_entry(e: &FsEntry, others: &Vec<FsEntry>) -> (r: bool)
    ensures
        r == entry_match(e@, entries_shot(others@)),
{
    match find_entry(others, &e.name) {
        None => false,
        Some(j) => {
            proof {
                lemma_entries_shot_index(others@, j as int);
            }
            are_paths_equal(&e.node, &others[j].node)
        },
    }
}

/// Relies on rayon's `par_iter`, `map` and `collect`: the collected vector
/// holds, in order, the result of the verified `compare_entry` for each
/// entry of `dir1`, and the result is their conjunction.
#[verifier::external_body]
fn par_compare_entries(dir1: &Vec<FsEntry>, dir2: &Vec<FsEntry>) -> (r: bool)
    ensures
        r == (forall|i: int|
            0 <= i < dir1@.len() ==> entry_match(#[trigger] dir1@[i]@, entries_shot(dir2@))),
{
    let results: Vec<bool> = dir1.par_iter().map(|e| compare_entry(e, dir2)).collect();
    results.into_iter().all(|x| x)
}

/// Compares two directories: entry counts first, then every entry pair in
/// parallel.
fn dirs_equal_parallel(dir1: &Vec<FsEntry>, dir2: &Vec<FsEntry>) -> (r: bool)
    ensures
        r == (dir1@.len() == dir2@.len() && dirs_match(entries_shot(dir1@), entries_shot(dir2@))),
{
    if dir1.len() != dir2.len() {
        return false;
    }
    let ok = par_compare_entries(dir1, dir2);
    proof {
        let s1 = entries_shot(dir1@);
        let s2 = entries_shot(dir2@);
        lemma_entries_shot_len(dir1@);
        assert forall|i: int| 0 <= i < dir1@.len() implies s1[i] == #[trigger] dir1@[i]@ by {
            lemma_entries_shot_index(dir1@, i);
        }
        lemma_dirs_match_forall(s1, s2);
        if ok {
            assert forall|i: int| 0 <= i < s1.len() implies entry_match(#[trigger] s1[i], s2) by {
                assert(entry_match(dir1@[i]@, s2));
            }
        } else {
            let i0 = choose|i: int|
                !(0 <= i < dir1@.len() ==> entry_match(#[trigger] dir1@[i]@, s2));
            assert(!entry_match(s1[i0], s2));
        }
    }
    ok
}

/// Whether two trees hold the same content, as far as the chunk digests can
/// tell.  Equal trees always compare equal; different entry names, entry
/// counts, node kinds or byte lengths always compare unequal.
pub fn are_paths_equal(p1: &FsTree, p2: &FsTree) -> (r: bool)
    ensures
        r == trees_match(p1@, p2@),
{
    match (p1, p2) {
        (FsTree::Dir(entries1), FsTree::Dir(entries2)) => {
            proof {
                lemma_entries_shot_len(entries1@);
                lemma_entries_shot_len(entries2@);
            }
            dirs_equal_parallel(entries1, entries2)
        },
        (FsTree::File(bytes1), FsTree::File(bytes2)) => files_equal(
            bytes1.as_slice(),
            bytes2.as_slice(),
        ),
        _ => false,
    }
}

pub proof fn lemma_chunks_match_reflexive(a: Seq<u8>)
    ensures
        chunks_match(a, a),
    decreases a.len(),
{
    if a.len() > 0 {
        let ca = if a.len() < CHUNK as int {
            a.len() as int
        } else {
            CHUNK as int
        };
        lemma_chunks_match_reflexive(a.subrange(ca, a.len() as int));
    }
}

/// Identical content always compares equal: a tree without `Link` nodes and
/// without repeated entry names matches itself.
pub proof fn lemma_trees_match_reflexive(t: TreeShot)
    requires
        link_free(t),
        distinct_names(t),
    ensures
        trees_match(t, t),
    decreases t,
{
    match t {
        TreeShot::File { bytes } => {
            lemma_chunks_match_reflexive(bytes);
        },
        TreeShot::Dir { entries } => {
            assert forall|i: int| 0 <= i < entries.len() implies entry_match(
                #[trigger] entries[i],
                entries,
            ) by {
                lemma_find_name_first(entries, entries[i].name, i);
                assert(decreases_to!(t => entries));
                assert(decreases_to!(entries => entries[i]));
                assert(decreases_to!(entries[i] => entries[i].node));
                lemma_trees_match_reflexive(entries[i].node);
            }
            lemma_dirs_match_forall(entries, entries);
        },
        TreeShot::Link => {},
    }
}

/// `dirs_match` is the conjunction of `entry_match` over the entries.
pub proof fn lemma_dirs_match_forall(x: Seq<EntryShot>, y: Seq<EntryShot>)
    ensures
        dirs_match(x, y) <==> (forall|i: int| 0 <= i < x.len() ==> entry_match(#[trigger] x[i], y)),
    decreases x.len(),
{
    if x.len() > 0 {
        lemma_dirs_match_forall(x.subrange(1, x.len() as int), y);
        assert forall|i: int| 1 <= i < x.len() implies x.subrange(1, x.len() as int)[i - 1] == x[i] by {}
    }
}

} // verus!
