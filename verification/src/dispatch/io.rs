//! The replace engine: mirroring one tree over another.
//!
//! `replace_file_or_dir` overwrites the destination with the source: a file
//! is copied byte for byte, a directory is mirrored recursively after the
//! previous destination content is cleared.  A source that is neither is
//! rejected.

use vstd::prelude::*;

use crate::errors::RobeError;
use crate::fstree::{entries_shot, lemma_entries_shot_index, lemma_entries_shot_len};
use crate::fstree::{EntryShot, FsEntry, FsTree, TreeShot};
use crate::fstree::{distinct_names, has_name, link_free};
use crate::hashing::{lemma_trees_match_reflexive, trees_match};

verus! {

broadcast use vstd::std_specs::vec::group_vec_axioms, vstd::seq::group_seq_axioms;

/// Byte-for-byte copy of a file's content.
fn copy_bytes(v: &Vec<u8>) -> (out: Vec<u8>)
    ensures
        out@ == v@,
{
    let mut out: Vec<u8> = Vec::new();
    let mut i: usize = 0;
    while i < v.len()
        invariant
            i <= v@.len(),
            out@ == v@.subrange(0, i as int),
        decreases v@.len() - i,
    {
        out.push(v[i]);
        i += 1;
        proof {
            assert(out@ =~= v@.subrange(0, i as int));
        }
    }
    proof {
        assert(out@ =~= v@);
    }
    out
}

/// Overwrites the destination with the source file's bytes.  Fails when the
/// source is not a regular file, as the underlying byte copy would.
pub fn copy_file(from: &FsTree, to: &mut FsTree) -> (r: Result<(), RobeError>)
    ensures
        from@ matches TreeShot::File { .. } ==> r is Ok && final (to)@ == from@,
        !(from@ matches TreeShot::File { .. }) ==> (r matches Err(RobeError::Internal(_))
            && *final (to) == *old(to)),
{
    match from {
        FsTree::File(bytes) => {
            *to = FsTree::File(copy_bytes(bytes));
            Ok(())
        },
        _ => Err(RobeError::message(String::from_str("IO error: not a regular file"))),
    }
}

/// Empties a directory node, as deleting every entry of a real directory
/// would.
pub fn clean_directory(target: &mut FsTree) -> (r: Result<(), RobeError>)
    requires
        old(target)@ matches TreeShot::Dir { .. },
    ensures
        r is Ok,
        final (target)@ == (TreeShot::Dir { entries: Seq::<EntryShot>::empty() }),
{
    match target {
        FsTree::Dir(entries) => {
            entries.clear();
            Ok(())
        },
        _ => {
            proof {
                assert(false);
            }
            Ok(())
        },
    }
}

/// Recursively mirrors the source directory onto the destination: previous
/// destination entries are cleared, then every source entry is copied.
pub fn replace_dir_all(from: &FsTree, to: &mut FsTree) -> (r: Result<(), RobeError>)
    requires
        from@ matches TreeShot::Dir { .. },
    ensures
        r is Ok,
        final (to)@ == from@,
    decreases *from,
{
    let is_dir = match to {
        FsTree::Dir(_) => true,
        _ => false,
    };
    if is_dir {
        let _ = clean_directory(to);
    } else {
        *to = FsTree::Dir(Vec::new());
    }
    match from {
        FsTree::Dir(entries) => {
            let mut out: Vec<FsEntry> = Vec::new();
            let mut i: usize = 0;
            while i < entries.len()
                invariant
                    from@ matches TreeShot::Dir { .. },
                    from == FsTree::Dir(*entries),
                    i <= entries@.len(),
                    out@.len() == i,
                    forall|k: int| 0 <= k < i ==> out@[k]@ == #[trigger] entries@[k]@,
                decreases entries@.len() - i,
            {
                proof {
                    assert(decreases_to!(*from => *entries));
                    assert(decreases_to!(*entries => entries@));
                    assert(decreases_to!(entries@ => entries@[i as int]));
                    assert(decreases_to!(entries@[i as int] => entries@[i as int].node));
                }
                let entry = &entries[i];
                let copied: FsTree = match &entry.node {
                    FsTree::Dir(_) => {
                        let mut child = FsTree::Dir(Vec::new());
                        let _ = replace_dir_all(&entry.node, &mut child);
                        child
                    },
                    FsTree::File(bytes) => FsTree::File(copy_bytes(bytes)),
                    FsTree::Link => FsTree::Link,
                };
                out.push(FsEntry { name: entry.name.clone(), node: copied });
                i += 1;
            }
            proof {
                lemma_entries_shot_len(out@);
                lemma_entries_shot_len(entries@);
                assert forall|k: int| 0 <= k < entries@.len() implies entries_shot(out@)[k]
                    == entries_shot(entries@)[k] by {
                    lemma_entries_shot_index(out@, k);
                    lemma_entries_shot_index(entries@, k);
                }
                assert(entries_shot(out@) =~= entries_shot(entries@));
            }
            *to = FsTree::Dir(out);
            Ok(())
        },
        _ => {
            proof {
                assert(false);
            }
            Ok(())
        },
    }
}

/// Overwrites the destination with the source: a byte copy for a file, a
/// recursive mirror for a directory.  A source that is neither a regular
/// file nor a directory is rejected and the destination is left untouched.
pub fn replace_file_or_dir(from: &FsTree, to: &mut FsTree) -> (r: Result<(), RobeError>)
    ensures
        !(from@ matches TreeShot::Link) ==> r is Ok && final (to)@ == from@,
        from@ matches TreeShot::Link ==> (r matches Err(RobeError::Internal(m))
            && m@ == "Robe does not allow symlinks."@ && *final (to) == *old(to)),
{
    match from {
        FsTree::File(_) => copy_file(from, to),
        FsTree::Dir(_) => replace_dir_all(from, to),
        FsTree::Link => Err(
            RobeError::Internal(String::from_str("Robe does not allow symlinks.")),
        ),
    }
}

/// A mirror leaves source and destination comparing equal: once the
/// destination holds the same picture as a link-free source without
/// repeated entry names, the tree equality checker accepts the pair.
pub proof fn lemma_replace_makes_equal(src: TreeShot, dst: TreeShot)
    requires
        dst == src,
        link_free(src),
        distinct_names(src),
    ensures
        trees_match(src, dst),
{
    lemma_trees_match_reflexive(src);
}

/// A mirror is not a merge: an entry name that only the old destination
/// held is absent from the destination after the mirror.
pub proof fn lemma_replace_drops_stale_entries(
    src: TreeShot,
    dst_before: TreeShot,
    dst_after: TreeShot,
    name: Seq<char>,
)
    requires
        dst_after == src,
        src matches TreeShot::Dir { entries: se } && !has_name(se, name),
        dst_before matches TreeShot::Dir { entries: de } && has_name(de, name),
    ensures
        dst_after matches TreeShot::Dir { entries: ae } && !has_name(ae, name),
{
}

} // verus!
