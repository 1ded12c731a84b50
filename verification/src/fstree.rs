//! An in-memory picture of a file-system tree.
//!
//! The commands of this library never touch the disk themselves: the caller
//! reads a path into an `FsTree` value, hands it to the library, and writes
//! the resulting tree back out.  A node is a regular file with its bytes, a
//! directory with named children, or `Link`, which stands for anything that
//! is neither a regular file nor a directory (a symbolic link, a missing
//! path): the library refuses to copy such a node.

use vstd::prelude::*;

verus! {

broadcast use vstd::std_specs::vec::group_vec_axioms, vstd::seq::group_seq_axioms;

/// One node of a file-system tree.
pub enum FsTree {
    File(Vec<u8>),
    Dir(Vec<FsEntry>),
    Link,
}

/// A named child of a directory node.
pub struct FsEntry {
    pub name: String,
    pub node: FsTree,
}

/// The mathematical shape of a tree: names and contents as sequences.
#[verifier::ext_equal]
pub ghost enum TreeShot {
    File { bytes: Seq<u8> },
    Dir { entries: Seq<EntryShot> },
    Link,
}

/// The mathematical shape of one directory entry.
#[verifier::ext_equal]
pub ghost struct EntryShot {
    pub name: Seq<char>,
    pub node: TreeShot,
}

pub open spec fn tree_shot(t: FsTree) -> TreeShot
    decreases t, 0int,
{
    match t {
        FsTree::File(bytes) => TreeShot::File { bytes: bytes@ },
        FsTree::Dir(entries) => {
            proof {
                assert(decreases_to!(t => entries));
                assert(decreases_to!(entries => entries@));
            }
            TreeShot::Dir { entries: entries_shot(entries@) }
        },
        FsTree::Link => TreeShot::Link,
    }
}

pub open spec fn entries_shot(es: Seq<FsEntry>) -> Seq<EntryShot>
    decreases es, 1int,
{
    if es.len() == 0 {
        Seq::<EntryShot>::empty()
    } else {
        let last = es.len() - 1;
        proof {
            assert(decreases_to!(es => es[last]));
            assert(decreases_to!(es[last] => es[last].node));
        }
        entries_shot(es.subrange(0, last)).push(
            EntryShot { name: es[last].name@, node: tree_shot(es[last].node) },
        )
    }
}

impl View for FsTree {
    type V = TreeShot;

    open spec fn view(&self) -> TreeShot {
        tree_shot(*self)
    }
}

impl View for FsEntry {
    type V = EntryShot;

    open spec fn view(&self) -> EntryShot {
        EntryShot { name: self.name@, node: tree_shot(self.node) }
    }
}

pub proof fn lemma_entries_shot_len(es: Seq<FsEntry>)
    ensures
        entries_shot(es).len() == es.len(),
    decreases es.len(),
{
    if es.len() > 0 {
        lemma_entries_shot_len(es.subrange(0, es.len() - 1));
    }
}

pub proof fn lemma_entries_shot_index(es: Seq<FsEntry>, i: int)
    requires
        0 <= i < es.len(),
    ensures
        entries_shot(es).len() == es.len(),
        entries_shot(es)[i] == es[i]@,
    decreases es.len(),
{
    lemma_entries_shot_len(es);
    let front = es.subrange(0, es.len() - 1);
    lemma_entries_shot_len(front);
    if i < es.len() - 1 {
        lemma_entries_shot_index(front, i);
        assert(front[i] == es[i]);
    }
}

/// Holds of a tree that contains no `Link` node, at the root or below.
pub open spec fn link_free(t: TreeShot) -> bool
    decreases t,
{
    match t {
        TreeShot::File { .. } => true,
        TreeShot::Dir { entries } => forall|i: int|
            0 <= i < entries.len() ==> link_free(#[trigger] entries[i].node),
        TreeShot::Link => false,
    }
}

/// Holds of a tree whose directories never repeat an entry name.
pub open spec fn distinct_names(t: TreeShot) -> bool
    decreases t,
{
    match t {
        TreeShot::File { .. } => true,
        TreeShot::Dir { entries } => (forall|i: int, j: int|
            0 <= i < j < entries.len() ==> entries[i].name != entries[j].name)
            && (forall|i: int| 0 <= i < entries.len() ==> distinct_names(#[trigger] entries[i].node)),
        TreeShot::Link => true,
    }
}

/// Whether some entry of the sequence carries the given name.
pub open spec fn has_name(entries: Seq<EntryShot>, name: Seq<char>) -> bool {
    exists|i: int| 0 <= i < entries.len() && entries[i].name == name
}

} // verus!
