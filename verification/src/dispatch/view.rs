//! Rendering a target's content: a file is printed, a directory is
//! listed, directories first, each group sorted by name.

use vstd::prelude::*;

use crate::domain::ViewCmd;
use crate::errors::RobeError;
use crate::fstree::{entries_shot, lemma_entries_shot_index, lemma_entries_shot_len};
use crate::fstree::{EntryShot, FsEntry, FsTree, TreeShot};
use crate::registry::{spec_target_lookup, Registry};
use crate::strutil::{sort_strings, sort_views, string_views};

verus! {

broadcast use vstd::std_specs::vec::group_vec_axioms, vstd::seq::group_seq_axioms;

/// The names of the entries that are directories, in order.
pub open spec fn dir_names(entries: Seq<EntryShot>) -> Seq<Seq<char>>
    decreases entries.len(),
{
    if entries.len() == 0 {
        Seq::empty()
    } else {
        dir_names(entries.drop_last()) + (if entries.last().node matches TreeShot::Dir { .. } {
            seq![entries.last().name]
        } else {
            Seq::empty()
        })
    }
}

/// The names of the entries that are not directories, in order.
pub open spec fn other_names(entries: Seq<EntryShot>) -> Seq<Seq<char>>
    decreases entries.len(),
{
    if entries.len() == 0 {
        Seq::empty()
    } else {
        other_names(entries.drop_last()) + (if entries.last().node matches TreeShot::Dir { .. } {
            Seq::empty()
        } else {
            seq![entries.last().name]
        })
    }
}

/// One line per name, each closed by the given tail.
pub open spec fn tailed_lines(names: Seq<Seq<char>>, tail: Seq<char>) -> Seq<char>
    decreases names.len(),
{
    if names.len() == 0 {
        Seq::empty()
    } else {
        tailed_lines(names.drop_last(), tail) + names.last() + tail
    }
}

/// The raw listing of a directory: its subdirectory names sorted, each
/// with a slash, then its other entry names sorted.
pub open spec fn dir_listing(entries: Seq<EntryShot>) -> Seq<char> {
    tailed_lines(sort_views(dir_names(entries)), "/\n"@) + tailed_lines(
        sort_views(other_names(entries)),
        "\n"@,
    )
}

/// Appends one line per name to the output.
fn push_tailed_lines(out: &mut String, names: &Vec<String>, tail: &str)
    ensures
        final (out)@ == old(out)@ + tailed_lines(string_views(names@), tail@),
{
    let ghost views = string_views(names@);
    let ghost base = out@;
    proof {
        assert(views.subrange(0, 0) =~= Seq::<Seq<char>>::empty());
        assert(base + tailed_lines(views.subrange(0, 0), tail@) =~= base);
    }
    let mut i: usize = 0;
    while i < names.len()
        invariant
            views == string_views(names@),
            i <= names@.len(),
            out@ == base + tailed_lines(views.subrange(0, i as int), tail@),
        decreases names@.len() - i,
    {
        proof {
            let pre = views.subrange(0, i as int + 1);
            assert(pre.drop_last() =~= views.subrange(0, i as int));
            assert(pre.last() == views[i as int]);
            assert(views[i as int] == names@[i as int]@);
        }
        out.append(names[i].as_str());
        out.append(tail);
        i += 1;
    }
    proof {
        assert(views.subrange(0, views.len() as int) =~= views);
    }
}

/// Renders the raw listing of a directory's entries.
pub fn format_dir_raw(entries: &Vec<FsEntry>) -> (r: String)
    ensures
        r@ == dir_listing(entries_shot(entries@)),
{
    let ghost shots = entries_shot(entries@);
    proof {
        lemma_entries_shot_len(entries@);
    }
    let mut dirs: Vec<String> = Vec::new();
    let mut others: Vec<String> = Vec::new();
    let mut i: usize = 0;
    while i < entries.len()
        invariant
            shots == entries_shot(entries@),
            shots.len() == entries@.len(),
            i <= entries@.len(),
            string_views(dirs@) == dir_names(shots.subrange(0, i as int)),
            string_views(others@) == other_names(shots.subrange(0, i as int)),
        decreases entries@.len() - i,
    {
        proof {
            lemma_entries_shot_index(entries@, i as int);
            let pre = shots.subrange(0, i as int + 1);
            assert(pre.drop_last() =~= shots.subrange(0, i as int));
            assert(pre.last() == shots[i as int]);
        }
        let is_dir = match &entries[i].node {
            FsTree::Dir(_) => true,
            _ => false,
        };
        if is_dir {
            dirs.push(entries[i].name.clone());
            proof {
                assert(string_views(dirs@) =~= dir_names(shots.subrange(0, i as int + 1)));
                assert(string_views(others@) =~= other_names(shots.subrange(0, i as int + 1)));
            }
        } else {
            others.push(entries[i].name.clone());
            proof {
                assert(string_views(dirs@) =~= dir_names(shots.subrange(0, i as int + 1)));
                assert(string_views(others@) =~= other_names(shots.subrange(0, i as int + 1)));
            }
        }
        i += 1;
    }
    proof {
        assert(shots.subrange(0, 0) =~= Seq::<EntryShot>::empty());
        assert(string_views(Seq::<String>::empty()) =~= Seq::<Seq<char>>::empty());
        assert(shots.subrange(0, shots.len() as int) =~= shots);
    }
    let sorted_dirs = sort_strings(&dirs);
    let sorted_others = sort_strings(&others);
    let mut out = String::new();
    push_tailed_lines(&mut out, &sorted_dirs, "/\n");
    push_tailed_lines(&mut out, &sorted_others, "\n");
    proof {
        assert(Seq::<char>::empty() + tailed_lines(sort_views(dir_names(shots)), "/\n"@)
            =~= tailed_lines(sort_views(dir_names(shots)), "/\n"@));
    }
    out
}

/// Renders a directory for `view`: the raw listing, framed with the path
/// unless raw output was asked for.
pub fn format_dir(fp: &str, entries: &Vec<FsEntry>, raw: bool) -> (r: String)
    ensures
        raw ==> r@ == dir_listing(entries_shot(entries@)),
        !raw ==> r@ == "Directory: "@ + fp@ + "\n\n"@ + dir_listing(entries_shot(entries@))
            + "\nPath: "@ + fp@,
{
    let listing = format_dir_raw(entries);
    if raw {
        listing
    } else {
        String::from_str("Directory: ").concat(fp).concat("\n\n").concat(
            listing.as_str(),
        ).concat("\nPath: ").concat(fp)
    }
}

/// Renders a file for `view`: its text, framed with the path unless raw
/// output was asked for.
pub fn format_file(fp: &str, text: &str, raw: bool) -> (r: String)
    ensures
        raw ==> r@ == text@,
        !raw ==> r@ == "File: "@ + fp@ + "\n"@ + "------------------------------\n\n"@ + text@
            + "\n------------------------------\n"@ + "Path: "@ + fp@,
{
    if raw {
        String::from_str(text)
    } else {
        String::from_str("File: ").concat(fp).concat("\n").concat(
            "------------------------------\n\n",
        ).concat(text).concat("\n------------------------------\n").concat("Path: ").concat(fp)
    }
}

/// The path that `view` (and `edit`) resolve: the stored profile when one
/// is named, the target's real path otherwise.  Unknown targets and
/// profiles are reported as not found.
pub fn view_target_path(cmd: &ViewCmd, registry: &Registry) -> (r: Result<String, RobeError>)
    ensures
        spec_target_lookup(registry@.targets, cmd.target@) is None ==> (r matches Err(
            RobeError::Internal(m),
        ) && m@ == "Target "@ + cmd.target@ + " not found."@),
        spec_target_lookup(registry@.targets, cmd.target@) matches Some(tr) ==> match cmd
            .profile {
            Some(p) => {
                &&& !tr.profiles.contains(p@) ==> (r matches Err(RobeError::Internal(m)) && m@
                    == "Profile "@ + cmd.target@ + "/"@ + p@ + " not found."@)
                &&& tr.profiles.contains(p@) ==> (r matches Ok(s) && s@ == registry@.base_path
                    + "/"@ + cmd.target@ + "/"@ + p@)
            },
            None => r matches Ok(s) && s@ == tr.real_path,
        },
{
    proof {
        crate::registry::lemma_find_target_idx_props(registry@.targets, cmd.target@);
    }
    let target_registry = match registry.target_registry(cmd.target.as_str()) {
        Ok(tr) => tr,
        Err(e) => {
            return Err(e);
        },
    };
    match &cmd.profile {
        Some(profile) => {
            match target_registry.assert_profile_exists(profile.as_str()) {
                Ok(_) => {},
                Err(e) => {
                    return Err(e);
                },
            }
            Ok(
                registry.base_path.clone().concat("/").concat(cmd.target.as_str()).concat(
                    "/",
                ).concat(profile.as_str()),
            )
        },
        None => Ok(target_registry.real_path),
    }
}

} // verus!
