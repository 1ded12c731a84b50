//! Activating a stored profile: its snapshot overwrites the target's real
//! file or directory.

use vstd::prelude::*;

use crate::domain::Use;
use crate::errors::RobeError;
use crate::fstree::{FsTree, TreeShot};
use crate::dispatch::io::replace_file_or_dir;
use crate::registry::{spec_target_lookup, Registry};
use crate::storage::{spec_profile_data, Storage};

verus! {

/// Activates `cmd.target/cmd.profile`: the stored snapshot replaces the
/// content at the target's real path.  The target and the profile must be
/// registered, the snapshot must exist in the storage and must be a file
/// or a directory; otherwise an error says why and the real tree is left
/// alone.
pub fn usecmd(cmd: &Use, registry: &Registry, storage: &Storage, real_tree: &mut FsTree) -> (r: Result<
    (),
    RobeError,
>)
    ensures
        spec_target_lookup(registry@.targets, cmd.target@) is None ==> (r matches Err(
            RobeError::Internal(m),
        ) && m@ == "Target "@ + cmd.target@ + " not found."@ && *final (real_tree) == *old(real_tree)),
        (spec_target_lookup(registry@.targets, cmd.target@) matches Some(tr)
            && !tr.profiles.contains(cmd.profile@)) ==> (r matches Err(RobeError::Internal(m))
            && m@ == "Profile "@ + cmd.target@ + "/"@ + cmd.profile@ + " not found."@ && *final (
        real_tree) == *old(real_tree)),
        (spec_target_lookup(registry@.targets, cmd.target@) matches Some(tr)
            && tr.profiles.contains(cmd.profile@)) ==> match spec_profile_data(
            storage@,
            cmd.target@,
            cmd.profile@,
        ) {
            Some(d) => {
                &&& !(d matches TreeShot::Link) ==> r is Ok && final (real_tree)@ == d
                &&& d matches TreeShot::Link ==> (r matches Err(RobeError::Internal(m)) && m@
                    == "Robe does not allow symlinks."@ && *final (real_tree) == *old(real_tree))
            },
            None => (r matches Err(RobeError::Internal(m)) && m@
                == "Robe does not allow symlinks."@ && *final (real_tree) == *old(real_tree)),
        },
{
    proof {
        crate::registry::lemma_find_target_idx_props(registry@.targets, cmd.target@);
    }
    let target_registry = match registry.target_registry(cmd.target.as_str()) {
        Ok(tr) => tr,
        Err(e) => {
            return Err(e);
        },
    };
    match target_registry.assert_profile_exists(cmd.profile.as_str()) {
        Ok(_) => {},
        Err(e) => {
            return Err(e);
        },
    }
    match crate::storage::profile_data(storage, cmd.target.as_str(), cmd.profile.as_str()) {
        Some(data) => replace_file_or_dir(data, real_tree),
        None => Err(RobeError::Internal(String::from_str("Robe does not allow symlinks."))),
    }
}

} // verus!
