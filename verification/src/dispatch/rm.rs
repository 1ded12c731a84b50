//! Removing a stored profile, or a whole target with all its profiles.

use vstd::prelude::*;

use crate::domain::Rm;
use crate::errors::RobeError;
use crate::registry::{lemma_find_target_idx_props, spec_target_lookup, Registry};
use crate::storage::{delete_profile_post, find_starget, Storage};

verus! {

/// Removes `cmd.target/cmd.profile`, or the whole target folder when no
/// profile is named.  An unknown target or profile is an error, and an
/// error never changes the storage.
pub fn rm(cmd: &Rm, registry: &Registry, storage: &mut Storage) -> (r: Result<(), RobeError>)
    ensures
        spec_target_lookup(registry@.targets, cmd.target@) is None ==> (r matches Err(
            RobeError::Internal(m),
        ) && m@ == "Target "@ + cmd.target@ + " not found."@ && final (storage)@ == old(
            storage,
        )@),
        spec_target_lookup(registry@.targets, cmd.target@) matches Some(tr) ==> match cmd
            .profile {
            Some(p) => {
                &&& !tr.profiles.contains(p@) ==> (r matches Err(RobeError::Internal(m)) && m@
                    == "Profile "@ + cmd.target@ + "/"@ + p@ + " not found."@ && final (storage)@
                    == old(storage)@)
                &&& tr.profiles.contains(p@) ==> r is Ok && delete_profile_post(
                    old(storage)@,
                    final (storage)@,
                    cmd.target@,
                    p@,
                )
            },
            None => match find_starget(old(storage)@.targets, cmd.target@) {
                Some(i) => r is Ok && final (storage)@.targets == old(storage)@.targets.remove(i),
                None => r matches Err(RobeError::Internal(_)) && final (storage)@ == old(
                    storage,
                )@,
            },
        },
{
    proof {
        lemma_find_target_idx_props(registry@.targets, cmd.target@);
    }
    let target_registry = match registry.target_registry(cmd.target.as_str()) {
        Ok(tr) => tr,
        Err(e) => {
            return Err(e);
        },
    };
    match &cmd.profile {
        Some(profile) => {
            match target_registry.assert_profile_exists(profile.as_str()) {
                Ok(_) => {},
                Err(e) => {
                    return Err(e);
                },
            }
            crate::storage::delete_profile(storage, &target_registry, profile.as_str())
        },
        None => crate::storage::delete_target(cmd.target.as_str(), storage),
    }
}

} // verus!
