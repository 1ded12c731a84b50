//! Registering a new target: writing its metadata and storing its first
//! profile.

use vstd::prelude::*;

use crate::domain::Register;
use crate::errors::RobeError;
use crate::fstree::{FsTree, TreeShot};
use crate::registry::{spec_target_lookup, Registry, TargetMetadata};
use crate::storage::{
    lemma_store_meta_makes_present, set_profile, set_profile_post, store_meta_post, store_metadata,
    Storage, StorageShot,
};

verus! {

/// Registers `cmd.target` with the path to track and stores the content at
/// that path (handed in as `source`) as the first profile.  A target that
/// already exists is refused.  The metadata is written before the profile
/// is copied, so a rejected source still leaves the metadata behind: the
/// operation runs step by step and is not transactional.
pub fn register(cmd: &Register, registry: &Registry, storage: &mut Storage, source: &FsTree) -> (r:
    Result<(), RobeError>)
    ensures
        spec_target_lookup(registry@.targets, cmd.target@) is Some ==> (r matches Err(
            RobeError::Internal(m),
        ) && m@ == "target "@ + cmd.target@ + " already exists."@ && final (storage)@ == old(
            storage,
        )@),
        spec_target_lookup(registry@.targets, cmd.target@) is None ==> exists|mid: StorageShot|
            {
                &&& #[trigger] store_meta_post(
                    old(storage)@,
                    mid,
                    cmd.target@,
                    cmd.register_file_path@,
                )
                &&& !(source@ matches TreeShot::Link) ==> r is Ok && set_profile_post(
                    mid,
                    final (storage)@,
                    cmd.target@,
                    cmd.profile@,
                    source@,
                )
                &&& source@ matches TreeShot::Link ==> (r matches Err(RobeError::Internal(m))
                    && m@ == "Robe does not allow symlinks."@ && final (storage)@ == mid)
            },
{
    if registry.get_target_registry(cmd.target.as_str()).is_some() {
        return Err(
            RobeError::message(
                String::from_str("target ").concat(cmd.target.as_str()).concat(
                    " already exists.",
                ),
            ),
        );
    }
    let new_meta = TargetMetadata::create(cmd.register_file_path.clone());
    let _ = store_metadata(storage, &new_meta, cmd.target.as_str());
    let ghost mid = storage@;
    proof {
        lemma_store_meta_makes_present(
            old(storage)@,
            mid,
            cmd.target@,
            cmd.register_file_path@,
        );
    }
    set_profile(storage, cmd.target.as_str(), cmd.profile.as_str(), source)
}

} // verus!
