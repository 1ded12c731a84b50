//! Saving a profile: copying the target's current content (or a freshly
//! registered path's content) into the storage.

use vstd::prelude::*;

use crate::domain::Add;
use crate::errors::RobeError;
use crate::fstree::{FsTree, TreeShot};
use crate::registry::{lemma_find_target_idx_props, spec_target_lookup, Registry, TargetMetadata};
use crate::storage::{
    find_starget, has_target, lemma_store_meta_makes_present, set_profile, set_profile_post,
    store_meta_post, store_metadata, Storage, StorageShot,
};

verus! {

/// The path whose content `add` will snapshot: the freshly registered path
/// when one is given, the target's recorded real path otherwise.  The
/// checks are the same as in `add`, in the same order, so a caller can
/// resolve the path, read it, and hand the tree to `add`.
pub fn add_source_path(cmd: &Add, registry: &Registry) -> (r: Result<String, RobeError>)
    ensures
        (spec_target_lookup(registry@.targets, cmd.target@) matches Some(tr) && tr.profiles
            .contains(cmd.profile@) && !cmd.force) ==> r is Err,
        (spec_target_lookup(registry@.targets, cmd.target@) matches Some(tr) && (tr.profiles
            .contains(cmd.profile@) ==> cmd.force) && cmd.to_register is Some && !cmd.force)
            ==> r is Err,
        (spec_target_lookup(registry@.targets, cmd.target@) matches Some(tr) && (tr.profiles
            .contains(cmd.profile@) ==> cmd.force) && cmd.to_register is Some
            && cmd.force) ==> (r matches Ok(s) && s@ == cmd.to_register->0@),
        spec_target_lookup(registry@.targets, cmd.target@) matches Some(tr) ==> ((tr.profiles
            .contains(cmd.profile@) ==> cmd.force) && cmd.to_register is None ==> (r matches Ok(
            s,
        ) && s@ == tr.real_path)),
        (spec_target_lookup(registry@.targets, cmd.target@) is None && cmd.to_register is Some)
            ==> (r matches Ok(s) && s@ == cmd.to_register->0@),
        (spec_target_lookup(registry@.targets, cmd.target@) is None && cmd.to_register is None)
            ==> r is Err,
{
    match registry.get_target_registry(cmd.target.as_str()) {
        Some(target_registry) => {
            let profile_exists = match target_registry.assert_profile_exists(
                cmd.profile.as_str(),
            ) {
                Ok(_) => true,
                Err(_) => false,
            };
            if profile_exists && !cmd.force {
                return Err(already_exists_error(cmd));
            }
            match &cmd.to_register {
                Some(rp) => {
                    if !cmd.force {
                        return Err(already_registered_error(cmd));
                    }
                    Ok(rp.clone())
                },
                None => Ok(target_registry.real_path.clone()),
            }
        },
        None => {
            match &cmd.to_register {
                Some(rp) => Ok(rp.clone()),
                None => Err(not_registered_error(cmd)),
            }
        },
    }
}

fn already_exists_error(cmd: &Add) -> (e: RobeError)
    ensures
        e matches RobeError::Internal(m) && m@ == "Profile "@ + cmd.target@ + "/"@ + cmd.profile@
            + " already exists. Use `-f` to update."@,
{
    RobeError::message(
        String::from_str("Profile ").concat(cmd.target.as_str()).concat("/").concat(
            cmd.profile.as_str(),
        ).concat(" already exists. Use `-f` to update."),
    )
}

fn already_registered_error(cmd: &Add) -> (e: RobeError)
    ensures
        e matches RobeError::Internal(m) && m@ == "Target "@ + cmd.target@
            + " is already registered. Use `-f` to update registered target path."@,
{
    RobeError::message(
        String::from_str("Target ").concat(cmd.target.as_str()).concat(
            " is already registered. Use `-f` to update registered target path.",
        ),
    )
}

fn not_registered_error(cmd: &Add) -> (e: RobeError)
    ensures
        e matches RobeError::Internal(m) && m@ == "Target "@ + cmd.target@
            + " not registered. Use -r <file> to register."@,
{
    RobeError::message(
        String::from_str("Target ").concat(cmd.target.as_str()).concat(
            " not registered. Use -r <file> to register.",
        ),
    )
}

/// Saves the handed-in tree as `cmd.target/cmd.profile`.
///
/// An existing profile is only overwritten with force; a register path on
/// an already registered target needs force too and then also rewrites the
/// metadata; an unregistered target is only accepted together with a
/// register path.  `source` must be the content at the path that
/// `add_source_path` resolves.
pub fn add(cmd: &Add, registry: &Registry, storage: &mut Storage, source: &FsTree) -> (r: Result<
    (),
    RobeError,
>)
    ensures
        (spec_target_lookup(registry@.targets, cmd.target@) matches Some(tr) && tr.profiles
            .contains(cmd.profile@) && !cmd.force) ==> (r matches Err(RobeError::Internal(m))
            && m@ == "Profile "@ + cmd.target@ + "/"@ + cmd.profile@
            + " already exists. Use `-f` to update."@ && final (storage)@ == old(storage)@),
        (spec_target_lookup(registry@.targets, cmd.target@) matches Some(tr) && (tr.profiles
            .contains(cmd.profile@) ==> cmd.force) && cmd.to_register is Some && !cmd.force)
            ==> (r matches Err(RobeError::Internal(m)) && m@ == "Target "@ + cmd.target@
            + " is already registered. Use `-f` to update registered target path."@ && final (
        storage)@ == old(storage)@),
        (spec_target_lookup(registry@.targets, cmd.target@) matches Some(tr) && (tr.profiles
            .contains(cmd.profile@) ==> cmd.force) && cmd.to_register is None) ==> match
            find_starget(old(storage)@.targets, cmd.target@) {
            Some(_) => {
                &&& !(source@ matches TreeShot::Link) ==> r is Ok && set_profile_post(
                    old(storage)@,
                    final (storage)@,
                    cmd.target@,
                    cmd.profile@,
                    source@,
                )
                &&& source@ matches TreeShot::Link ==> (r matches Err(RobeError::Internal(m))
                    && m@ == "Robe does not allow symlinks."@ && final (storage)@ == old(
                    storage,
                )@)
            },
            None => r matches Err(RobeError::Internal(_)) && final (storage)@ == old(storage)@,
        },
        (spec_target_lookup(registry@.targets, cmd.target@) matches Some(tr) && (tr.profiles
            .contains(cmd.profile@) ==> cmd.force) && cmd.to_register is Some
            && cmd.force) ==> exists|mid: StorageShot|
            {
                &&& #[trigger] store_meta_post(old(storage)@, mid, cmd.target@, cmd.to_register->0@)
                &&& !(source@ matches TreeShot::Link) ==> r is Ok && set_profile_post(
                    mid,
                    final (storage)@,
                    cmd.target@,
                    cmd.profile@,
                    source@,
                )
                &&& source@ matches TreeShot::Link ==> (r matches Err(RobeError::Internal(m))
                    && m@ == "Robe does not allow symlinks."@ && final (storage)@ == mid)
            },
        (spec_target_lookup(registry@.targets, cmd.target@) is None && cmd.to_register is Some)
            ==> exists|mid: StorageShot|
            {
                &&& #[trigger] store_meta_post(old(storage)@, mid, cmd.target@, cmd.to_register->0@)
                &&& !(source@ matches TreeShot::Link) ==> r is Ok && set_profile_post(
                    mid,
                    final (storage)@,
                    cmd.target@,
                    cmd.profile@,
                    source@,
                )
                &&& source@ matches TreeShot::Link ==> (r matches Err(RobeError::Internal(m))
                    && m@ == "Robe does not allow symlinks."@ && final (storage)@ == mid)
            },
        (spec_target_lookup(registry@.targets, cmd.target@) is None && cmd.to_register is None)
            ==> (r matches Err(RobeError::Internal(m)) && m@ == "Target "@ + cmd.target@
            + " not registered. Use -r <file> to register."@ && final (storage)@ == old(
            storage,
        )@),
{
    proof {
        lemma_find_target_idx_props(registry@.targets, cmd.target@);
    }
    match registry.get_target_registry(cmd.target.as_str()) {
        Some(target_registry) => {
            let profile_exists = match target_registry.assert_profile_exists(
                cmd.profile.as_str(),
            ) {
                Ok(_) => true,
                Err(_) => false,
            };
            if profile_exists && !cmd.force {
                return Err(already_exists_error(cmd));
            }
            match &cmd.to_register {
                Some(rp) => {
                    if !cmd.force {
                        return Err(already_registered_error(cmd));
                    }
                    let meta = TargetMetadata::create(rp.clone());
                    let _ = store_metadata(storage, &meta, cmd.target.as_str());
                    let ghost mid = storage@;
                    proof {
                        lemma_store_meta_makes_present(old(storage)@, mid, cmd.target@, rp@);
                    }
                    set_profile(storage, cmd.target.as_str(), cmd.profile.as_str(), source)
                },
                None => {
                    if has_target(storage, cmd.target.as_str()) {
                        set_profile(storage, cmd.target.as_str(), cmd.profile.as_str(), source)
                    } else {
                        Err(
                            RobeError::message(
                                String::from_str("IO error: no stored target directory"),
                            ),
                        )
                    }
                },
            }
        },
        None => {
            match &cmd.to_register {
                Some(rp) => {
                    let meta = TargetMetadata::create(rp.clone());
                    let _ = store_metadata(storage, &meta, cmd.target.as_str());
                    let ghost mid = storage@;
                    proof {
                        lemma_store_meta_makes_present(old(storage)@, mid, cmd.target@, rp@);
                    }
                    set_profile(storage, cmd.target.as_str(), cmd.profile.as_str(), source)
                },
                None => Err(not_registered_error(cmd)),
            }
        },
    }
}

} // verus!
