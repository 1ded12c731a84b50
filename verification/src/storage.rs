//! The model of the storage directory ("wardrobe"): one folder per target,
//! holding the target's metadata and one entry per profile.
//!
//! The command handlers mutate this value; the caller mirrors the mutation
//! onto the real storage directory.

use vstd::prelude::*;

use crate::errors::RobeError;
use crate::fstree::{FsTree, TreeShot};
use crate::dispatch::io::replace_file_or_dir;
use crate::registry::{Registry, TargetMetadata, TargetRegistry, TargetRegistryShot};
use crate::strutil::string_views;

verus! {

broadcast use vstd::std_specs::vec::group_vec_axioms, vstd::seq::group_seq_axioms;

/// One stored profile: a name and the snapshotted tree.
pub struct StoreProfile {
    pub name: String,
    pub data: FsTree,
}

/// One target's folder: its metadata and its stored profiles.
pub struct StoreTarget {
    pub name: String,
    pub meta: TargetMetadata,
    pub profiles: Vec<StoreProfile>,
}

/// The whole storage directory.
pub struct Storage {
    pub targets: Vec<StoreTarget>,
}

#[verifier::ext_equal]
pub ghost struct StoreProfileShot {
    pub name: Seq<char>,
    pub data: TreeShot,
}

#[verifier::ext_equal]
pub ghost struct StoreTargetShot {
    pub name: Seq<char>,
    pub real_path: Seq<char>,
    pub profiles: Seq<StoreProfileShot>,
}

#[verifier::ext_equal]
pub ghost struct StorageShot {
    pub targets: Seq<StoreTargetShot>,
}

impl View for StoreProfile {
    type V = StoreProfileShot;

    open spec fn view(&self) -> StoreProfileShot {
        StoreProfileShot { name: self.name@, data: self.data@ }
    }
}

impl View for StoreTarget {
    type V = StoreTargetShot;

    open spec fn view(&self) -> StoreTargetShot {
        StoreTargetShot {
            name: self.name@,
            real_path: self.meta.spec_real_path(),
            profiles: self.profiles@.map_values(|p: StoreProfile| p@),
        }
    }
}

impl View for Storage {
    type V = StorageShot;

    open spec fn view(&self) -> StorageShot {
        StorageShot { targets: self.targets@.map_values(|t: StoreTarget| t@) }
    }
}

/// The index of the first stored target with the name, if any.
pub open spec fn find_starget(ts: Seq<StoreTargetShot>, name: Seq<char>) -> Option<int>
    decreases ts.len(),
{
    if ts.len() == 0 {
        None
    } else if ts[0].name == name {
        Some(0int)
    } else {
        match find_starget(ts.subrange(1, ts.len() as int), name) {
            Some(j) => Some(j + 1),
            None => None,
        }
    }
}

pub proof fn lemma_find_starget_props(ts: Seq<StoreTargetShot>, name: Seq<char>)
    ensures
        match find_starget(ts, name) {
            Some(j) => 0 <= j < ts.len() && ts[j].name == name && (forall|k: int|
                0 <= k < j ==> ts[k].name != name),
            None => forall|k: int| 0 <= k < ts.len() ==> ts[k].name != name,
        },
    decreases ts.len(),
{
    if ts.len() > 0 && ts[0].name != name {
        let sub = ts.subrange(1, ts.len() as int);
        lemma_find_starget_props(sub, name);
        assert(forall|k: int| 1 <= k < ts.len() ==> ts[k] == sub[k - 1]);
    }
}

pub proof fn lemma_find_starget_is(ts: Seq<StoreTargetShot>, name: Seq<char>, j: int)
    requires
        0 <= j < ts.len(),
        ts[j].name == name,
        forall|k: int| 0 <= k < j ==> ts[k].name != name,
    ensures
        find_starget(ts, name) == Some(j),
    decreases ts.len(),
{
    if ts[0].name != name {
        let sub = ts.subrange(1, ts.len() as int);
        assert(forall|k: int| 1 <= k < ts.len() ==> ts[k] == sub[k - 1]);
        lemma_find_starget_is(sub, name, j - 1);
    }
}

/// The index of the first stored profile with the name, if any.
pub open spec fn find_sprofile(ps: Seq<StoreProfileShot>, name: Seq<char>) -> Option<int>
    decreases ps.len(),
{
    if ps.len() == 0 {
        None
    } else if ps[0].name == name {
        Some(0int)
    } else {
        match find_sprofile(ps.subrange(1, ps.len() as int), name) {
            Some(j) => Some(j + 1),
            None => None,
        }
    }
}

pub proof fn lemma_find_sprofile_props(ps: Seq<StoreProfileShot>, name: Seq<char>)
    ensures
        match find_sprofile(ps, name) {
            Some(j) => 0 <= j < ps.len() && ps[j].name == name && (forall|k: int|
                0 <= k < j ==> ps[k].name != name),
            None => forall|k: int| 0 <= k < ps.len() ==> ps[k].name != name,
        },
    decreases ps.len(),
{
    if ps.len() > 0 && ps[0].name != name {
        let sub = ps.subrange(1, ps.len() as int);
        lemma_find_sprofile_props(sub, name);
        assert(forall|k: int| 1 <= k < ps.len() ==> ps[k] == sub[k - 1]);
    }
}

pub proof fn lemma_find_sprofile_is(ps: Seq<StoreProfileShot>, name: Seq<char>, j: int)
    requires
        0 <= j < ps.len(),
        ps[j].name == name,
        forall|k: int| 0 <= k < j ==> ps[k].name != name,
    ensures
        find_sprofile(ps, name) == Some(j),
    decreases ps.len(),
{
    if ps[0].name != name {
        let sub = ps.subrange(1, ps.len() as int);
        assert(forall|k: int| 1 <= k < ps.len() ==> ps[k] == sub[k - 1]);
        lemma_find_sprofile_is(sub, name, j - 1);
    }
}

/// The index of the first stored target with the name, as executable code.
fn position_of_target(ts: &Vec<StoreTarget>, name: &str) -> (r: Option<usize>)
    ensures
        match r {
            Some(i) => i < ts@.len() && find_starget(
                ts@.map_values(|t: StoreTarget| t@),
                name@,
            ) == Some(i as int),
            None => find_starget(ts@.map_values(|t: StoreTarget| t@), name@) is None,
        },
{
    let ghost shots = ts@.map_values(|t: StoreTarget| t@);
    let wanted = String::from_str(name);
    let mut i: usize = 0;
    while i < ts.len()
        invariant
            wanted@ == name@,
            shots == ts@.map_values(|t: StoreTarget| t@),
            i <= ts@.len(),
            forall|k: int| 0 <= k < i ==> #[trigger] shots[k].name != name@,
        decreases ts@.len() - i,
    {
        proof {
            assert(shots[i as int] == ts@[i as int]@);
        }
        if ts[i].name == wanted {
            proof {
                lemma_find_starget_is(shots, name@, i as int);
            }
            return Some(i);
        }
        i += 1;
    }
    proof {
        lemma_find_starget_props(shots, name@);
    }
    None
}

/// The index of the first stored profile with the name, as executable code.
fn position_of_profile(ps: &Vec<StoreProfile>, name: &str) -> (r: Option<usize>)
    ensures
        match r {
            Some(j) => j < ps@.len() && find_sprofile(
                ps@.map_values(|p: StoreProfile| p@),
                name@,
            ) == Some(j as int),
            None => find_sprofile(ps@.map_values(|p: StoreProfile| p@), name@) is None,
        },
{
    let ghost shots = ps@.map_values(|p: StoreProfile| p@);
    let wanted = String::from_str(name);
    let mut i: usize = 0;
    while i < ps.len()
        invariant
            wanted@ == name@,
            shots == ps@.map_values(|p: StoreProfile| p@),
            i <= ps@.len(),
            forall|k: int| 0 <= k < i ==> #[trigger] shots[k].name != name@,
        decreases ps@.len() - i,
    {
        proof {
            assert(shots[i as int] == ps@[i as int]@);
        }
        if ps[i].name == wanted {
            proof {
                lemma_find_sprofile_is(shots, name@, i as int);
            }
            return Some(i);
        }
        i += 1;
    }
    proof {
        lemma_find_sprofile_props(shots, name@);
    }
    None
}

/// What writing the metadata file does to the storage: the target's
/// recorded path is replaced, or a target folder with only the metadata is
/// created.
pub open spec fn store_meta_post(
    prev: StorageShot,
    next: StorageShot,
    name: Seq<char>,
    path: Seq<char>,
) -> bool {
    match find_starget(prev.targets, name) {
        Some(i) => next.targets == prev.targets.update(
            i,
            StoreTargetShot { real_path: path, ..prev.targets[i] },
        ),
        None => next.targets == prev.targets.push(
            StoreTargetShot { name: name, real_path: path, profiles: Seq::empty() },
        ),
    }
}

/// Writes a target's metadata, creating the target's folder when it is
/// missing.  Everything else in the storage is untouched.
pub fn store_metadata(storage: &mut Storage, meta: &TargetMetadata, target_name: &str) -> (r:
    Result<(), RobeError>)
    ensures
        r is Ok,
        store_meta_post(old(storage)@, final (storage)@, target_name@, meta.spec_real_path()),
{
    let ghost prev = storage@;
    match position_of_target(&storage.targets, target_name) {
        Some(i) => {
            let mut t = storage.targets.remove(i);
            t.meta = meta.duplicate();
            storage.targets.insert(i, t);
            proof {
                assert(storage@.targets =~~= prev.targets.update(
                    i as int,
                    StoreTargetShot { real_path: meta.spec_real_path(), ..prev.targets[i as int] },
                ));
            }
            Ok(())
        },
        None => {
            storage.targets.push(
                StoreTarget {
                    name: String::from_str(target_name),
                    meta: meta.duplicate(),
                    profiles: Vec::new(),
                },
            );
            proof {
                assert(string_views(Seq::<String>::empty()) =~= Seq::<Seq<char>>::empty());
                assert(storage@.targets =~~= prev.targets.push(
                    StoreTargetShot {
                        name: target_name@,
                        real_path: meta.spec_real_path(),
                        profiles: Seq::empty(),
                    },
                ));
            }
            Ok(())
        },
    }
}

/// After its metadata is written, the target's folder exists.
pub proof fn lemma_store_meta_makes_present(
    prev: StorageShot,
    next: StorageShot,
    name: Seq<char>,
    path: Seq<char>,
)
    requires
        store_meta_post(prev, next, name, path),
    ensures
        find_starget(next.targets, name) is Some,
{
    lemma_find_starget_props(prev.targets, name);
    match find_starget(prev.targets, name) {
        Some(i) => {
            lemma_find_starget_is(next.targets, name, i);
        },
        None => {
            lemma_find_starget_is(next.targets, name, prev.targets.len() as int);
        },
    }
}

/// Whether the storage holds a folder for the target.
pub fn has_target(storage: &Storage, name: &str) -> (r: bool)
    ensures
        r == (find_starget(storage@.targets, name@) is Some),
{
    position_of_target(&storage.targets, name).is_some()
}

/// What storing a snapshot under `storage/<target>/<profile>` does: the
/// named profile's tree is replaced, or a new profile is appended.
pub open spec fn set_profile_post(
    prev: StorageShot,
    next: StorageShot,
    target: Seq<char>,
    profile: Seq<char>,
    src: TreeShot,
) -> bool {
    match find_starget(prev.targets, target) {
        Some(i) => {
            let t = prev.targets[i];
            match find_sprofile(t.profiles, profile) {
                Some(j) => next.targets == prev.targets.update(
                    i,
                    StoreTargetShot {
                        profiles: t.profiles.update(
                            j,
                            StoreProfileShot { name: t.profiles[j].name, data: src },
                        ),
                        ..t
                    },
                ),
                None => next.targets == prev.targets.update(
                    i,
                    StoreTargetShot {
                        profiles: t.profiles.push(StoreProfileShot { name: profile, data: src }),
                        ..t
                    },
                ),
            }
        },
        None => false,
    }
}

/// Snapshots the source tree under `storage/<target>/<profile>`, replacing
/// what the profile held before.  A source that is neither a file nor a
/// directory is rejected and the storage is left unchanged.
pub fn set_profile(storage: &mut Storage, target: &str, profile: &str, source: &FsTree) -> (r:
    Result<(), RobeError>)
    requires
        find_starget(old(storage)@.targets, target@) is Some,
    ensures
        !(source@ matches TreeShot::Link) ==> r is Ok && set_profile_post(
            old(storage)@,
            final (storage)@,
            target@,
            profile@,
            source@,
        ),
        source@ matches TreeShot::Link ==> (r matches Err(RobeError::Internal(m))
            && m@ == "Robe does not allow symlinks."@ && final (storage)@ == old(storage)@),
{
    let ghost prev = storage@;
    let i = match position_of_target(&storage.targets, target) {
        Some(i) => i,
        None => {
            proof {
                assert(false);
            }
            0
        },
    };
    let mut t = storage.targets.remove(i);
    let ghost tshot = prev.targets[i as int];
    let res: Result<(), RobeError>;
    match position_of_profile(&t.profiles, profile) {
        Some(j) => {
            let mut p = t.profiles.remove(j);
            res = replace_file_or_dir(source, &mut p.data);
            t.profiles.insert(j, p);
            proof {
                if source@ is Link {
                    assert(t.profiles@.map_values(|p: StoreProfile| p@) =~~= tshot.profiles);
                } else {
                    assert(t.profiles@.map_values(|p: StoreProfile| p@) =~~= tshot.profiles.update(
                        j as int,
                        StoreProfileShot { name: tshot.profiles[j as int].name, data: source@ },
                    ));
                }
            }
        },
        None => {
            if match source {
                FsTree::Link => false,
                _ => true,
            } {
                let mut data = FsTree::Link;
                res = replace_file_or_dir(source, &mut data);
                t.profiles.push(StoreProfile { name: String::from_str(profile), data });
                proof {
                    assert(t.profiles@.map_values(|p: StoreProfile| p@) =~~= tshot.profiles.push(
                        StoreProfileShot { name: profile@, data: source@ },
                    ));
                }
            } else {
                res = Err(
                    RobeError::Internal(String::from_str("Robe does not allow symlinks.")),
                );
            }
        },
    }
    storage.targets.insert(i, t);
    proof {
        if source@ is Link {
            assert(storage@.targets =~~= prev.targets);
            assert(storage@ =~~= prev);
        } else {
            match find_sprofile(tshot.profiles, profile@) {
                Some(j) => {
                    assert(storage@.targets =~~= prev.targets.update(
                        i as int,
                        StoreTargetShot {
                            profiles: tshot.profiles.update(
                                j,
                                StoreProfileShot { name: tshot.profiles[j].name, data: source@ },
                            ),
                            ..tshot
                        },
                    ));
                },
                None => {
                    assert(storage@.targets =~~= prev.targets.update(
                        i as int,
                        StoreTargetShot {
                            profiles: tshot.profiles.push(
                                StoreProfileShot { name: profile@, data: source@ },
                            ),
                            ..tshot
                        },
                    ));
                },
            }
        }
    }
    res
}

/// What deleting one profile does: the named profile entry of the named
/// target goes away; a missing target folder or profile entry changes
/// nothing.
pub open spec fn delete_profile_post(
    prev: StorageShot,
    next: StorageShot,
    tname: Seq<char>,
    profile: Seq<char>,
) -> bool {
    match find_starget(prev.targets, tname) {
        Some(i) => {
            let t = prev.targets[i];
            match find_sprofile(t.profiles, profile) {
                Some(j) => next.targets == prev.targets.update(
                    i,
                    StoreTargetShot { profiles: t.profiles.remove(j), ..t },
                ),
                None => next == prev,
            }
        },
        None => next == prev,
    }
}

/// Deletes one stored profile of a target.  Deleting a profile that has no
/// entry on disk is not an error, as removing a missing file is skipped.
pub fn delete_profile(
    storage: &mut Storage,
    target_registry: &TargetRegistry,
    profile: &str,
) -> (r: Result<(), RobeError>)
    ensures
        r is Ok,
        delete_profile_post(old(storage)@, final (storage)@, target_registry@.name, profile@),
{
    let ghost prev = storage@;
    match position_of_target(&storage.targets, target_registry.name.as_str()) {
        None => Ok(()),
        Some(i) => {
            let mut t = storage.targets.remove(i);
            let ghost tshot = prev.targets[i as int];
            match position_of_profile(&t.profiles, profile) {
                None => {
                    storage.targets.insert(i, t);
                    proof {
                        assert(storage@.targets =~~= prev.targets);
                        assert(storage@ =~~= prev);
                    }
                    Ok(())
                },
                Some(j) => {
                    let _ = t.profiles.remove(j);
                    storage.targets.insert(i, t);
                    proof {
                        assert(t.profiles@.map_values(|p: StoreProfile| p@)
                            =~~= tshot.profiles.remove(j as int));
                        assert(storage@.targets =~~= prev.targets.update(
                            i as int,
                            StoreTargetShot { profiles: tshot.profiles.remove(j as int), ..tshot },
                        ));
                    }
                    Ok(())
                },
            }
        },
    }
}

/// Deletes a whole target folder with every profile in it.  Fails, and
/// changes nothing, when the folder does not exist.
pub fn delete_target(target_name: &str, storage: &mut Storage) -> (r: Result<(), RobeError>)
    ensures
        match find_starget(old(storage)@.targets, target_name@) {
            Some(i) => r is Ok && final (storage)@.targets == old(storage)@.targets.remove(i),
            None => r matches Err(RobeError::Internal(_)) && final (storage)@ == old(storage)@,
        },
{
    let ghost prev = storage@;
    match position_of_target(&storage.targets, target_name) {
        Some(i) => {
            let _ = storage.targets.remove(i);
            proof {
                assert(storage@.targets =~~= prev.targets.remove(i as int));
            }
            Ok(())
        },
        None => Err(
            RobeError::message(
                String::from_str("IO error: no stored target directory to remove"),
            ),
        ),
    }
}

/// The tree stored under `storage/<target>/<profile>`, if any.
pub open spec fn spec_profile_data(s: StorageShot, target: Seq<char>, profile: Seq<char>) -> Option<
    TreeShot,
> {
    match find_starget(s.targets, target) {
        Some(i) => {
            match find_sprofile(s.targets[i].profiles, profile) {
                Some(j) => Some(s.targets[i].profiles[j].data),
                None => None,
            }
        },
        None => None,
    }
}

/// The tree stored under `storage/<target>/<profile>`, if any.
pub fn profile_data<'a>(storage: &'a Storage, target: &str, profile: &str) -> (r: Option<
    &'a FsTree,
>)
    ensures
        match spec_profile_data(storage@, target@, profile@) {
            Some(d) => r matches Some(x) && x@ == d,
            None => r is None,
        },
{
    match position_of_target(&storage.targets, target) {
        None => None,
        Some(i) => {
            let t = &storage.targets[i];
            proof {
                assert(storage@.targets[i as int] == storage.targets@[i as int]@);
            }
            match position_of_profile(&t.profiles, profile) {
                None => None,
                Some(j) => {
                    proof {
                        assert(storage@.targets[i as int].profiles[j as int] == t.profiles@[
                            j as int
                        ]@);
                    }
                    Some(&t.profiles[j].data)
                },
            }
        },
    }
}

/// The registry record that one stored target yields when the storage is
/// scanned: its name, its recorded path and its profile names.
pub open spec fn derived_target(t: StoreTargetShot) -> TargetRegistryShot {
    TargetRegistryShot {
        name: t.name,
        real_path: t.real_path,
        profiles: t.profiles.map_values(|p: StoreProfileShot| p.name),
        last: None,
    }
}

/// The registry that a scan of the storage yields.
pub open spec fn derived_registry(s: StorageShot) -> Seq<TargetRegistryShot> {
    s.targets.map_values(|t: StoreTargetShot| derived_target(t))
}

/// Once a target's metadata records a new path, the registry rebuilt from
/// the storage tracks that target under the new path.
pub proof fn lemma_new_metadata_is_tracked(
    prev: StorageShot,
    next: StorageShot,
    name: Seq<char>,
    path: Seq<char>,
)
    requires
        store_meta_post(prev, next, name, path),
    ensures
        crate::registry::spec_target_lookup(derived_registry(next), name) matches Some(tr)
            && tr.real_path == path,
{
    let derived = derived_registry(next);
    lemma_find_starget_props(prev.targets, name);
    match find_starget(prev.targets, name) {
        Some(i) => {
            assert(derived[i].name == name && derived[i].real_path == path);
            assert forall|k: int| 0 <= k < i implies derived[k].name != name by {
                assert(next.targets[k] == prev.targets[k]);
            }
            crate::registry::lemma_find_target_idx_is(derived, name, i);
        },
        None => {
            let i = prev.targets.len() as int;
            assert(derived[i].name == name && derived[i].real_path == path);
            assert forall|k: int| 0 <= k < i implies derived[k].name != name by {
                assert(next.targets[k] == prev.targets[k]);
            }
            crate::registry::lemma_find_target_idx_is(derived, name, i);
        },
    }
}

/// Builds the registry by scanning the storage model, as the program
/// rebuilds it from the storage directory on every run.
pub fn build_registry(storage: &Storage, base_path: String) -> (r: Registry)
    ensures
        r@.base_path == base_path@,
        r@.targets == derived_registry(storage@),
{
    let mut targets: Vec<TargetRegistry> = Vec::new();
    let mut i: usize = 0;
    while i < storage.targets.len()
        invariant
            i <= storage.targets@.len(),
            targets@.len() == i,
            forall|k: int|
                0 <= k < i ==> targets@[k]@ == derived_target(#[trigger] storage@.targets[k]),
        decreases storage.targets@.len() - i,
    {
        let t = &storage.targets[i];
        let mut names: Vec<String> = Vec::new();
        let mut j: usize = 0;
        while j < t.profiles.len()
            invariant
                j <= t.profiles@.len(),
                names@.len() == j,
                forall|k: int| 0 <= k < j ==> names@[k]@ == #[trigger] t.profiles@[k]@.name,
            decreases t.profiles@.len() - j,
        {
            names.push(t.profiles[j].name.clone());
            j += 1;
        }
        let tr = TargetRegistry::new(t.name.as_str(), &t.meta, &names);
        proof {
            assert(storage@.targets[i as int] == storage.targets@[i as int]@);
            assert(string_views(names@) =~= storage@.targets[i as int].profiles.map_values(
                |p: StoreProfileShot| p.name,
            ));
        }
        targets.push(tr);
        i += 1;
    }
    let r = Registry { base_path, targets };
    proof {
        assert forall|i: int| 0 <= i < storage@.targets.len() implies r@.targets[i]
            == derived_target(#[trigger] storage@.targets[i]) by {
            assert(r@.targets[i] == r.targets@[i]@);
        }
        assert(r@.targets =~= derived_registry(storage@));
    }
    r
}

} // verus!
