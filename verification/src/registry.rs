//! The registry: the in-memory picture of which targets are tracked, where
//! their real paths point and which profiles they own.  It is derived from
//! the storage directory on every run and consulted by the command
//! handlers.

use vstd::prelude::*;

use crate::errors::RobeError;
use crate::strutil::{dup_opt_string, dup_strings, string_views};

verus! {

broadcast use vstd::std_specs::vec::group_vec_axioms, vstd::seq::group_seq_axioms;

/// The metadata stored beside a target's profiles: the canonical path of
/// the tracked file or directory.
#[derive(Debug, Clone)]
pub struct TargetMetadata {
    real_path: String,
}

impl TargetMetadata {
    /// The canonical path the metadata records.
    pub closed spec fn spec_real_path(&self) -> Seq<char> {
        self.real_path@
    }

    /// Wraps an already canonicalized path as target metadata.
    pub fn create(path: String) -> (s: Self)
        ensures
            s.spec_real_path() == path@,
    {
        Self { real_path: path }
    }

    /// The recorded canonical path.
    pub fn real_path(&self) -> (r: &String)
        ensures
            r@ == self.spec_real_path(),
    {
        &self.real_path
    }

    pub fn duplicate(&self) -> (r: Self)
        ensures
            r.spec_real_path() == self.spec_real_path(),
    {
        Self { real_path: self.real_path.clone() }
    }
}

/// One registered target.
#[derive(Debug, Clone)]
pub struct TargetRegistry {
    pub name: String,
    pub real_path: String,
    pub profiles: Vec<String>,
    pub last_activated_profile: Option<String>,
}

/// The mathematical picture of a registered target.
#[verifier::ext_equal]
pub ghost struct TargetRegistryShot {
    pub name: Seq<char>,
    pub real_path: Seq<char>,
    pub profiles: Seq<Seq<char>>,
    pub last: Option<Seq<char>>,
}

impl View for TargetRegistry {
    type V = TargetRegistryShot;

    open spec fn view(&self) -> TargetRegistryShot {
        TargetRegistryShot {
            name: self.name@,
            real_path: self.real_path@,
            profiles: string_views(self.profiles@),
            last: match self.last_activated_profile {
                Some(p) => Some(p@),
                None => None,
            },
        }
    }
}

impl TargetRegistry {
    /// Builds the registry record of one target from its name, its stored
    /// metadata and its profile names.
    pub fn new(name: &str, meta: &TargetMetadata, profiles: &Vec<String>) -> (r: Self)
        ensures
            r@.name == name@,
            r@.real_path == meta.spec_real_path(),
            r@.profiles == string_views(profiles@),
            r@.last is None,
    {
        Self {
            name: String::from_str(name),
            real_path: meta.real_path().clone(),
            profiles: dup_strings(profiles),
            last_activated_profile: None,
        }
    }

    /// Succeeds exactly when the profile name is among this target's
    /// profiles; otherwise reports it as not found.
    pub fn assert_profile_exists(&self, profile: &str) -> (r: Result<(), RobeError>)
        ensures
            r is Ok <==> self@.profiles.contains(profile@),
            r matches Err(e) ==> (e matches RobeError::Internal(m) && m@ == "Profile "@
                + self@.name + "/"@ + profile@ + " not found."@),
    {
        let wanted = String::from_str(profile);
        let mut i: usize = 0;
        while i < self.profiles.len()
            invariant
                wanted@ == profile@,
                i <= self.profiles@.len(),
                forall|k: int| 0 <= k < i ==> self@.profiles[k] != profile@,
            decreases self.profiles@.len() - i,
        {
            proof {
                assert(self@.profiles[i as int] == self.profiles@[i as int]@);
            }
            if self.profiles[i] == wanted {
                return Ok(());
            }
            i += 1;
        }
        let msg = String::from_str("Profile ").concat(self.name.as_str()).concat("/").concat(
            profile,
        ).concat(" not found.");
        Err(RobeError::message(msg))
    }

    pub fn duplicate(&self) -> (r: Self)
        ensures
            r@ == self@,
    {
        Self {
            name: self.name.clone(),
            real_path: self.real_path.clone(),
            profiles: dup_strings(&self.profiles),
            last_activated_profile: dup_opt_string(&self.last_activated_profile),
        }
    }
}

/// The registry of every tracked target, with the storage root it was read
/// from.
#[derive(Debug, Clone)]
pub struct Registry {
    pub base_path: String,
    pub targets: Vec<TargetRegistry>,
}

/// The mathematical picture of the registry.
#[verifier::ext_equal]
pub ghost struct RegistryShot {
    pub base_path: Seq<char>,
    pub targets: Seq<TargetRegistryShot>,
}

impl View for Registry {
    type V = RegistryShot;

    open spec fn view(&self) -> RegistryShot {
        RegistryShot {
            base_path: self.base_path@,
            targets: self.targets@.map_values(|t: TargetRegistry| t@),
        }
    }
}

/// The index of the first registry record carrying the name, if any.
pub open spec fn find_target_idx(targets: Seq<TargetRegistryShot>, name: Seq<char>) -> Option<int>
    decreases targets.len(),
{
    if targets.len() == 0 {
        None
    } else if targets[0].name == name {
        Some(0int)
    } else {
        match find_target_idx(targets.subrange(1, targets.len() as int), name) {
            Some(j) => Some(j + 1),
            None => None,
        }
    }
}

pub proof fn lemma_find_target_idx_props(targets: Seq<TargetRegistryShot>, name: Seq<char>)
    ensures
        match find_target_idx(targets, name) {
            Some(j) => 0 <= j < targets.len() && targets[j].name == name && (forall|k: int|
                0 <= k < j ==> targets[k].name != name),
            None => forall|k: int| 0 <= k < targets.len() ==> targets[k].name != name,
        },
    decreases targets.len(),
{
    if targets.len() > 0 && targets[0].name != name {
        let sub = targets.subrange(1, targets.len() as int);
        lemma_find_target_idx_props(sub, name);
        assert(forall|k: int| 1 <= k < targets.len() ==> targets[k] == sub[k - 1]);
    }
}

pub proof fn lemma_find_target_idx_is(targets: Seq<TargetRegistryShot>, name: Seq<char>, j: int)
    requires
        0 <= j < targets.len(),
        targets[j].name == name,
        forall|k: int| 0 <= k < j ==> targets[k].name != name,
    ensures
        find_target_idx(targets, name) == Some(j),
    decreases targets.len(),
{
    if targets[0].name != name {
        let sub = targets.subrange(1, targets.len() as int);
        assert(forall|k: int| 1 <= k < targets.len() ==> targets[k] == sub[k - 1]);
        lemma_find_target_idx_is(sub, name, j - 1);
    }
}

/// The registry entry for a target name: the first record carrying it.
pub open spec fn spec_target_lookup(targets: Seq<TargetRegistryShot>, name: Seq<char>) -> Option<
    TargetRegistryShot,
> {
    match find_target_idx(targets, name) {
        Some(j) => Some(targets[j]),
        None => None,
    }
}

impl Registry {
    /// Looks a target up by name; `None` when it is not registered.
    pub fn get_target_registry(&self, target: &str) -> (r: Option<TargetRegistry>)
        ensures
            match r {
                Some(tr) => spec_target_lookup(self@.targets, target@) == Some(tr@),
                None => spec_target_lookup(self@.targets, target@) is None,
            },
    {
        let wanted = String::from_str(target);
        let mut i: usize = 0;
        while i < self.targets.len()
            invariant
                wanted@ == target@,
                i <= self.targets@.len(),
                forall|k: int| 0 <= k < i ==> #[trigger] self@.targets[k].name != target@,
            decreases self.targets@.len() - i,
        {
            proof {
                assert(self@.targets[i as int] == self.targets@[i as int]@);
            }
            if self.targets[i].name == wanted {
                let r = self.targets[i].duplicate();
                proof {
                    lemma_find_target_idx_is(self@.targets, target@, i as int);
                }
                return Some(r);
            }
            i += 1;
        }
        proof {
            lemma_find_target_idx_props(self@.targets, target@);
        }
        None
    }

    /// Looks a target up by name; an error naming the target when it is
    /// not registered.
    pub fn target_registry(&self, target: &str) -> (r: Result<TargetRegistry, RobeError>)
        ensures
            match r {
                Ok(tr) => spec_target_lookup(self@.targets, target@) == Some(tr@),
                Err(e) => spec_target_lookup(self@.targets, target@) is None && (e matches
                    RobeError::Internal(m) && m@ == "Target "@ + target@ + " not found."@),
            },
    {
        match self.get_target_registry(target) {
            None => Err(
                RobeError::message(
                    String::from_str("Target ").concat(target).concat(" not found."),
                ),
            ),
            Some(tr) => Ok(tr),
        }
    }
}

} // verus!
