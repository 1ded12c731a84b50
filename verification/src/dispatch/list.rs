//! Listing the registered targets, or the profiles of one target.

use vstd::prelude::*;

use crate::domain::List;
use crate::errors::RobeError;
use crate::registry::{spec_target_lookup, Registry};
use crate::strutil::string_views;

verus! {

/// One `  - name` item per entry, in order.
pub open spec fn dashed_items(names: Seq<Seq<char>>) -> Seq<char>
    decreases names.len(),
{
    if names.len() == 0 {
        Seq::empty()
    } else {
        dashed_items(names.drop_last()) + "  - "@ + names.last()
    }
}

/// Renders the list of target names.
pub fn format_targets(targets: &Vec<String>) -> (r: String)
    ensures
        r@ == "Registered targets:\n"@ + dashed_items(string_views(targets@)),
{
    let ghost views = string_views(targets@);
    let mut out = String::from_str("Registered targets:\n");
    let mut i: usize = 0;
    while i < targets.len()
        invariant
            views == string_views(targets@),
            i <= targets@.len(),
            out@ == "Registered targets:\n"@ + dashed_items(views.subrange(0, i as int)),
        decreases targets@.len() - i,
    {
        proof {
            let pre = views.subrange(0, i as int + 1);
            assert(pre.drop_last() =~= views.subrange(0, i as int));
            assert(pre.last() == views[i as int]);
            assert(views[i as int] == targets@[i as int]@);
        }
        out.append("  - ");
        out.append(targets[i].as_str());
        i += 1;
    }
    proof {
        assert(views.subrange(0, 0) =~= Seq::<Seq<char>>::empty());
        assert(views.subrange(0, views.len() as int) =~= views);
    }
    out
}

/// Renders the list of one target's profile names.
pub fn format_profiles(target: &str, profiles: &Vec<String>) -> (r: String)
    ensures
        r@ == "Robes for "@ + target@ + ":\n"@ + dashed_items(string_views(profiles@)),
{
    let ghost views = string_views(profiles@);
    let ghost head = "Robes for "@ + target@ + ":\n"@;
    let mut out = String::from_str("Robes for ").concat(target).concat(":\n");
    let mut i: usize = 0;
    while i < profiles.len()
        invariant
            views == string_views(profiles@),
            head == "Robes for "@ + target@ + ":\n"@,
            i <= profiles@.len(),
            out@ == head + dashed_items(views.subrange(0, i as int)),
        decreases profiles@.len() - i,
    {
        proof {
            let pre = views.subrange(0, i as int + 1);
            assert(pre.drop_last() =~= views.subrange(0, i as int));
            assert(pre.last() == views[i as int]);
            assert(views[i as int] == profiles@[i as int]@);
        }
        out.append("  - ");
        out.append(profiles[i].as_str());
        i += 1;
    }
    proof {
        assert(views.subrange(0, 0) =~= Seq::<Seq<char>>::empty());
        assert(views.subrange(0, views.len() as int) =~= views);
    }
    out
}

/// Renders what `list` prints: the profiles of the named target, or every
/// registered target's name.  An unknown target is reported as not found.
pub fn list(cmd: &List, registry: &Registry) -> (r: Result<String, RobeError>)
    ensures
        match cmd.target {
            Some(t) => match spec_target_lookup(registry@.targets, t@) {
                Some(tr) => r matches Ok(s) && s@ == "Robes for "@ + t@ + ":\n"@ + dashed_items(
                    tr.profiles,
                ),
                None => r matches Err(RobeError::Internal(m)) && m@ == "Target "@ + t@
                    + " not found."@,
            },
            None => r matches Ok(s) && s@ == "Registered targets:\n"@ + dashed_items(
                registry@.targets.map_values(|tr: crate::registry::TargetRegistryShot| tr.name),
            ),
        },
{
    match &cmd.target {
        Some(t) => {
            let tr = match registry.target_registry(t.as_str()) {
                Ok(tr) => tr,
                Err(e) => {
                    return Err(e);
                },
            };
            Ok(format_profiles(t.as_str(), &tr.profiles))
        },
        None => {
            let mut names: Vec<String> = Vec::new();
            let mut i: usize = 0;
            while i < registry.targets.len()
                invariant
                    i <= registry.targets@.len(),
                    names@.len() == i,
                    forall|k: int|
                        0 <= k < i ==> names@[k]@ == #[trigger] registry@.targets[k].name,
                decreases registry.targets@.len() - i,
            {
                proof {
                    assert(registry@.targets[i as int] == registry.targets@[i as int]@);
                }
                names.push(registry.targets[i].name.clone());
                i += 1;
            }
            let out = format_targets(&names);
            proof {
                assert(string_views(names@) =~= registry@.targets.map_values(
                    |tr: crate::registry::TargetRegistryShot| tr.name,
                ));
            }
            Ok(out)
        },
    }
}

} // verus!
