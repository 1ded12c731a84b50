//! The status report: which profile each target last activated, and
//! whether the real content has drifted from that snapshot.

use vstd::prelude::*;

use crate::domain::join_views;
use crate::fstree::FsTree;
use crate::hashing::trees_match;
use crate::registry::{Registry, TargetRegistry, TargetRegistryShot};
use crate::strutil::{dup_opt_string, sort_views, string_views};

verus! {

broadcast use vstd::std_specs::vec::group_vec_axioms, vstd::seq::group_seq_axioms;

/// One target's status: its name, the profile it last activated, and
/// whether its real content differs from that snapshot.
pub struct TargetStatus {
    pub name: String,
    pub last_activated_profile: Option<String>,
    pub modified: bool,
}

/// A run of `n` blanks.
pub open spec fn spaces(n: nat) -> Seq<char>
    decreases n,
{
    if n == 0 {
        Seq::empty()
    } else {
        spaces((n - 1) as nat) + " "@
    }
}

/// One status line: the padded name, an arrow, the last activated profile
/// (or a placeholder), and a marker when the content was modified.
pub open spec fn status_line(
    name: Seq<char>,
    last: Option<Seq<char>>,
    modified: bool,
    max_len: int,
) -> Seq<char> {
    let padded = if max_len > name.len() {
        name + spaces((max_len - name.len()) as nat)
    } else {
        name
    };
    let with_lap = padded + " \u{2192} "@ + (match last {
        Some(l) => l,
        None => "(none)"@,
    });
    if modified {
        with_lap + " * modified"@
    } else {
        with_lap
    }
}

impl TargetStatus {
    /// Renders the status line, padding the name to `max_len` characters.
    pub fn format(&self, max_len: usize) -> (r: String)
        ensures
            r@ == status_line(
                self.name@,
                match self.last_activated_profile {
                    Some(l) => Some(l@),
                    None => None,
                },
                self.modified,
                max_len as int,
            ),
    {
        let mut out = self.name.clone();
        let name_len = self.name.as_str().unicode_len();
        proof {
            assert(self.name@ + spaces(0) =~= self.name@);
        }
        if max_len > name_len {
            let mut k: usize = 0;
            while k < max_len - name_len
                invariant
                    name_len == self.name@.len(),
                    max_len > name_len,
                    k <= max_len - name_len,
                    out@ == self.name@ + spaces(k as nat),
                decreases max_len - name_len - k,
            {
                out.append(" ");
                k += 1;
            }
        }
        out.append(" \u{2192} ");
        match &self.last_activated_profile {
            Some(lap) => out.append(lap.as_str()),
            None => out.append("(none)"),
        }
        if self.modified {
            out.append(" * modified");
        }
        out
    }
}

/// Whether the target counts as modified, given the trees that were read
/// for it: only a target with a last activated profile whose snapshot no
/// longer matches the real content.
pub open spec fn spec_modified(t: TargetRegistryShot, trees: Option<(FsTree, FsTree)>) -> bool {
    t.last is Some && match trees {
        Some(p) => !trees_match(p.0@, p.1@),
        None => false,
    }
}

/// Renders one target's status.  `trees` holds the real content and the
/// stored snapshot of the last activated profile, where there is one.
pub fn target_status(t_reg: &TargetRegistry, trees: &Option<(FsTree, FsTree)>, max_size: usize)
    -> (r: String)
    ensures
        r@ == status_line(
            t_reg@.name,
            t_reg@.last,
            spec_modified(t_reg@, *trees),
            max_size as int,
        ),
{
    let equal = match (&t_reg.last_activated_profile, trees) {
        (Some(_), Some(p)) => crate::hashing::are_paths_equal(&p.0, &p.1),
        _ => true,
    };
    let t_status = TargetStatus {
        name: t_reg.name.clone(),
        last_activated_profile: dup_opt_string(&t_reg.last_activated_profile),
        modified: !equal,
    };
    t_status.format(max_size)
}

/// The length of the longest target name.
pub open spec fn max_name_len(ts: Seq<TargetRegistryShot>) -> int
    decreases ts.len(),
{
    if ts.len() == 0 {
        0
    } else {
        let rest = max_name_len(ts.drop_last());
        if ts.last().name.len() > rest {
            ts.last().name.len() as int
        } else {
            rest
        }
    }
}

/// The status lines of every target, in registry order.
pub open spec fn status_lines(
    ts: Seq<TargetRegistryShot>,
    trees: Seq<Option<(FsTree, FsTree)>>,
    max_len: int,
) -> Seq<Seq<char>> {
    Seq::new(ts.len(), |i: int| status_line(ts[i].name, ts[i].last, spec_modified(ts[i], trees[i]), max_len))
}

/// Renders the status of every registered target: one line each, aligned
/// on the longest name, sorted, and joined with line breaks.  `trees[i]`
/// holds the real content and last activated snapshot of target `i`.
pub fn full_status(registry: &Registry, trees: &Vec<Option<(FsTree, FsTree)>>) -> (r: String)
    requires
        trees@.len() == registry@.targets.len(),
    ensures
        r@ == join_views(
            sort_views(status_lines(registry@.targets, trees@, max_name_len(registry@.targets))),
            "\n"@,
        ),
{
    let ghost ts = registry@.targets;
    let mut max_size: usize = 0;
    let mut i: usize = 0;
    while i < registry.targets.len()
        invariant
            ts == registry@.targets,
            i <= registry.targets@.len(),
            max_size as int == max_name_len(ts.subrange(0, i as int)),
        decreases registry.targets@.len() - i,
    {
        proof {
            let pre = ts.subrange(0, i as int + 1);
            assert(pre.drop_last() =~= ts.subrange(0, i as int));
            assert(pre.last() == ts[i as int]);
            assert(ts[i as int] == registry.targets@[i as int]@);
        }
        let l = registry.targets[i].name.as_str().unicode_len();
        if l > max_size {
            max_size = l;
        }
        i += 1;
    }
    proof {
        assert(ts.subrange(0, 0) =~= Seq::<TargetRegistryShot>::empty());
        assert(ts.subrange(0, ts.len() as int) =~= ts);
    }
    let ghost lines_spec = status_lines(ts, trees@, max_size as int);
    let mut formatted: Vec<String> = Vec::new();
    let mut i: usize = 0;
    while i < registry.targets.len()
        invariant
            ts == registry@.targets,
            lines_spec == status_lines(ts, trees@, max_size as int),
            trees@.len() == ts.len(),
            i <= registry.targets@.len(),
            formatted@.len() == i,
            forall|k: int| 0 <= k < i ==> formatted@[k]@ == #[trigger] lines_spec[k],
        decreases registry.targets@.len() - i,
    {
        proof {
            assert(ts[i as int] == registry.targets@[i as int]@);
        }
        let line = target_status(&registry.targets[i], &trees[i], max_size);
        formatted.push(line);
        i += 1;
    }
    let sorted = crate::strutil::sort_strings(&formatted);
    proof {
        assert(string_views(formatted@) =~= lines_spec);
    }
    let r = crate::domain::join_args(sorted.as_slice(), "\n");
    proof {
        assert(crate::domain::arg_views(sorted@) =~= string_views(sorted@));
    }
    r
}

} // verus!
