//! The program settings: where the storage root ("wardrobe") lives.

use vstd::prelude::*;

verus! {

/// The settings read from the configuration file: the storage root path.
#[derive(Debug, Clone)]
pub struct Settings {
    pub wardrobe: String,
}

/// Holds of a path that ends in the program's own directory name.
pub open spec fn ends_in_robe(s: Seq<char>) -> bool {
    s.len() >= 4 && s.subrange(s.len() - 4, s.len() as int) == "robe"@
}

/// Relies on `dirs::data_local_dir`: the platform's local data directory,
/// which depends on the environment, so nothing is promised of the result.
#[verifier::external_body]
fn data_local_dir_string() -> (r: Option<String>) {
    dirs::data_local_dir().map(|p| p.to_string_lossy().to_string())
}

/// The storage root used when no settings file names one: the platform's
/// local data directory plus the program's own folder.
pub fn default_data_location() -> (r: String)
    ensures
        ends_in_robe(r@),
{
    proof {
        reveal_strlit("/robe");
        reveal_strlit("robe");
        reveal_strlit("$HOME/.local/share/robe/wardrobe");
        reveal_strlit("wardrobe");
    }
    match data_local_dir_string() {
        Some(d) => {
            let r = d.concat("/robe");
            proof {
                assert(r@.subrange(r@.len() - 4, r@.len() as int) =~= "robe"@);
            }
            r
        },
        None => {
            let r = String::from_str("$HOME/.local/share/robe/wardrobe");
            proof {
                assert(r@.subrange(r@.len() - 4, r@.len() as int) =~= "robe"@);
            }
            r
        },
    }
}

impl Default for Settings {
    /// The settings used when the settings file is absent or malformed.
    fn default() -> (s: Self)
        ensures
            ends_in_robe(s.wardrobe@),
            s.wardrobe@.len() > 0,
    {
        Self { wardrobe: default_data_location() }
    }
}

} // verus!
