//! Locating the settings file.

use vstd::prelude::*;

verus! {

/// Holds of a path that ends in the settings file's own tail.
pub open spec fn ends_in_config(s: Seq<char>) -> bool {
    s.len() >= "robe/config.toml"@.len() && s.subrange(
        s.len() - "robe/config.toml"@.len(),
        s.len() as int,
    ) == "robe/config.toml"@
}

/// Relies on `dirs::config_local_dir`: the platform's local configuration
/// directory, which depends on the environment, so nothing is promised of
/// the result.
#[verifier::external_body]
fn config_local_dir_string() -> (r: Option<String>) {
    dirs::config_local_dir().map(|p| p.to_string_lossy().to_string())
}

/// Where the settings file lives: the platform's configuration directory
/// plus the program's folder and file name.
pub fn settings_file_path() -> (r: String)
    ensures
        ends_in_config(r@),
{
    proof {
        reveal_strlit("/robe/config.toml");
        reveal_strlit("robe/config.toml");
        reveal_strlit("$HOME/.config/robe/config.toml");
    }
    match config_local_dir_string() {
        Some(d) => {
            let r = d.concat("/robe/config.toml");
            proof {
                assert(r@.subrange(r@.len() - 16, r@.len() as int) =~= "robe/config.toml"@);
            }
            r
        },
        None => {
            let r = String::from_str("$HOME/.config/robe/config.toml");
            proof {
                assert(r@.subrange(r@.len() - 16, r@.len() as int) =~= "robe/config.toml"@);
            }
            r
        },
    }
}

} // verus!
