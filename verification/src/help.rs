//! The help and version text.

use vstd::prelude::*;

verus! {

/// The help text shown for `-h`.
pub fn help_text() -> (r: &'static str)
    ensures
        r@ == help_view(),
{
    "robe \u{2014} switch between named dotfile configurations\n\nUsage:\n  robe add <target>/<profile> [-r <path>] [-f]\n  robe use <target>/<profile>\n  robe view <target>[/profile]\n  robe edit <target>[/profile]\n  robe list [target]\n  robe ls [target]\n  robe rm <target>/<profile>\n  robe rm <target>\n\nCommands:\n  add       save current config as a profile\n            -r, --register <path>  register file or directory to manage\n            -f, --force            overwrite existing profile or registration\n\n  use       activate a profile\n\n  view      print config contents\n            file \u{2192} prints contents\n            dir  \u{2192} lists entries\n\n  edit      open config in $EDITOR (defaults to vi)\n\n  list      list targets or profiles\n  ls        alias list  \n\n  rm        remove a stored profile or all profiles of a target\n\nOptions:\n  -h, --help       show help\n  -v, --version    show version\n"
}

/// The help text, as a specification-level value.
pub open spec fn help_view() -> Seq<char> {
    "robe \u{2014} switch between named dotfile configurations\n\nUsage:\n  robe add <target>/<profile> [-r <path>] [-f]\n  robe use <target>/<profile>\n  robe view <target>[/profile]\n  robe edit <target>[/profile]\n  robe list [target]\n  robe ls [target]\n  robe rm <target>/<profile>\n  robe rm <target>\n\nCommands:\n  add       save current config as a profile\n            -r, --register <path>  register file or directory to manage\n            -f, --force            overwrite existing profile or registration\n\n  use       activate a profile\n\n  view      print config contents\n            file \u{2192} prints contents\n            dir  \u{2192} lists entries\n\n  edit      open config in $EDITOR (defaults to vi)\n\n  list      list targets or profiles\n  ls        alias list  \n\n  rm        remove a stored profile or all profiles of a target\n\nOptions:\n  -h, --help       show help\n  -v, --version    show version\n"@
}

/// The version line shown for `-v`.
pub fn version_text() -> (r: &'static str)
    ensures
        r@ == "robe version 0.0.9"@,
{
    "robe version 0.0.9"
}

/// The help text followed by the storage root and the settings file in
/// use.
pub fn help_with_storage_and_config(storage_file: &str, config_file: &str) -> (r: String)
    ensures
        r@ == help_view() + "\nStorage:\n"@ + storage_file@ + "\n\nConfig:\n"@ + config_file@,
{
    String::from_str(help_text()).concat("\nStorage:\n").concat(storage_file).concat(
        "\n\nConfig:\n",
    ).concat(config_file)
}

} // verus!
