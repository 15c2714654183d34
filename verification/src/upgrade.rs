//! Upgrading the command line client from its published releases: which
//! release to ask for, which of its assets fits this machine, and what to say.
use vstd::prelude::*;
use crate::text::{chars_of, extend_str, str_eq, string_of};

verus! {

/// The address of the release to upgrade to: the one tagged `version`, or the
/// latest.
pub fn release_url(version: &Option<String>) -> (url: String)
    ensures
        match version {
            Some(v) => url@ == "https://api.github.com/repos/peridio/peridio-cli/releases/tags/"@ + v@,
            None => url@ == "https://api.github.com/repos/peridio/peridio-cli/releases/latest"@,
        },
{
    match version {
        Some(v) => {
            let mut s = chars_of("https://api.github.com/repos/peridio/peridio-cli/releases/tags/");
            extend_str(&mut s, v.as_str());
            string_of(s.as_slice())
        },
        None => String::from_str("https://api.github.com/repos/peridio/peridio-cli/releases/latest"),
    }
}

/// The name of the archive a release publishes for a target.
pub fn asset_name(tag: &str, target: &str) -> (name: String)
    ensures
        name@ == "peridio-"@ + tag@ + "_"@ + target@ + ".tar.gz"@,
{
    let mut s = chars_of("peridio-");
    extend_str(&mut s, tag);
    extend_str(&mut s, "_");
    extend_str(&mut s, target);
    extend_str(&mut s, ".tar.gz");
    string_of(s.as_slice())
}

/// What an upgrade does.
#[derive(Debug)]
pub enum UpgradeAction {
    /// The running version is the release's: nothing to do.
    UpToDate,
    /// The release has no archive for this target; the message says so.
    MissingBinary(String),
    /// Download the archive at this address.
    Download(String),
}

/// The position of the first asset with the given name, if any.
pub open spec fn first_named(assets: Seq<(String, String)>, name: Seq<char>) -> Option<int>
    decreases assets.len(),
{
    if assets.len() == 0 {
        None
    } else if assets[0].0@ == name {
        Some(0)
    } else {
        match first_named(assets.drop_first(), name) {
            Some(i) => Some(i + 1),
            None => None,
        }
    }
}

/// Decides an upgrade, given the release's tag, the running version, this
/// machine's target and the release's assets (name and download address): up
/// to date when the tag is the running version, else the first asset named for
/// this target is downloaded, and without one the upgrade stops with a message.
pub fn decide_upgrade(
    tag: &str,
    current_version: &str,
    target: &str,
    assets: &Vec<(String, String)>,
) -> (a: UpgradeAction)
    ensures
        tag@ == current_version@ ==> a is UpToDate,
        tag@ != current_version@ ==> match first_named(assets@, "peridio-"@ + tag@ + "_"@ + target@ + ".tar.gz"@) {
            Some(i) => a matches UpgradeAction::Download(u) && u == assets@[i].1,
            None => a matches UpgradeAction::MissingBinary(m) && m@ == "version "@ + tag@
                + " does not include a pre-built binary for target "@ + target@,
        },
{
    if str_eq(tag, current_version) {
        return UpgradeAction::UpToDate;
    }
    let name = asset_name(tag, target);
    let mut i: usize = 0;
    while i < assets.len()
        invariant
            i <= assets.len(),
            tag@ != current_version@,
            name@ == "peridio-"@ + tag@ + "_"@ + target@ + ".tar.gz"@,
            forall|k: int| 0 <= k < i ==> assets@[k].0@ != name@,
        decreases assets.len() - i,
    {
        if str_eq(assets[i].0.as_str(), name.as_str()) {
            proof {
                lemma_first_found(assets@, name@, i as int);
            }
            return UpgradeAction::Download(assets[i].1.clone());
        }
        i = i + 1;
    }
    proof {
        lemma_first_none(assets@, name@);
    }
    let mut m = chars_of("version ");
    extend_str(&mut m, tag);
    extend_str(&mut m, " does not include a pre-built binary for target ");
    extend_str(&mut m, target);
    UpgradeAction::MissingBinary(string_of(m.as_slice()))
}

proof fn lemma_first_found(assets: Seq<(String, String)>, name: Seq<char>, i: int)
    requires
        0 <= i < assets.len(),
        assets[i].0@ == name,
        forall|k: int| 0 <= k < i ==> assets[k].0@ != name,
    ensures
        first_named(assets, name) == Some(i),
    decreases i,
{
    if i > 0 {
        lemma_first_found(assets.drop_first(), name, i - 1);
    }
}

proof fn lemma_first_none(assets: Seq<(String, String)>, name: Seq<char>)
    requires
        forall|k: int| 0 <= k < assets.len() ==> assets[k].0@ != name,
    ensures
        first_named(assets, name) is None,
    decreases assets.len(),
{
    if assets.len() > 0 {
        lemma_first_none(assets.drop_first(), name);
    }
}

/// The message after a successful upgrade.
pub fn upgraded_message(tag: &str) -> (m: String)
    ensures
        m@ == "CLI upgraded successfully ("@ + tag@ + ")"@,
{
    let mut s = chars_of("CLI upgraded successfully (");
    extend_str(&mut s, tag);
    extend_str(&mut s, ")");
    string_of(s.as_slice())
}

/// The message when the new executable cannot replace the running one:
/// permission denied, or an unknown error, writing to `path`.
pub fn replace_failed_message(permission_denied: bool, path: &str) -> (m: String)
    ensures
        permission_denied ==> m@ == "CLI failed to upgrade: permission denied writing to "@ + path@,
        !permission_denied ==> m@ == "CLI failed to upgrade: unknown error writing to "@ + path@,
{
    let mut s = if permission_denied {
        chars_of("CLI failed to upgrade: permission denied writing to ")
    } else {
        chars_of("CLI failed to upgrade: unknown error writing to ")
    };
    extend_str(&mut s, path);
    string_of(s.as_slice())
}

} // verus!
