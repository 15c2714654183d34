//! The options every command receives: what the command line gave, completed
//! from the selected profile, and the notices shown before an API command runs.
use vstd::prelude::*;
use crate::config::{clone_opt, CertificateAuthoritiesV2, ProfileV2, SigningKeyPairsV2};
use crate::styled::{Style, StyledStr};
use crate::text::{chars_of, extend_str, string_of};

verus! {

/// Options that apply to every command.
pub struct GlobalOptions {
    pub api_key: Option<String>,
    pub base_url: Option<String>,
    pub ca_path: Option<String>,
    pub organization_name: Option<String>,
    pub profile: Option<String>,
    pub config_directory: Option<String>,
    pub api_version: Option<u8>,
    pub signing_key_pairs: Option<SigningKeyPairsV2>,
    pub certificate_authorities: Option<CertificateAuthoritiesV2>,
}

/// `given` where it is set, else `fallback`.
pub open spec fn or_else(given: Option<String>, fallback: Option<String>) -> Option<String> {
    if given is Some { given } else { fallback }
}

fn fill(given: &mut Option<String>, fallback: &Option<String>)
    ensures
        *final(given) == or_else(*old(given), *fallback),
{
    if given.is_none() {
        *given = clone_opt(fallback);
    }
}

impl GlobalOptions {
    /// Options with nothing set.
    pub fn empty() -> (o: Self)
        ensures
            o.api_key is None,
            o.base_url is None,
            o.ca_path is None,
            o.organization_name is None,
            o.profile is None,
            o.config_directory is None,
            o.api_version is None,
            o.signing_key_pairs is None,
            o.certificate_authorities is None,
    {
        GlobalOptions {
            api_key: None,
            base_url: None,
            ca_path: None,
            organization_name: None,
            profile: None,
            config_directory: None,
            api_version: None,
            signing_key_pairs: None,
            certificate_authorities: None,
        }
    }

    /// Completes the options from a profile: the API key, base URL, CA path and
    /// organization name the command line left unset are taken from it; what the
    /// command line set stays.
    pub fn apply_profile(&mut self, profile: &ProfileV2)
        ensures
            final(self).api_key == or_else(old(self).api_key, profile.api_key),
            final(self).base_url == or_else(old(self).base_url, profile.base_url),
            final(self).ca_path == or_else(old(self).ca_path, profile.ca_path),
            final(self).organization_name == or_else(old(self).organization_name, profile.organization_name),
            final(self).profile == old(self).profile,
            final(self).config_directory == old(self).config_directory,
            final(self).api_version == old(self).api_version,
            final(self).signing_key_pairs == old(self).signing_key_pairs,
            final(self).certificate_authorities == old(self).certificate_authorities,
    {
        fill(&mut self.api_key, &profile.api_key);
        fill(&mut self.base_url, &profile.base_url);
        fill(&mut self.ca_path, &profile.ca_path);
        fill(&mut self.organization_name, &profile.organization_name);
    }

    /// The required arguments an API command lacks: `--api-key` when no API key
    /// is known.
    pub fn missing_arguments(&self) -> (m: Vec<String>)
        ensures
            self.api_key is None ==> m@.len() == 1 && m@[0]@ == "--api-key"@,
            self.api_key is Some ==> m@.len() == 0,
    {
        let mut m: Vec<String> = Vec::new();
        if self.api_key.is_none() {
            m.push(String::from_str("--api-key"));
        }
        m
    }

    /// The warning shown when no API version was chosen, if none was.
    pub fn api_version_warning(&self) -> (w: Option<StyledStr>)
        ensures
            self.api_version is Some <==> w is None,
            w matches Some(s) ==> s@ == seq![
                (Some(Style::Warning), "warning: "@),
                (None::<Style>, "No API version specified. Using default version 2."@),
            ],
    {
        if self.api_version.is_none() {
            let mut warning = StyledStr::new();
            let a = String::from_str("warning: ");
            let b = String::from_str("No API version specified. Using default version 2.");
            proof {
                reveal_strlit("warning: ");
                reveal_strlit("No API version specified. Using default version 2.");
            }
            warning.push_str(Some(Style::Warning), a);
            warning.push_str(None, b);
            Some(warning)
        } else {
            None
        }
    }
}

/// The segments of the error listing missing arguments.
pub open spec fn missing_segments(names: Seq<Seq<char>>) -> Seq<(Option<Style>, Seq<char>)>
    decreases names.len(),
{
    if names.len() == 0 {
        seq![
            (Some(Style::Error), "error: "@),
            (None::<Style>, "The following arguments are required:\r\n"@),
        ]
    } else {
        missing_segments(names.drop_last()).push(
            (Some(Style::Success), "\t"@ + names.last() + "\r\n"@),
        )
    }
}

/// The whole error listing missing arguments.
pub open spec fn missing_message(names: Seq<Seq<char>>) -> Seq<(Option<Style>, Seq<char>)> {
    missing_segments(names) + seq![
        (None::<Style>, "\r\nThey must be supplied either:\r\n"@),
        (None::<Style>, "\t- via the CLI config file and referenced by profile\r\n"@),
        (None::<Style>, "\t- directly to the top level command (not to subcommands)"@),
    ]
}

/// The error shown for missing required arguments, or none when nothing is
/// missing.
pub fn missing_arguments_message(missing: &Vec<String>) -> (m: Option<StyledStr>)
    ensures
        missing@.len() == 0 <==> m is None,
        m matches Some(s) ==> s@ == missing_message(crate::text::views(missing@)),
{
    if missing.len() == 0 {
        return None;
    }
    let mut error = StyledStr::new();
    proof {
        reveal_strlit("error: ");
        reveal_strlit("The following arguments are required:\r\n");
        reveal_strlit("\t");
        reveal_strlit("\r\n");
        reveal_strlit("\r\nThey must be supplied either:\r\n");
        reveal_strlit("\t- via the CLI config file and referenced by profile\r\n");
        reveal_strlit("\t- directly to the top level command (not to subcommands)");
    }
    error.push_str(Some(Style::Error), String::from_str("error: "));
    error.push_str(None, String::from_str("The following arguments are required:\r\n"));
    let mut i: usize = 0;
    while i < missing.len()
        invariant
            i <= missing.len(),
            error@ == missing_segments(crate::text::views(missing@).take(i as int)),
        decreases missing.len() - i,
    {
        let mut line = chars_of("\t");
        extend_str(&mut line, missing[i].as_str());
        extend_str(&mut line, "\r\n");
        let text = string_of(line.as_slice());
        proof {
            reveal_strlit("\t");
            let t = crate::text::views(missing@).take(i as int + 1);
            assert(t.drop_last() =~= crate::text::views(missing@).take(i as int));
            assert(text@ =~= "\t"@ + t.last() + "\r\n"@);
            assert(text@.len() > 0);
        }
        error.push_str(Some(Style::Success), text);
        i = i + 1;
    }
    assert(crate::text::views(missing@).take(missing.len() as int) =~= crate::text::views(missing@));
    error.push_str(None, String::from_str("\r\nThey must be supplied either:\r\n"));
    error.push_str(None, String::from_str("\t- via the CLI config file and referenced by profile\r\n"));
    error.push_str(None, String::from_str("\t- directly to the top level command (not to subcommands)"));
    assert(error@ =~= missing_message(crate::text::views(missing@)));
    Some(error)
}

/// The configuration directory a command uses: the one given, where it
/// exists, else none; without one given, the platform's configuration directory
/// for the client, where the platform has one.
pub fn config_directory_choice(
    given: &Option<String>,
    given_exists: bool,
    platform_dir: &Option<String>,
) -> (r: Option<String>)
    ensures
        match given {
            Some(g) => if given_exists { r == Some(*g) } else { r is None },
            None => r == *platform_dir,
        },
{
    match given {
        Some(g) => if given_exists {
            Some(g.clone())
        } else {
            None
        },
        None => clone_opt(platform_dir),
    }
}

/// The error for a path given on the command line that does not exist.
pub fn path_missing_message(path: &str) -> (m: StyledStr)
    ensures
        m@ == seq![
            (Some(Style::Error), "error: "@),
            (None::<Style>, "Path does not exist:\r\n"@),
            (Some(Style::Warning), "\t"@ + path@),
        ],
{
    let mut m = StyledStr::new();
    let mut v = chars_of("\t");
    extend_str(&mut v, path);
    let shown = string_of(v.as_slice());
    proof {
        reveal_strlit("error: ");
        reveal_strlit("Path does not exist:\r\n");
        reveal_strlit("\t");
    }
    m.push_str(Some(Style::Error), String::from_str("error: "));
    m.push_str(None, String::from_str("Path does not exist:\r\n"));
    m.push_str(Some(Style::Warning), shown);
    m
}

} // verus!
