//! Managing profiles in the configuration: creating, initialising, showing and
//! updating them, storing their API keys among the credentials, and upgrading a
//! first-format configuration file.
use vstd::prelude::*;
use crate::config::{
    clone_opt, Credential, ConfigV1, ConfigV2, ProfileV2, DEFAULT_API_VERSION, fresh_config, profile_from_v1,
    with_credential,
};
use crate::strmap::StrMap;
use crate::styled::{Style, StyledStr};
use crate::text::{chars_of, decimal, decimal_chars, extend_chars, extend_str, string_of, trim, trim_str};

verus! {

/// The profile a new profile starts as: every setting left to its default,
/// with the default API version.
pub open spec fn fresh_profile(p: ProfileV2) -> bool {
    &&& p.api_key is None
    &&& p.base_url is None
    &&& p.ca_path is None
    &&& p.organization_name is None
    &&& p.api_version == Some(DEFAULT_API_VERSION)
}

/// A profile with every setting left to its default, with the default API
/// version.
pub fn new_profile() -> (p: ProfileV2)
    ensures
        fresh_profile(p),
{
    ProfileV2 { api_key: None, base_url: None, ca_path: None, organization_name: None, api_version: Some(DEFAULT_API_VERSION) }
}

/// Stores an API key for a profile among the credentials, replacing any key
/// stored for it.
pub fn store_api_key(credentials: &mut StrMap<Credential>, profile_name: String, api_key: String)
    ensures
        final(credentials)@ == old(credentials)@.insert(profile_name@, Credential { api_key: Some(api_key) }),
{
    credentials.insert(profile_name, Credential { api_key: Some(api_key) });
}

/// The text with every space preceded by a backslash.
pub open spec fn escape_spaces_spec(s: Seq<char>) -> Seq<char>
    decreases s.len(),
{
    if s.len() == 0 {
        Seq::empty()
    } else if s.last() == ' ' {
        escape_spaces_spec(s.drop_last()).push('\\').push(' ')
    } else {
        escape_spaces_spec(s.drop_last()).push(s.last())
    }
}

/// The text with every space preceded by a backslash, as a shell would need it.
pub fn escape_spaces(s: &str) -> (out: String)
    ensures
        out@ == escape_spaces_spec(s@),
{
    let cs = chars_of(s);
    let mut v: Vec<char> = Vec::new();
    let mut i: usize = 0;
    while i < cs.len()
        invariant
            cs@ == s@,
            i <= cs.len(),
            v@ == escape_spaces_spec(s@.take(i as int)),
        decreases cs.len() - i,
    {
        assert(s@.take(i as int + 1).drop_last() =~= s@.take(i as int));
        if cs[i] == ' ' {
            v.push('\\');
            v.push(' ');
        } else {
            v.push(cs[i]);
        }
        i = i + 1;
    }
    assert(s@.take(cs.len() as int) =~= s@);
    string_of(v.as_slice())
}

/// A one-segment success message.
pub open spec fn success_segments(text: Seq<char>) -> Seq<(Option<Style>, Seq<char>)> {
    seq![(Some(Style::Success), "success: "@), (None::<Style>, text)]
}

/// A one-segment message with the given heading and style.
pub open spec fn headed(style: Style, head: Seq<char>, text: Seq<char>) -> Seq<(Option<Style>, Seq<char>)> {
    seq![(Some(style), head), (None::<Style>, text)]
}

fn headed_message(style: Style, head: &str, text: String) -> (m: StyledStr)
    requires
        head@.len() > 0,
        text@.len() > 0,
    ensures
        m@ == headed(style, head@, text@),
{
    let mut m = StyledStr::new();
    m.push_str(Some(style), String::from_str(head));
    m.push_str(None, text);
    assert(m@ =~= headed(style, head@, text@));
    m
}

/// The text announcing a profile made by `profiles create`.
pub open spec fn created_text(name: Seq<char>, dir: Seq<char>) -> Seq<char> {
    "Profile '"@ + name + "' configured successfully at "@ + escape_spaces_spec(dir)
        + ".\nUse with: peridio -p "@ + name + " [command]"@
}

/// Creates a profile: its name is the given name without surrounding white
/// space, it starts with default settings, and its API key goes to the
/// credentials. Gives the success message naming the configuration directory.
pub fn create_profile(
    config: &mut ConfigV2,
    credentials: &mut StrMap<Credential>,
    name: &str,
    api_key: String,
    config_dir: &str,
) -> (m: StyledStr)
    ensures
        final(config).version == old(config).version,
        final(config).signing_key_pairs == old(config).signing_key_pairs,
        final(config).certificate_authorities == old(config).certificate_authorities,
        final(config).profiles.0@.dom() == old(config).profiles.0@.dom().insert(trim(name@)),
        fresh_profile(final(config).profiles.0@[trim(name@)]),
        forall|k: Seq<char>| k != trim(name@) && #[trigger] old(config).profiles.0@.contains_key(k)
            ==> final(config).profiles.0@[k] == old(config).profiles.0@[k],
        final(credentials)@ == old(credentials)@.insert(trim(name@), Credential { api_key: Some(api_key) }),
        m@ == success_segments(created_text(trim(name@), config_dir@)),
{
    let profile_name = trim_str(name);
    config.profiles.0.insert(profile_name.clone(), new_profile());
    store_api_key(credentials, profile_name.clone(), api_key);
    let mut v = chars_of("Profile '");
    extend_str(&mut v, profile_name.as_str());
    extend_str(&mut v, "' configured successfully at ");
    let escaped = escape_spaces(config_dir);
    extend_str(&mut v, escaped.as_str());
    extend_str(&mut v, ".\nUse with: peridio -p ");
    extend_str(&mut v, profile_name.as_str());
    extend_str(&mut v, " [command]");
    let text = string_of(v.as_slice());
    proof {
        reveal_strlit("success: ");
        reveal_strlit(" [command]");
    }
    headed_message(Style::Success, "success: ", text)
}

/// The profile name `config init` uses for what was typed: the input without
/// surrounding white space, or `default` when that is empty.
pub open spec fn init_name_spec(input: Seq<char>) -> Seq<char> {
    if trim(input).len() == 0 { "default"@ } else { trim(input) }
}

/// The profile name `config init` uses for what was typed.
pub fn init_profile_name(input: &str) -> (name: String)
    ensures
        name@ == init_name_spec(input@),
{
    let t = trim_str(input);
    if t.unicode_len() == 0 {
        String::from_str("default")
    } else {
        t
    }
}

/// The text announcing a profile made by `config init`.
pub open spec fn initialised_text(name: Seq<char>) -> Seq<char> {
    "Profile '"@ + name + "' configured successfully.\nUse with: peridio -p "@ + name + " [command]"@
}

/// Initialises a profile from what was typed: its name (see `init_profile_name`),
/// the organization name and the API key, both without surrounding white space.
/// The profile keeps the other settings at their defaults; the key goes to the
/// credentials. Gives the success message.
pub fn init_profile(
    config: &mut ConfigV2,
    credentials: &mut StrMap<Credential>,
    name_input: &str,
    organization_input: &str,
    api_key_input: &str,
) -> (m: StyledStr)
    ensures
        final(config).version == old(config).version,
        final(config).profiles.0@ == old(config).profiles.0@.insert(
            init_name_spec(name_input@),
            final(config).profiles.0@[init_name_spec(name_input@)],
        ),
        final(config).profiles.0@[init_name_spec(name_input@)].api_key is None,
        final(config).profiles.0@[init_name_spec(name_input@)].base_url is None,
        final(config).profiles.0@[init_name_spec(name_input@)].ca_path is None,
        final(config).profiles.0@[init_name_spec(name_input@)].api_version is None,
        final(config).profiles.0@[init_name_spec(name_input@)].organization_name matches Some(o) && o@ == trim(
            organization_input@,
        ),
        final(credentials)@.dom() == old(credentials)@.dom().insert(init_name_spec(name_input@)),
        final(credentials)@[init_name_spec(name_input@)].api_key matches Some(k) && k@ == trim(api_key_input@),
        forall|k: Seq<char>| k != init_name_spec(name_input@) && #[trigger] old(credentials)@.contains_key(k)
            ==> final(credentials)@[k] == old(credentials)@[k],
        m@ == success_segments(initialised_text(init_name_spec(name_input@))),
{
    let name = init_profile_name(name_input);
    let organization = trim_str(organization_input);
    let key = trim_str(api_key_input);
    let profile = ProfileV2 {
        api_key: None,
        base_url: None,
        ca_path: None,
        organization_name: Some(organization),
        api_version: None,
    };
    config.profiles.0.insert(name.clone(), profile);
    store_api_key(credentials, name.clone(), key);
    let mut v = chars_of("Profile '");
    extend_str(&mut v, name.as_str());
    extend_str(&mut v, "' configured successfully.\nUse with: peridio -p ");
    extend_str(&mut v, name.as_str());
    extend_str(&mut v, " [command]");
    let text = string_of(v.as_slice());
    proof {
        reveal_strlit("success: ");
        reveal_strlit(" [command]");
    }
    headed_message(Style::Success, "success: ", text)
}

/// What `config upgrade` does with the configuration file.
pub enum UpgradeOutcome {
    /// The file was in the first format; this is it in the current format.
    Migrated(ConfigV2),
    /// The file is already in the current format.
    UpToDate,
    /// The file is in neither format.
    Unupgradable,
}

/// Decides the upgrade of a configuration file, given the file read in the
/// first format (where it is one) and whether it reads in the current format.
pub fn upgrade_config(v1: Option<&ConfigV1>, is_v2: bool) -> (r: UpgradeOutcome)
    ensures
        match v1 {
            Some(c) => r matches UpgradeOutcome::Migrated(m) && fresh_config(m) && m.profiles.0@
                == c.0.0@.map_values(|p| profile_from_v1(p)),
            None => if is_v2 { r is UpToDate } else { r is Unupgradable },
        },
{
    match v1 {
        Some(c) => match ConfigV2::try_from(c) {
            Ok(m) => UpgradeOutcome::Migrated(m),
            Err(_) => UpgradeOutcome::Unupgradable,
        },
        None => if is_v2 {
            UpgradeOutcome::UpToDate
        } else {
            UpgradeOutcome::Unupgradable
        },
    }
}

/// The message after a migration.
pub fn migrated_message() -> (m: StyledStr)
    ensures
        m@ == success_segments("The config file has been migrated to v2."@),
{
    proof {
        reveal_strlit("success: ");
        reveal_strlit("The config file has been migrated to v2.");
    }
    headed_message(Style::Success, "success: ", String::from_str("The config file has been migrated to v2."))
}

/// The profile `profiles show` shows: the one named on its command line, else
/// the current one.
pub fn profile_to_show(argument: &Option<String>, current: &Option<String>) -> (r: Result<String, StyledStr>)
    ensures
        match argument {
            Some(a) => r matches Ok(n) && n@ == a@,
            None => match current {
                Some(c) => r matches Ok(n) && n@ == c@,
                None => r matches Err(m) && m@ == headed(
                    Style::Error,
                    "error: "@,
                    "No profile specified and no current profile set. Use -p <profile> or provide a profile name."@,
                ),
            },
        },
{
    match argument {
        Some(a) => Ok(a.clone()),
        None => match current {
            Some(c) => Ok(c.clone()),
            None => {
                proof {
                    reveal_strlit("error: ");
                    reveal_strlit(
                        "No profile specified and no current profile set. Use -p <profile> or provide a profile name.",
                    );
                }
                Err(headed_message(
                    Style::Error,
                    "error: ",
                    String::from_str(
                        "No profile specified and no current profile set. Use -p <profile> or provide a profile name.",
                    ),
                ))
            },
        },
    }
}

/// `value` where set, else `default`.
pub open spec fn or_default(value: Option<Seq<char>>) -> Seq<char> {
    match value {
        Some(v) => v,
        None => "default"@,
    }
}

/// The lines `profiles show` prints for a profile.
pub open spec fn show_text(name: Seq<char>, p: ProfileV2, has_api_key: bool) -> Seq<Seq<char>> {
    seq![
        "Profile: "@ + name,
        "  API Key: "@ + (if has_api_key { "set"@ } else { "not set"@ }),
        "  Base URL: "@ + or_default(crate::paths::opt_view(p.base_url)),
        "  CA Path: "@ + or_default(crate::paths::opt_view(p.ca_path)),
        "  API Version: "@ + or_default(match p.api_version { Some(v) => Some(decimal(v as nat)), None => None }),
    ]
}

fn labelled(label: &str, value: &Option<String>) -> (s: String)
    ensures
        s@ == label@ + or_default(crate::paths::opt_view(*value)),
{
    let mut v = chars_of(label);
    match value {
        Some(x) => extend_str(&mut v, x.as_str()),
        None => extend_str(&mut v, "default"),
    }
    string_of(v.as_slice())
}

/// The lines `profiles show` prints: the profile's name, whether an API key is
/// stored for it, and its base URL, CA path and API version, each or `default`.
pub fn show_profile(name: &str, profile: &ProfileV2, has_api_key: bool) -> (lines: Vec<String>)
    ensures
        crate::text::views(lines@) == show_text(name@, *profile, has_api_key),
{
    let mut lines: Vec<String> = Vec::new();
    let mut v = chars_of("Profile: ");
    extend_str(&mut v, name);
    lines.push(string_of(v.as_slice()));
    let mut k = chars_of("  API Key: ");
    if has_api_key {
        extend_str(&mut k, "set");
    } else {
        extend_str(&mut k, "not set");
    }
    lines.push(string_of(k.as_slice()));
    lines.push(labelled("  Base URL: ", &profile.base_url));
    lines.push(labelled("  CA Path: ", &profile.ca_path));
    let mut a = chars_of("  API Version: ");
    match profile.api_version {
        Some(n) => {
            let d = decimal_chars(n as usize);
            extend_chars(&mut a, d.as_slice());
        },
        None => extend_str(&mut a, "default"),
    }
    lines.push(string_of(a.as_slice()));
    assert(crate::text::views(lines@) =~= show_text(name@, *profile, has_api_key));
    lines
}

/// The message for a profile the configuration lacks.
pub open spec fn not_found_text(name: Seq<char>) -> Seq<char> {
    "Profile '"@ + name + "' not found."@
}

/// The message for a command that needs a profile the configuration lacks.
pub fn profile_not_found(name: &str) -> (m: StyledStr)
    ensures
        m@ == headed(Style::Error, "error: "@, not_found_text(name@)),
{
    let mut v = chars_of("Profile '");
    extend_str(&mut v, name);
    extend_str(&mut v, "' not found.");
    proof {
        reveal_strlit("error: ");
        reveal_strlit("' not found.");
    }
    headed_message(Style::Error, "error: ", string_of(v.as_slice()))
}

/// Updates a profile: the profile's name and the new settings, each optional,
/// and whether prompting is off.
pub struct UpdateCommand {
    pub profile_name: String,
    pub api_key: Option<String>,
    pub base_url: Option<String>,
    pub ca_path: Option<String>,
    pub api_version: Option<u8>,
    pub no_input: bool,
}

/// What an update did.
pub struct UpdateResult {
    /// The API key to store for the profile, if one is to be stored.
    pub store_key: Option<String>,
    /// Whether anything changed, and so whether the files are to be written.
    pub updated: bool,
    /// The message to show.
    pub message: StyledStr,
}

/// The text after a successful update.
pub open spec fn updated_text(name: Seq<char>) -> Seq<char> {
    "Profile '"@ + name + "' updated successfully."@
}

/// The warning when nothing was to be updated.
pub open spec fn nothing_text() -> Seq<char> {
    "No updates specified. Use --api-key, --base-url, --ca-path, or --api-version to update profile settings."@
}

/// `new` where given, else `old`.
pub open spec fn replaced<T>(old: Option<T>, new: Option<T>) -> Option<T> {
    if new is Some { new } else { old }
}

impl UpdateCommand {
    /// Whether the API key is to be asked for: no setting was given and
    /// prompting is on.
    pub fn needs_prompt(&self) -> (b: bool)
        ensures
            b == (self.api_key is None && !self.no_input && self.base_url is None && self.ca_path is None
                && self.api_version is None),
    {
        self.api_key.is_none() && !self.no_input && self.base_url.is_none() && self.ca_path.is_none()
            && self.api_version.is_none()
    }

    /// Applies the update to the configuration: the base URL, CA path and API
    /// version given replace the profile's; the API key given (or, when asked
    /// for, the one typed, without surrounding white space) is to be stored
    /// unless it is empty. Fails when the profile does not exist.
    pub fn apply(&self, config: &mut ConfigV2, typed_key: &Option<String>) -> (r: Result<UpdateResult, StyledStr>)
        ensures
            !old(config).profiles.0@.contains_key(self.profile_name@) ==> (r matches Err(m) && m@ == headed(
                Style::Error,
                "error: "@,
                not_found_text(self.profile_name@),
            ) && *final(config) == *old(config)),
            old(config).profiles.0@.contains_key(self.profile_name@) ==> ({
                let p = old(config).profiles.0@[self.profile_name@];
                let key: Option<Seq<char>> = match self.api_key {
                    Some(k) => Some(k@),
                    None => if self.needs_prompt_spec() {
                        match typed_key { Some(t) => Some(trim(t@)), None => None }
                    } else {
                        None
                    },
                };
                let store = key matches Some(k) && k.len() > 0;
                let updated = self.base_url is Some || self.ca_path is Some || self.api_version is Some || store;
                &&& r matches Ok(u) && u.updated == updated && (store <==> u.store_key is Some)
                    && (u.store_key matches Some(s) ==> key == Some(s@))
                    && (updated ==> u.message@ == success_segments(updated_text(self.profile_name@)))
                    && (!updated ==> u.message@ == headed(Style::Warning, "warning: "@, nothing_text()))
                &&& final(config).version == old(config).version
                &&& final(config).profiles.0@ == old(config).profiles.0@.insert(
                    self.profile_name@,
                    ProfileV2 {
                        api_key: p.api_key,
                        base_url: replaced(p.base_url, self.base_url),
                        ca_path: replaced(p.ca_path, self.ca_path),
                        organization_name: p.organization_name,
                        api_version: replaced(p.api_version, self.api_version),
                    },
                )
            }),
    {
        let current = match config.profiles.0.get(self.profile_name.as_str()) {
            Some(p) => p.duplicate(),
            None => {
                return Err(profile_not_found(self.profile_name.as_str()));
            },
        };
        let mut updated = false;
        let base_url = if self.base_url.is_some() {
            updated = true;
            clone_opt(&self.base_url)
        } else {
            clone_opt(&current.base_url)
        };
        let ca_path = if self.ca_path.is_some() {
            updated = true;
            clone_opt(&self.ca_path)
        } else {
            clone_opt(&current.ca_path)
        };
        let api_version = if self.api_version.is_some() {
            updated = true;
            self.api_version
        } else {
            current.api_version
        };
        let profile = ProfileV2 {
            api_key: current.api_key,
            base_url,
            ca_path,
            organization_name: current.organization_name,
            api_version,
        };
        config.profiles.0.insert(self.profile_name.clone(), profile);
        let key: Option<String> = match &self.api_key {
            Some(k) => Some(k.clone()),
            None => if self.needs_prompt() {
                match typed_key {
                    Some(t) => Some(trim_str(t.as_str())),
                    None => None,
                }
            } else {
                None
            },
        };
        let store_key = match key {
            Some(k) => if k.unicode_len() > 0 {
                updated = true;
                Some(k)
            } else {
                None
            },
            None => None,
        };
        let message = if updated {
            let mut v = chars_of("Profile '");
            extend_str(&mut v, self.profile_name.as_str());
            extend_str(&mut v, "' updated successfully.");
            proof {
                reveal_strlit("success: ");
                reveal_strlit("' updated successfully.");
            }
            headed_message(Style::Success, "success: ", string_of(v.as_slice()))
        } else {
            proof {
                reveal_strlit("warning: ");
                reveal_strlit(
                    "No updates specified. Use --api-key, --base-url, --ca-path, or --api-version to update profile settings.",
                );
            }
            headed_message(
                Style::Warning,
                "warning: ",
                String::from_str(
                    "No updates specified. Use --api-key, --base-url, --ca-path, or --api-version to update profile settings.",
                ),
            )
        };
        Ok(UpdateResult { store_key, updated, message })
    }

    /// Whether the API key is to be asked for (see `needs_prompt`).
    pub open spec fn needs_prompt_spec(&self) -> bool {
        self.api_key is None && !self.no_input && self.base_url is None && self.ca_path is None
            && self.api_version is None
    }
}

/// A profile that `profiles create` wrote, read back with the credentials
/// applied, has the API key it was created with, the default API version and
/// no other setting.
pub proof fn lemma_created_profile_reads_back(
    profiles: Map<Seq<char>, ProfileV2>,
    credentials: Map<Seq<char>, Credential>,
    name: Seq<char>,
    profile: ProfileV2,
    api_key: String,
)
    requires
        fresh_profile(profile),
    ensures
        with_credential(
            profiles.insert(name, profile)[name],
            name,
            credentials.insert(name, Credential { api_key: Some(api_key) }),
        ) == (ProfileV2 {
            api_key: Some(api_key),
            base_url: None,
            ca_path: None,
            organization_name: None,
            api_version: Some(DEFAULT_API_VERSION),
        }),
{
}

/// Updating a profile and reading it back gives the settings the update named
/// and keeps the others.
pub proof fn lemma_update_reads_back(
    profiles: Map<Seq<char>, ProfileV2>,
    name: Seq<char>,
    base_url: Option<String>,
    ca_path: Option<String>,
    api_version: Option<u8>,
)
    requires
        profiles.contains_key(name),
    ensures
        ({
            let p = profiles[name];
            let q = profiles.insert(name, ProfileV2 {
                api_key: p.api_key,
                base_url: replaced(p.base_url, base_url),
                ca_path: replaced(p.ca_path, ca_path),
                organization_name: p.organization_name,
                api_version: replaced(p.api_version, api_version),
            })[name];
            &&& base_url is Some ==> q.base_url == base_url
            &&& base_url is None ==> q.base_url == p.base_url
            &&& ca_path is Some ==> q.ca_path == ca_path
            &&& ca_path is None ==> q.ca_path == p.ca_path
            &&& api_version is Some ==> q.api_version == api_version
            &&& api_version is None ==> q.api_version == p.api_version
            &&& q.api_key == p.api_key && q.organization_name == p.organization_name
        }),
{
}

} // verus!
