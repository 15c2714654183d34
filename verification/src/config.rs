//! The configuration file: profiles, signing key pairs and certificate
//! authorities, the migration from the first file format, and the rules that
//! combine profiles, stored credentials and command-line options.
use vstd::prelude::*;
use crate::strmap::StrMap;
use crate::styled::{Style, StyledStr};

verus! {

/// A copy of an optional string.
pub fn clone_opt(o: &Option<String>) -> (r: Option<String>)
    ensures
        r == *o,
{
    match o {
        Some(s) => Some(s.clone()),
        None => None,
    }
}

/// A profile in the first configuration format.
#[derive(Debug)]
pub struct ProfileV1 {
    pub api_key: Option<String>,
    pub base_url: Option<String>,
    pub ca_path: Option<String>,
    pub organization_name: Option<String>,
}

impl ProfileV1 {
    /// A copy of the profile.
    pub fn duplicate(&self) -> (r: Self)
        ensures
            r == *self,
    {
        ProfileV1 {
            api_key: clone_opt(&self.api_key),
            base_url: clone_opt(&self.base_url),
            ca_path: clone_opt(&self.ca_path),
            organization_name: clone_opt(&self.organization_name),
        }
    }
}

/// The profiles of the first format, by name.
pub struct ProfilesV1(pub StrMap<ProfileV1>);

/// The first configuration format: profiles only.
pub struct ConfigV1(pub ProfilesV1);

/// The API version a profile uses when none is given.
pub const DEFAULT_API_VERSION: u8 = 2;

/// A profile in the current configuration format.
#[derive(Debug)]
pub struct ProfileV2 {
    pub api_key: Option<String>,
    pub base_url: Option<String>,
    pub ca_path: Option<String>,
    pub organization_name: Option<String>,
    pub api_version: Option<u8>,
}

/// A first-format profile in the current format: the same settings, with the
/// default API version.
pub open spec fn profile_from_v1(p: ProfileV1) -> ProfileV2 {
    ProfileV2 {
        api_key: p.api_key,
        base_url: p.base_url,
        ca_path: p.ca_path,
        organization_name: p.organization_name,
        api_version: Some(DEFAULT_API_VERSION),
    }
}

impl ProfileV2 {
    /// A copy of the profile.
    pub fn duplicate(&self) -> (r: Self)
        ensures
            r == *self,
    {
        ProfileV2 {
            api_key: clone_opt(&self.api_key),
            base_url: clone_opt(&self.base_url),
            ca_path: clone_opt(&self.ca_path),
            organization_name: clone_opt(&self.organization_name),
            api_version: self.api_version,
        }
    }

    /// The current-format profile for a first-format one.
    pub fn try_from(profile_v1: ProfileV1) -> (r: Result<ProfileV2, &'static str>)
        ensures
            r == Ok::<ProfileV2, &'static str>(profile_from_v1(profile_v1)),
            r matches Ok(p) && p.api_key == profile_v1.api_key && p.base_url == profile_v1.base_url
                && p.ca_path == profile_v1.ca_path && p.organization_name == profile_v1.organization_name
                && p.api_version == Some(2u8),
    {
        Ok(ProfileV2 {
            api_key: profile_v1.api_key,
            base_url: profile_v1.base_url,
            ca_path: profile_v1.ca_path,
            organization_name: profile_v1.organization_name,
            api_version: Some(DEFAULT_API_VERSION),
        })
    }
}

/// Whether the migrated profiles are the first-format ones with the same
/// names, each keeping its API key, base URL, CA path and organization name
/// and taking API version 2.
pub open spec fn keeps_settings(v1: Map<Seq<char>, ProfileV1>, v2: Map<Seq<char>, ProfileV2>) -> bool {
    &&& v2.dom() == v1.dom()
    &&& forall|k: Seq<char>| #[trigger] v2.contains_key(k) ==> v2[k].api_key == v1[k].api_key
        && v2[k].base_url == v1[k].base_url && v2[k].ca_path == v1[k].ca_path
        && v2[k].organization_name == v1[k].organization_name && v2[k].api_version == Some(2u8)
}

/// Migrating first-format profiles loses no setting: each migrated profile has
/// the API key, base URL, CA path and organization name it had, and API version
/// 2; no profile appears or disappears.
pub proof fn lemma_migration_keeps_settings(v1: Map<Seq<char>, ProfileV1>)
    ensures
        keeps_settings(v1, v1.map_values(|p: ProfileV1| profile_from_v1(p))),
{
    let v2 = v1.map_values(|p: ProfileV1| profile_from_v1(p));
    assert(v2.dom() =~= v1.dom());
    assert forall|k: Seq<char>| #[trigger] v2.contains_key(k) implies v2[k].api_key == v1[k].api_key
        && v2[k].base_url == v1[k].base_url && v2[k].ca_path == v1[k].ca_path
        && v2[k].organization_name == v1[k].organization_name && v2[k].api_version == Some(2u8) by {
        assert(v2[k] == profile_from_v1(v1[k]));
    }
}

/// The profiles of the current format, by name.
pub struct ProfilesV2(pub StrMap<ProfileV2>);

impl ProfilesV2 {
    /// No profiles.
    pub fn default() -> (p: Self)
        ensures
            p.0@ == Map::<Seq<char>, ProfileV2>::empty(),
    {
        ProfilesV2(StrMap::new())
    }

    /// The profiles named by the pairs; a later pair replaces an earlier one with
    /// the same name.
    pub fn from_iter(pairs: Vec<(String, ProfileV2)>) -> (p: Self)
        ensures
            p.0@ == crate::strmap::entries_map(pairs@),
    {
        let mut c = ProfilesV2::default();
        let mut rest = pairs;
        let ghost all = rest@;
        let ghost n = all.len();
        assert(all.take(0) =~= Seq::<(String, ProfileV2)>::empty());
        while rest.len() > 0
            invariant
                n == all.len(),
                rest.len() <= n,
                rest@ == all.skip(n - rest.len()),
                c.0@ == crate::strmap::entries_map(all.take(n - rest.len())),
            decreases rest.len(),
        {
            let ghost done = n - rest.len();
            let (k, v) = rest.remove(0);
            assert(all.skip(done).drop_first() =~= all.skip(done + 1));
            assert(all.take(done + 1).drop_last() =~= all.take(done));
            assert(all.take(done + 1).last() == all[done]);
            c.0.insert(k, v);
        }
        assert(all.take(n as int) =~= all);
        c
    }

    /// The first-format configuration's profiles in the current format.
    pub fn try_from(config_v1: &ConfigV1) -> (r: Result<Self, &'static str>)
        ensures
            r is Ok,
            r matches Ok(p) ==> p.0@ == config_v1.0.0@.map_values(|p: ProfileV1| profile_from_v1(p)),
            r matches Ok(p) ==> keeps_settings(config_v1.0.0@, p.0@),
    {
        let src = &config_v1.0.0;
        let mut out = ProfilesV2::default();
        let n = src.entry_count();
        let mut i: usize = 0;
        proof {
            src.lemma_names();
        }
        while i < n
            invariant
                n == src.names().len(),
                i <= n,
                src.names().to_set() == src@.dom(),
                forall|k: Seq<char>| #[trigger] out.0@.contains_key(k) <==> src.names().take(i as int).contains(k),
                forall|k: Seq<char>| #[trigger] out.0@.contains_key(k) ==> src@.contains_key(k) && out.0@[k] == profile_from_v1(src@[k]),
            decreases n - i,
        {
            let (name, profile) = src.entry(i);
            let converted = match ProfileV2::try_from(profile.duplicate()) {
                Ok(p) => p,
                Err(_) => {
                    return Err("the profile cannot be converted");
                },
            };
            let ghost before = out.0@;
            out.0.insert(name.clone(), converted);
            proof {
                let t0 = src.names().take(i as int);
                let t1 = src.names().take(i as int + 1);
                assert forall|k: Seq<char>| #[trigger] out.0@.contains_key(k) <==> t1.contains(k) by {
                    if t1.contains(k) {
                        let j = choose|j: int| 0 <= j < t1.len() && t1[j] == k;
                        if j < i {
                            assert(t0[j] == k);
                        }
                    }
                    if t0.contains(k) {
                        let j = choose|j: int| 0 <= j < t0.len() && t0[j] == k;
                        assert(t1[j] == k);
                    }
                    if k == name@ {
                        assert(t1[i as int] == k);
                    }
                }
            }
            i = i + 1;
        }
        proof {
            assert(src.names().take(n as int) =~= src.names());
            assert forall|k: Seq<char>| src.names().contains(k) <==> src@.dom().contains(k) by {
                assert(src.names().to_set().contains(k) == src.names().contains(k));
            }
            assert(out.0@ =~= src@.map_values(|p: ProfileV1| profile_from_v1(p)));
            lemma_migration_keeps_settings(src@);
        }
        Ok(out)
    }
}

/// A signing key pair: the key's resource name and the path of its private key.
#[derive(Debug)]
pub struct SigningKeyPairV2 {
    pub signing_key_prn: String,
    pub signing_key_private_path: String,
}

/// Signing key pairs by name.
pub struct SigningKeyPairsV2(pub StrMap<SigningKeyPairV2>);

impl SigningKeyPairsV2 {
    /// No signing key pairs.
    pub fn default() -> (p: Self)
        ensures
            p.0@ == Map::<Seq<char>, SigningKeyPairV2>::empty(),
    {
        SigningKeyPairsV2(StrMap::new())
    }
}

/// A certificate authority: paths of its private key and certificate.
#[derive(Debug)]
pub struct CertificateAuthorityV2 {
    pub private_key: String,
    pub certificate: String,
}

/// Certificate authorities by name.
pub struct CertificateAuthoritiesV2(pub StrMap<CertificateAuthorityV2>);

impl CertificateAuthoritiesV2 {
    /// No certificate authorities.
    pub fn default() -> (p: Self)
        ensures
            p.0@ == Map::<Seq<char>, CertificateAuthorityV2>::empty(),
    {
        CertificateAuthoritiesV2(StrMap::new())
    }
}

/// The version number written in current-format files.
pub const CONFIG_VERSION: u8 = 2;

/// The current configuration format.
pub struct ConfigV2 {
    pub version: u8,
    pub profiles: ProfilesV2,
    pub signing_key_pairs: Option<SigningKeyPairsV2>,
    pub certificate_authorities: Option<CertificateAuthoritiesV2>,
}

/// Whether a configuration has the shape a new or migrated file gets: the current
/// version and empty signing key pairs and certificate authorities.
pub open spec fn fresh_config(c: ConfigV2) -> bool {
    &&& c.version == CONFIG_VERSION
    &&& c.signing_key_pairs matches Some(k) && k.0@ == Map::<Seq<char>, SigningKeyPairV2>::empty()
    &&& c.certificate_authorities matches Some(a) && a.0@ == Map::<Seq<char>, CertificateAuthorityV2>::empty()
}

impl ConfigV2 {
    /// A configuration without profiles.
    pub fn default() -> (c: Self)
        ensures
            fresh_config(c),
            c.profiles.0@ == Map::<Seq<char>, ProfileV2>::empty(),
    {
        ConfigV2 {
            version: CONFIG_VERSION,
            profiles: ProfilesV2::default(),
            signing_key_pairs: Some(SigningKeyPairsV2::default()),
            certificate_authorities: Some(CertificateAuthoritiesV2::default()),
        }
    }

    /// The first-format configuration migrated to the current format.
    pub fn try_from(config_v1: &ConfigV1) -> (r: Result<Self, &'static str>)
        ensures
            r is Ok,
            r matches Ok(c) ==> fresh_config(c) && c.profiles.0@ == config_v1.0.0@.map_values(
                |p: ProfileV1| profile_from_v1(p),
            ),
            r matches Ok(c) ==> keeps_settings(config_v1.0.0@, c.profiles.0@),
    {
        match ProfilesV2::try_from(config_v1) {
            Ok(profiles_v2) => Ok(ConfigV2 {
                version: CONFIG_VERSION,
                profiles: profiles_v2,
                signing_key_pairs: Some(SigningKeyPairsV2::default()),
                certificate_authorities: Some(CertificateAuthoritiesV2::default()),
            }),
            Err(e) => Err(e),
        }
    }
}

/// Stored credentials of a profile.
#[derive(Debug)]
pub struct Credential {
    pub api_key: Option<String>,
}

/// Problems found while reading the configuration.
#[derive(Debug, PartialEq, Eq)]
pub enum ConfigError {
    /// No profile has the requested name.
    ProfileNotFound(String),
}

impl ConfigError {
    /// The message shown for the error.
    pub fn message(&self) -> (s: StyledStr)
        ensures
            match self {
                ConfigError::ProfileNotFound(name) => s@ == not_found_segments(name@),
            },
    {
        match self {
            ConfigError::ProfileNotFound(name) => profile_not_found_message(name),
        }
    }
}

/// A segment list with `text` in `style` appended, unless `text` is empty.
pub open spec fn seg(
    segs: Seq<(Option<Style>, Seq<char>)>,
    style: Option<Style>,
    text: Seq<char>,
) -> Seq<(Option<Style>, Seq<char>)> {
    if text.len() == 0 { segs } else { segs.push((style, text)) }
}

/// The segments of the message for a missing profile.
pub open spec fn not_found_segments(name: Seq<char>) -> Seq<(Option<Style>, Seq<char>)> {
    let s0 = Seq::<(Option<Style>, Seq<char>)>::empty();
    let s1 = seg(s0, Some(Style::Error), "error: "@);
    let s2 = seg(s1, None, "Profile "@);
    let s3 = seg(s2, None, "'"@);
    let s4 = seg(s3, Some(Style::Warning), name);
    let s5 = seg(s4, None, "'"@);
    seg(s5, None, " not found."@)
}

fn profile_not_found_message(name: &String) -> (s: StyledStr)
    ensures
        s@ == not_found_segments(name@),
{
    let mut error = StyledStr::new();
    error.push_str(Some(Style::Error), String::from_str("error: "));
    error.push_str(None, String::from_str("Profile "));
    error.push_str(None, String::from_str("'"));
    error.push_str(Some(Style::Warning), name.clone());
    error.push_str(None, String::from_str("'"));
    error.push_str(None, String::from_str(" not found."));
    error
}

/// Reading the configuration file.
pub struct Config;

impl Config {
    /// The profile named `profile_name`.
    pub fn get_profile(config: &ConfigV2, profile_name: &String) -> (r: Result<ProfileV2, ConfigError>)
        ensures
            match r {
                Ok(p) => config.profiles.0@.contains_key(profile_name@) && p == config.profiles.0@[profile_name@],
                Err(ConfigError::ProfileNotFound(n)) => !config.profiles.0@.contains_key(profile_name@) && n@ == profile_name@,
            },
    {
        match config.profiles.0.get(profile_name.as_str()) {
            Some(profile) => Ok(profile.duplicate()),
            None => Err(ConfigError::ProfileNotFound(profile_name.clone())),
        }
    }

    /// Gives each profile the API key stored for it in the credentials, where the
    /// credentials hold an entry with the profile's name.
    pub fn apply_credentials(config: &mut ConfigV2, credentials: &StrMap<Credential>)
        ensures
            final(config).version == old(config).version,
            final(config).signing_key_pairs == old(config).signing_key_pairs,
            final(config).certificate_authorities == old(config).certificate_authorities,
            final(config).profiles.0@.dom() == old(config).profiles.0@.dom(),
            forall|k: Seq<char>| #[trigger] final(config).profiles.0@.contains_key(k) ==> final(config).profiles.0@[k] == with_credential(old(config).profiles.0@[k], k, credentials@),
    {
        let n = config.profiles.0.entry_count();
        let ghost start = config.profiles.0@;
        let ghost names = config.profiles.0.names();
        proof {
            config.profiles.0.lemma_names();
        }
        let mut i: usize = 0;
        while i < n
            invariant
                n == names.len(),
                names == config.profiles.0.names(),
                i <= n,
                names.to_set() == start.dom(),
                names.no_duplicates(),
                config.profiles.0@.dom() == start.dom(),
                config.version == old(config).version,
                config.signing_key_pairs == old(config).signing_key_pairs,
                config.certificate_authorities == old(config).certificate_authorities,
                start == old(config).profiles.0@,
                forall|k: Seq<char>| #[trigger] config.profiles.0@.contains_key(k) ==> config.profiles.0@[k] == if names.take(i as int).contains(k) {
                    with_credential(start[k], k, credentials@)
                } else {
                    start[k]
                },
            decreases n - i,
        {
            let (name, profile) = config.profiles.0.entry(i);
            let updated = match credentials.get(name.as_str()) {
                Some(credential) => {
                    let mut p = profile.duplicate();
                    p.api_key = clone_opt(&credential.api_key);
                    Some(p)
                },
                None => None,
            };
            let ghost key = name@;
            proof {
                assert(names[i as int] == key);
                assert(!names.take(i as int).contains(key)) by {
                    if names.take(i as int).contains(key) {
                        let j = choose|j: int| 0 <= j < i && names.take(i as int)[j] == key;
                        assert(names[j] == names[i as int]);
                    }
                }
            }
            let ghost before = config.profiles.0@;
            proof {
                assert(before[key] == start[key]);
            }
            match updated {
                Some(p) => {
                    config.profiles.0.set_value(i, p);
                },
                None => {},
            }
            proof {
                let t0 = names.take(i as int);
                let t1 = names.take(i as int + 1);
                assert(t1 =~= t0.push(key));
                assert forall|k: Seq<char>| #[trigger] config.profiles.0@.contains_key(k) implies config.profiles.0@[k] == if t1.contains(k) {
                    with_credential(start[k], k, credentials@)
                } else {
                    start[k]
                } by {
                    if k == key {
                        assert(t1[i as int] == k);
                    } else {
                        assert(config.profiles.0@[k] == before[k]);
                        if t1.contains(k) {
                            let j = choose|j: int| 0 <= j < t1.len() && t1[j] == k;
                            assert(t0[j] == k);
                        }
                        if t0.contains(k) {
                            let j = choose|j: int| 0 <= j < t0.len() && t0[j] == k;
                            assert(t1[j] == k);
                        }
                    }
                }
            }
            i = i + 1;
        }
        proof {
            assert(names.take(n as int) =~= names);
            assert forall|k: Seq<char>| #[trigger] config.profiles.0@.contains_key(k) implies names.contains(k) by {
                assert(names.to_set().contains(k));
            }
        }
    }
}

/// A profile after the credentials are applied: the stored API key replaces the
/// profile's own where the credentials hold an entry for the profile.
pub open spec fn with_credential(p: ProfileV2, name: Seq<char>, creds: Map<Seq<char>, Credential>) -> ProfileV2 {
    if creds.contains_key(name) {
        ProfileV2 { api_key: creds[name].api_key, ..p }
    } else {
        p
    }
}

/// The error shown when the configuration file is still in the first format.
pub fn deprecated_config_message() -> (m: StyledStr)
    ensures
        m@ == seq![
            (Some(Style::Error), "error: "@),
            (None::<Style>, "Your current config file is deprecated. Please upgrade your config by running:\r\n"@),
            (Some(Style::Success), "\tperidio config upgrade"@),
        ],
{
    let mut m = StyledStr::new();
    proof {
        reveal_strlit("error: ");
        reveal_strlit("Your current config file is deprecated. Please upgrade your config by running:\r\n");
        reveal_strlit("\tperidio config upgrade");
    }
    m.push_str(Some(Style::Error), String::from_str("error: "));
    m.push_str(
        None,
        String::from_str("Your current config file is deprecated. Please upgrade your config by running:\r\n"),
    );
    m.push_str(Some(Style::Success), String::from_str("\tperidio config upgrade"));
    m
}

} // verus!
