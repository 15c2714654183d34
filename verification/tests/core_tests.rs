use peridio_cli::commands::{preflight, ApiCommand, ApiExt, ApiOptions, CliCommands, ListArgs, ListExt, ListParams};
use peridio_cli::options::path_missing_message;
use peridio_cli::prn::PRNBuilder;
use peridio_cli::config::deprecated_config_message;
use peridio_cli::config::{
    Config, ConfigError, ConfigV1, ConfigV2, Credential, ProfileV1, ProfileV2, ProfilesV1, ProfilesV2,
};
use peridio_cli::options::{config_directory_choice, missing_arguments_message, GlobalOptions};
use peridio_cli::paths::{normalize_path, path_from, PathError};
use peridio_cli::profiles::{
    create_profile, escape_spaces, init_profile, init_profile_name, profile_to_show, show_profile,
    upgrade_config, UpdateCommand, UpgradeOutcome,
};
use peridio_cli::strmap::StrMap;
use peridio_cli::styled::{Style, StyledStr};
use peridio_cli::text::{join_strings, split_str, trim_str};
use peridio_cli::value_parser::{PRNType, PRNValueParser};

fn segments(s: &StyledStr) -> Vec<(Option<Style>, String)> {
    let mut v = Vec::new();
    for i in 0..s.segment_count() {
        let (style, text) = s.segment(i);
        v.push((style, text.clone()));
    }
    v
}

fn profile(api_key: Option<&str>, base_url: Option<&str>) -> ProfileV2 {
    ProfileV2 {
        api_key: api_key.map(|s| s.to_string()),
        base_url: base_url.map(|s| s.to_string()),
        ca_path: None,
        organization_name: None,
        api_version: None,
    }
}

#[test]
fn split_and_join_are_inverse() {
    let parts = split_str("a::b:", ':');
    assert_eq!(parts, vec!["a".to_string(), "".to_string(), "b".to_string(), "".to_string()]);
    assert_eq!(join_strings(&parts, ":"), "a::b:");
    assert_eq!(split_str("", ':'), vec!["".to_string()]);
}

#[test]
fn trim_removes_unicode_white_space() {
    assert_eq!(trim_str("  name\t\n"), "name");
    assert_eq!(trim_str("\u{a0}x y\u{3000}"), "x y");
    assert_eq!(trim_str("   "), "");
}

#[test]
fn normalize_resolves_parent_references() {
    assert_eq!(normalize_path("a/./b/../c"), "a/c");
    assert_eq!(normalize_path("/a/b/../../c/"), "/c/");
    assert_eq!(normalize_path("../x"), "../x");
    assert_eq!(normalize_path("/a/../../b"), "/../b");
    assert_eq!(normalize_path("./a"), "./a");
}

#[test]
fn normalize_is_idempotent_on_examples() {
    for p in ["a/./b/../c", "/x/../y/", "../../q/./r", "a//b///c/", "/"] {
        let once = normalize_path(p);
        assert_eq!(normalize_path(&once), once);
    }
}

#[test]
fn path_from_absolute_home_and_relative() {
    assert_eq!(path_from("/abs/../x", None, None), Ok("/abs/../x".to_string()));
    assert_eq!(
        path_from("~/docs/../f", Some("/home/u".to_string()), None),
        Ok("/home/u/f".to_string())
    );
    assert_eq!(path_from("~", Some("/home/u".to_string()), None), Ok("/home/u".to_string()));
    assert_eq!(
        path_from("rel/x/..", None, Some("/cwd".to_string())),
        Ok("/cwd/rel".to_string())
    );
    assert_eq!(path_from("~/a", None, None), Err(PathError::HomeNotFound));
    assert_eq!(path_from("a", None, None), Err(PathError::CurrentDirUnavailable));
}

#[test]
fn value_parser_accepts_and_refuses() {
    let parser = PRNValueParser::new(PRNType::ArtifactVersion);
    let ok = "prn:1:550e8400-e29b-41d4-a716-446655440000:artifact_version:550e8400-e29b-41d4-a716-446655440001";
    assert_eq!(parser.parse_ref(ok), Ok(ok.to_string()));
    let wrong = "prn:1:550e8400-e29b-41d4-a716-446655440000:binary:550e8400-e29b-41d4-a716-446655440001";
    assert_eq!(
        parser.parse_ref(wrong),
        Err("Invalid PRN type, expected 'ArtifactVersion' PRN".to_string())
    );
    assert_eq!(parser.parse_ref("nope"), Err("Invalid PRN".to_string()));
    assert_eq!(
        parser.parse_ref("prn:1:550e8400-e29b-41d4-a716-446655440000:gizmo:550e8400-e29b-41d4-a716-446655440001"),
        Err("Invalid PRN type".to_string())
    );
    let org = PRNValueParser::new(PRNType::Organization);
    assert_eq!(
        org.parse_ref("prn:1:not-a-uuid"),
        Err("Invalid PRN UUID, expected 'organization' UUID in PRN".to_string())
    );
    assert!(PRNType::try_from("binary".to_string()).is_ok());
    assert!(PRNType::try_from("gizmo".to_string()).is_err());
}

#[test]
fn strmap_insert_then_get() {
    let mut m: StrMap<u32> = StrMap::new();
    assert!(m.is_empty());
    m.insert("a".to_string(), 1);
    m.insert("b".to_string(), 2);
    m.insert("a".to_string(), 3);
    assert_eq!(m.len(), 2);
    assert_eq!(m.get("a"), Some(&3));
    assert_eq!(m.get("c"), None);
    assert!(m.contains_key("b"));
    assert_eq!(m.entry(0).0, "a");
}

#[test]
fn styled_text_skips_empty_segments() {
    let mut s = StyledStr::new();
    s.push_str(Some(Style::Error), "error: ".to_string());
    s.push_str(None, "".to_string());
    s.push_str(None, "bad".to_string());
    assert_eq!(s.segment_count(), 2);
    assert_eq!(s.plain_text(), "error: bad\r\n");
}

#[test]
fn migration_gives_version_two_profiles() {
    let mut v1: StrMap<ProfileV1> = StrMap::new();
    v1.insert(
        "test-profile".to_string(),
        ProfileV1 {
            api_key: Some("test-key".to_string()),
            base_url: Some("https://example.com".to_string()),
            ca_path: Some("/path/to/ca.pem".to_string()),
            organization_name: Some("test-org".to_string()),
        },
    );
    let config_v1 = ConfigV1(ProfilesV1(v1));
    let v2 = ConfigV2::try_from(&config_v1).unwrap();
    assert_eq!(v2.version, 2);
    let p = v2.profiles.0.get("test-profile").unwrap();
    assert_eq!(p.api_version, Some(2));
    assert_eq!(p.organization_name.as_deref(), Some("test-org"));
    match upgrade_config(Some(&config_v1), false) {
        UpgradeOutcome::Migrated(c) => assert_eq!(c.profiles.0.len(), 1),
        _ => panic!("a first-format file must migrate"),
    }
    assert!(matches!(upgrade_config(None, true), UpgradeOutcome::UpToDate));
    assert!(matches!(upgrade_config(None, false), UpgradeOutcome::Unupgradable));
}

#[test]
fn get_profile_and_missing_profile_message() {
    let mut config = ConfigV2::default();
    config.profiles.0.insert("dev".to_string(), profile(None, Some("https://dev")));
    let p = Config::get_profile(&config, &"dev".to_string()).unwrap();
    assert_eq!(p.base_url.as_deref(), Some("https://dev"));
    let err = Config::get_profile(&config, &"prod".to_string()).err().unwrap();
    assert_eq!(err, ConfigError::ProfileNotFound("prod".to_string()));
    assert_eq!(err.message().plain_text(), "error: Profile 'prod' not found.\r\n");
}

#[test]
fn credentials_fill_api_keys() {
    let mut config = ConfigV2::default();
    config.profiles.0.insert("dev".to_string(), profile(Some("old"), None));
    config.profiles.0.insert("ci".to_string(), profile(Some("keep"), None));
    let mut creds: StrMap<Credential> = StrMap::new();
    creds.insert("dev".to_string(), Credential { api_key: Some("new".to_string()) });
    Config::apply_credentials(&mut config, &creds);
    assert_eq!(config.profiles.0.get("dev").unwrap().api_key.as_deref(), Some("new"));
    assert_eq!(config.profiles.0.get("ci").unwrap().api_key.as_deref(), Some("keep"));
}

#[test]
fn profiles_from_pairs_keep_last() {
    let p = ProfilesV2::from_iter(vec![
        ("a".to_string(), profile(Some("1"), None)),
        ("a".to_string(), profile(Some("2"), None)),
    ]);
    assert_eq!(p.0.len(), 1);
    assert_eq!(p.0.get("a").unwrap().api_key.as_deref(), Some("2"));
}

#[test]
fn options_take_unset_values_from_profile() {
    let mut o = GlobalOptions::empty();
    o.base_url = Some("https://cli".to_string());
    let p = ProfileV2 {
        api_key: Some("k".to_string()),
        base_url: Some("https://profile".to_string()),
        ca_path: Some("/ca".to_string()),
        organization_name: Some("org".to_string()),
        api_version: Some(2),
    };
    o.apply_profile(&p);
    assert_eq!(o.api_key.as_deref(), Some("k"));
    assert_eq!(o.base_url.as_deref(), Some("https://cli"));
    assert_eq!(o.ca_path.as_deref(), Some("/ca"));
    assert_eq!(o.organization_name.as_deref(), Some("org"));
    assert!(o.missing_arguments().is_empty());
    assert!(o.api_version_warning().is_some());
}

#[test]
fn missing_arguments_are_listed() {
    let o = GlobalOptions::empty();
    let missing = o.missing_arguments();
    assert_eq!(missing, vec!["--api-key".to_string()]);
    let m = missing_arguments_message(&missing).unwrap();
    assert_eq!(
        m.plain_text(),
        "error: The following arguments are required:\r\n\t--api-key\r\n\r\nThey must be supplied either:\r\n\t- via the CLI config file and referenced by profile\r\n\t- directly to the top level command (not to subcommands)\r\n"
    );
    assert!(missing_arguments_message(&Vec::new()).is_none());
    assert_eq!(
        o.api_version_warning().unwrap().plain_text(),
        "warning: No API version specified. Using default version 2.\r\n"
    );
}

#[test]
fn config_directory_is_chosen() {
    assert_eq!(config_directory_choice(&Some("/c".to_string()), true, &None), Some("/c".to_string()));
    assert_eq!(config_directory_choice(&Some("/c".to_string()), false, &Some("/p".to_string())), None);
    assert_eq!(config_directory_choice(&None, false, &Some("/p".to_string())), Some("/p".to_string()));
}

#[test]
fn create_profile_stores_key_and_default_version() {
    let mut config = ConfigV2::default();
    let mut creds: StrMap<Credential> = StrMap::new();
    let msg = create_profile(&mut config, &mut creds, "  test-profile ", "test-api-key".to_string(), "/tmp/my dir");
    assert_eq!(config.version, 2);
    let p = config.profiles.0.get("test-profile").unwrap();
    assert_eq!(p.api_version, Some(2));
    assert!(p.api_key.is_none());
    assert_eq!(creds.get("test-profile").unwrap().api_key.as_deref(), Some("test-api-key"));
    let segs = segments(&msg);
    assert_eq!(segs[0], (Some(Style::Success), "success: ".to_string()));
    assert_eq!(
        segs[1].1,
        "Profile 'test-profile' configured successfully at /tmp/my\\ dir.\nUse with: peridio -p test-profile [command]"
    );
    Config::apply_credentials(&mut config, &creds);
    assert_eq!(config.profiles.0.get("test-profile").unwrap().api_key.as_deref(), Some("test-api-key"));
}

#[test]
fn escaping_spaces() {
    assert_eq!(escape_spaces("a b  c"), "a\\ b\\ \\ c");
    assert_eq!(escape_spaces("plain"), "plain");
}

#[test]
fn init_uses_default_name() {
    assert_eq!(init_profile_name("  \n"), "default");
    assert_eq!(init_profile_name(" work\n"), "work");
    let mut config = ConfigV2::default();
    let mut creds: StrMap<Credential> = StrMap::new();
    let msg = init_profile(&mut config, &mut creds, "\n", " acme \n", " key\n");
    let p = config.profiles.0.get("default").unwrap();
    assert_eq!(p.organization_name.as_deref(), Some("acme"));
    assert_eq!(creds.get("default").unwrap().api_key.as_deref(), Some("key"));
    assert_eq!(
        msg.plain_text(),
        "success: Profile 'default' configured successfully.\nUse with: peridio -p default [command]\r\n"
    );
}

#[test]
fn show_picks_and_prints_profile() {
    assert_eq!(profile_to_show(&Some("a".to_string()), &Some("b".to_string())).ok(), Some("a".to_string()));
    assert_eq!(profile_to_show(&None, &Some("b".to_string())).ok(), Some("b".to_string()));
    let err = profile_to_show(&None, &None).err().unwrap();
    assert_eq!(
        err.plain_text(),
        "error: No profile specified and no current profile set. Use -p <profile> or provide a profile name.\r\n"
    );
    let p = ProfileV2 {
        api_key: None,
        base_url: Some("https://x".to_string()),
        ca_path: None,
        organization_name: None,
        api_version: Some(2),
    };
    assert_eq!(
        show_profile("dev", &p, true),
        vec![
            "Profile: dev".to_string(),
            "  API Key: set".to_string(),
            "  Base URL: https://x".to_string(),
            "  CA Path: default".to_string(),
            "  API Version: 2".to_string(),
        ]
    );
}

fn update(api_key: Option<&str>, base_url: Option<&str>, no_input: bool) -> UpdateCommand {
    UpdateCommand {
        profile_name: "dev".to_string(),
        api_key: api_key.map(|s| s.to_string()),
        base_url: base_url.map(|s| s.to_string()),
        ca_path: None,
        api_version: None,
        no_input,
    }
}

#[test]
fn update_changes_settings_and_keys() {
    let mut config = ConfigV2::default();
    config.profiles.0.insert("dev".to_string(), profile(None, Some("https://old")));

    let cmd = update(None, Some("https://new"), false);
    assert!(!cmd.needs_prompt());
    let r = cmd.apply(&mut config, &None).ok().unwrap();
    assert!(r.updated);
    assert!(r.store_key.is_none());
    assert_eq!(r.message.plain_text(), "success: Profile 'dev' updated successfully.\r\n");
    assert_eq!(config.profiles.0.get("dev").unwrap().base_url.as_deref(), Some("https://new"));

    let prompt = update(None, None, false);
    assert!(prompt.needs_prompt());
    let r = prompt.apply(&mut config, &Some("  typed \n".to_string())).ok().unwrap();
    assert_eq!(r.store_key.as_deref(), Some("typed"));

    let skipped = prompt.apply(&mut config, &Some("   ".to_string())).ok().unwrap();
    assert!(!skipped.updated);
    assert_eq!(
        skipped.message.plain_text(),
        "warning: No updates specified. Use --api-key, --base-url, --ca-path, or --api-version to update profile settings.\r\n"
    );

    let mut other = update(Some("k"), None, true);
    other.profile_name = "missing".to_string();
    let err = other.apply(&mut config, &None).err().unwrap();
    assert_eq!(err.plain_text(), "error: Profile 'missing' not found.\r\n");
}

#[test]
fn preflight_checks_api_commands() {
    let mut o = GlobalOptions::empty();
    let p = preflight(CliCommands::ApiCommand(ApiCommand::Binaries), &o);
    assert!(p.missing.is_some());
    assert!(p.warning.is_some());
    o.api_key = Some("k".to_string());
    o.api_version = Some(2);
    let p = preflight(CliCommands::ApiCommand(ApiCommand::Bundles), &o);
    assert!(p.missing.is_none() && p.warning.is_none());
    let p = preflight(CliCommands::Config, &GlobalOptions::empty());
    assert!(p.missing.is_none() && p.warning.is_none());
    let p = preflight(CliCommands::Users, &GlobalOptions::empty());
    assert!(p.missing.is_none() && p.warning.is_some());
}

#[test]
fn list_and_connection_settings() {
    let args = ListArgs { limit: Some(5), order: Some("asc".to_string()), search: "name:'x'".to_string(), page: None };
    let p = ListParams::from_args(&args);
    assert_eq!(p.limit, Some(5));
    assert_eq!(p.order.as_deref(), Some("asc"));
    assert_eq!(p.search, "name:'x'");
    let mut o = GlobalOptions::empty();
    o.api_key = Some("key".to_string());
    o.base_url = Some("https://api".to_string());
    let a = ApiOptions::from_options(&o);
    assert_eq!(a.api_key, "key");
    assert_eq!(a.endpoint.as_deref(), Some("https://api"));
    assert!(a.ca_bundle_path.is_none());
}

#[test]
fn missing_path_is_reported() {
    assert_eq!(path_missing_message("/no/ca.pem").plain_text(), "error: Path does not exist:\r\n\t/no/ca.pem\r\n");
}

#[test]
fn built_names_pass_the_value_parser() {
    let b = PRNBuilder::new("550e8400-e29b-41d4-a716-446655440000".to_string());
    let name = b.bundle("550e8400-e29b-41d4-a716-446655440005").unwrap();
    assert_eq!(PRNValueParser::new(PRNType::Bundle).parse_ref(&name), Ok(name.clone()));
    assert!(PRNValueParser::new(PRNType::Binary).parse_ref(&name).is_err());
}

#[test]
fn deprecated_config_is_reported() {
    assert_eq!(
        deprecated_config_message().plain_text(),
        "error: Your current config file is deprecated. Please upgrade your config by running:\r\n\tperidio config upgrade\r\n"
    );
}
