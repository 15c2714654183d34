use peridio_cli::binary::BinaryState;
use peridio_cli::bundle_create::{create_bundle_params, parse_binaries_from_input, BundleParams};
use peridio_cli::bundle_format::{
    bundle_binaries, custom_metadata_param, record_binaries, ArtifactVersionInfo, BinaryInfo, ManifestItem, SignatureInfo,
};
use peridio_cli::bundle_pull::{
    archive_entry_names, binary_prn_for, build_bundle_json, build_manifest, check_size, determine_output_path, extract_id_from_prn,
    PulledBinary,
};
use peridio_cli::bundle_push::{
    walk_archive, artifact_prn_for, artifact_version_prn_for, check_entry_content, construct_binary_prn, first_pass,
    is_binary_hash_valid, processor_config, push_action, ArchiveWalk, EntryAction, PushBinaryAction, PushCommand,
};
use peridio_cli::json::maybe_json;
use peridio_cli::options::GlobalOptions;
use peridio_cli::strmap::StrMap;

const ORG: &str = "prn:1:550e8400-e29b-41d4-a716-446655440000";
const VERSION_PRN: &str =
    "prn:1:550e8400-e29b-41d4-a716-446655440000:artifact_version:550e8400-e29b-41d4-a716-446655440002";
const BIN_ID: &str = "550e8400-e29b-41d4-a716-446655440003";
const ABC_HASH: &str = "ba7816bf8f01cfea414140de5dae2223b00361a396177a9cb410ff61f20015ad";

fn item(id: &str, hash: &str, target: &str, meta: Vec<(String, String)>) -> ManifestItem {
    ManifestItem {
        hash: hash.to_string(),
        size: 3,
        binary_id: id.to_string(),
        target: target.to_string(),
        artifact_version_id: "v".to_string(),
        artifact_id: "a".to_string(),
        custom_metadata: meta,
    }
}

fn info(desc: &str) -> BinaryInfo {
    BinaryInfo {
        description: Some(desc.to_string()),
        signatures: vec![SignatureInfo { keyid: "kid".to_string(), sig: "SIG".to_string() }],
    }
}

#[test]
fn resource_names_for_push() {
    assert_eq!(
        artifact_prn_for(ORG, "550e8400-e29b-41d4-a716-446655440009"),
        Ok("prn:1:550e8400-e29b-41d4-a716-446655440000:artifact:550e8400-e29b-41d4-a716-446655440009".to_string())
    );
    assert_eq!(
        artifact_version_prn_for(ORG, "550e8400-e29b-41d4-a716-446655440002"),
        Ok(VERSION_PRN.to_string())
    );
    assert_eq!(
        construct_binary_prn(VERSION_PRN, BIN_ID),
        Ok(format!("prn:1:550e8400-e29b-41d4-a716-446655440000:binary:{BIN_ID}"))
    );
    assert_eq!(
        construct_binary_prn("bad", BIN_ID),
        Err("Failed to parse version PRN bad: Invalid PRN format: PRN must have 3 or 5 parts separated by colons, got 1 parts".to_string())
    );
    assert_eq!(
        artifact_prn_for(ORG, "not-a-uuid"),
        Err("Failed to construct artifact PRN: Invalid resource ID: not-a-uuid".to_string())
    );
}

#[test]
fn push_needs_api_key() {
    let mut o = GlobalOptions::empty();
    assert_eq!(
        PushCommand::check_api_key(&o),
        Err("API key is required for bundle push operation".to_string())
    );
    o.api_key = Some("k".to_string());
    assert_eq!(PushCommand::check_api_key(&o), Ok(()));
}

#[test]
fn existing_binaries_during_push() {
    assert!(is_binary_hash_valid(&Some("h".to_string()), "h"));
    assert!(!is_binary_hash_valid(&None, "h"));
    assert_eq!(push_action(&None, "h"), Ok(PushBinaryAction::CreateNew));
    assert_eq!(push_action(&Some((Some("x".to_string()), BinaryState::Signed)), "h"), Ok(PushBinaryAction::CreateNew));
    assert_eq!(push_action(&Some((Some("h".to_string()), BinaryState::Hashing)), "h"), Ok(PushBinaryAction::Process));
    assert_eq!(
        push_action(&Some((Some("h".to_string()), BinaryState::Signable)), "h"),
        Ok(PushBinaryAction::UseExisting)
    );
    assert_eq!(
        push_action(&Some((Some("h".to_string()), BinaryState::Destroyed)), "h"),
        Err("Binary in unsupported state Destroyed for processing".to_string())
    );
}

#[test]
fn index_and_first_pass() {
    let mut binaries: StrMap<BinaryInfo> = StrMap::new();
    binaries.insert("b1".to_string(), info("one"));
    binaries.insert("b2".to_string(), info("two"));
    let version = ArtifactVersionInfo { version: "1.0".to_string(), description: None, binaries };
    let mut index: StrMap<(String, BinaryInfo)> = StrMap::new();
    record_binaries(&mut index, VERSION_PRN, &version);
    assert_eq!(index.len(), 2);
    assert_eq!(index.get("b2").unwrap().0, VERSION_PRN);
    assert_eq!(index.get("b1").unwrap().1.description.as_deref(), Some("one"));

    let manifest = vec![item("b1", "h1", "t1", vec![]), item("b2", "h2", "t2", vec![]), item("b3", "h3", "t3", vec![])];
    let known = vec![true, true, false];
    let existing = vec![Some(("prn:b1".to_string(), BinaryState::Signed)), None, None];
    let (done, needing) = first_pass(&manifest, &known, &existing);
    assert_eq!(done.get("b1"), Some(&"prn:b1".to_string()));
    assert!(needing.contains_key("b2"));
    assert!(!needing.contains_key("b1"));
    assert!(!needing.contains_key("b3"));

    let mut walk = ArchiveWalk::new();
    assert_eq!(walk.next_entry("bundle.json", false, &manifest, &needing, &index), Ok(EntryAction::Skip));
    assert_eq!(walk.next_entry("t1", false, &manifest, &needing, &index), Ok(EntryAction::Skip));
    assert_eq!(walk.next_entry("t2", false, &manifest, &needing, &index), Ok(EntryAction::Process(1)));
    assert_eq!(
        walk.next_entry("", true, &manifest, &needing, &index),
        Err("Archive contains fewer binaries than manifest entries. Expected 3 binaries, found 2".to_string())
    );
    assert_eq!(walk.next_entry("t3", false, &manifest, &needing, &index), Ok(EntryAction::Skip));
    assert_eq!(walk.next_entry("", true, &manifest, &needing, &index), Ok(EntryAction::Finished));
    assert_eq!(
        walk.next_entry("extra", false, &manifest, &needing, &index),
        Err("Archive contains more binaries than manifest entries. Expected 3 binaries, found extra: extra".to_string())
    );
}

#[test]
fn archive_content_must_match_manifest() {
    assert_eq!(check_entry_content("t", 0, b"abc", ABC_HASH), Ok(()));
    assert_eq!(
        check_entry_content("t", 4, b"abd", ABC_HASH),
        Err(format!(
            "Archive ordering mismatch! Binary t at position 4 has hash a52d159f262b2c6ddb724a61840befc36eb30c88877a4030b65cbe86298449c9 but manifest expects {ABC_HASH}. Archive binaries must match manifest order."
        ))
    );
}

#[test]
fn bundle_binaries_follow_manifest() {
    let manifest = vec![
        item("b1", "h", "t", vec![("k".to_string(), "1".to_string())]),
        item("b2", "h", "t", vec![]),
        item("b3", "h", "t", vec![]),
    ];
    let mut created: StrMap<String> = StrMap::new();
    created.insert("b3".to_string(), "prn:3".to_string());
    created.insert("b1".to_string(), "prn:1".to_string());
    let b = bundle_binaries(&manifest, &created);
    assert_eq!(b.len(), 2);
    assert_eq!(b[0].0, "prn:1");
    assert_eq!(b[0].1.as_ref().unwrap().len(), 1);
    assert_eq!(b[1].0, "prn:3");
    assert!(b[1].1.is_none());
    assert!(custom_metadata_param(&Vec::new()).is_none());
}

#[test]
fn processor_config_for_pushed_binary() {
    let cmd = PushCommand {
        path: "b.cpio.zst".to_string(),
        binary_part_size: Some(5242880),
        concurrency: Some(4),
        signing_key_pair: None,
        signing_key_private: None,
        signing_key_prn: None,
    };
    let c = processor_config(&cmd, GlobalOptions::empty(), &item("b1", "hh", "t", vec![]), &info("d"));
    assert_eq!(c.binary_content_hash.as_deref(), Some("hh"));
    assert_eq!(c.signatures.len(), 1);
    assert_eq!(c.signatures[0].keyid, "kid");
    assert!(!c.signatures[0].needs_computation());
    assert!(c.content_path.is_none());
}

#[test]
fn binaries_option_is_parsed() {
    let input = vec![
        "prn=prn:1:org:binary:id;custom_metadata={\"version\":\"1.0\"}".to_string(),
        " prn = p2 ; custom_metadata = null ".to_string(),
        "prn=p3".to_string(),
    ];
    let parsed = parse_binaries_from_input(&input).unwrap();
    assert_eq!(parsed[0].0, "prn:1:org:binary:id");
    assert_eq!(parsed[0].1, Some(vec![("version".to_string(), "\"1.0\"".to_string())]));
    assert_eq!(parsed[1], ("p2".to_string(), None));
    assert_eq!(parsed[2], ("p3".to_string(), None));

    assert_eq!(
        parse_binaries_from_input(&vec!["custom_metadata=null".to_string()]),
        Err("Missing required 'prn' key in binary specification".to_string())
    );
    assert_eq!(
        parse_binaries_from_input(&vec!["prn=a;colour=red".to_string()]),
        Err("Unknown key 'colour'. Supported keys: 'prn' (required), 'custom_metadata' (optional: JSON object or 'null')".to_string())
    );
    let bad = parse_binaries_from_input(&vec!["prn".to_string()]).unwrap_err();
    assert!(bad.starts_with("Invalid binary format: 'prn'. Expected 'key=value' pairs"));
    let bad_json = parse_binaries_from_input(&vec!["prn=a;custom_metadata=[1]".to_string()]).unwrap_err();
    assert!(bad_json.starts_with("Invalid JSON in custom_metadata: "));
    assert!(bad_json.ends_with(". Use 'null' for explicit null or valid JSON object."));
}

#[test]
fn bundle_params_by_api_version() {
    let prns = Some(vec!["prn:av".to_string()]);
    let bins = Some(vec!["prn=p".to_string()]);
    assert!(matches!(create_bundle_params(Some(1), prns.clone(), None, None, None), Ok(BundleParams::V1 { .. })));
    assert!(matches!(create_bundle_params(None, None, bins.clone(), None, None), Ok(BundleParams::V2 { .. })));
    assert_eq!(
        create_bundle_params(Some(1), prns.clone(), bins.clone(), None, None).err(),
        Some("The --binaries option is only supported in API version 2. Use --artifact-version-prns for API version 1 or use --api-version 2".to_string())
    );
    assert_eq!(
        create_bundle_params(Some(1), None, None, None, None).err(),
        Some("API version 1 requires --artifact-version-prns to be specified".to_string())
    );
    assert_eq!(
        create_bundle_params(Some(2), prns, None, None, None).err(),
        Some("The --artifact-version-prns option is only supported in API version 1. Use --binaries for API version 2 or use --api-version 1".to_string())
    );
    assert_eq!(
        create_bundle_params(Some(2), None, None, None, None).err(),
        Some("API version 2 requires --binaries to be specified".to_string())
    );
    assert_eq!(
        create_bundle_params(Some(7), None, bins, None, None).err(),
        Some("Unsupported API version: 7".to_string())
    );
}

#[test]
fn maybe_json_accepts_objects_only() {
    assert_eq!(maybe_json(&Some("{\"a\":1}".to_string())), Some(vec![("a".to_string(), "1".to_string())]));
    assert_eq!(maybe_json(&Some("[1]".to_string())), None);
    assert_eq!(maybe_json(&None), None);
}

#[test]
fn pull_names_and_checks() {
    assert_eq!(
        extract_id_from_prn(VERSION_PRN),
        Ok("550e8400-e29b-41d4-a716-446655440002".to_string())
    );
    assert!(extract_id_from_prn("prn:x").unwrap_err().starts_with("Failed to parse PRN prn:x: "));
    assert_eq!(determine_output_path(&None, &Some("My Bundle/v1".to_string()), "p"), "My_Bundle_v1.cpio.zst");
    assert_eq!(determine_output_path(&None, &None, "prn:1:ab"), "prn_1_ab.cpio.zst");
    assert_eq!(determine_output_path(&Some("out.zst".to_string()), &None, "p"), "out.zst");
    let mut prns: StrMap<String> = StrMap::new();
    prns.insert("b".to_string(), "prn:b".to_string());
    assert_eq!(binary_prn_for(&prns, "b"), Ok("prn:b".to_string()));
    assert_eq!(binary_prn_for(&prns, "c"), Err("PRN not found for binary_id: c".to_string()));
    assert_eq!(check_size("b", 3, 3), Ok(()));
    assert_eq!(check_size("b", 3, 0), Err("Size mismatch for binary b: expected 3, got 0".to_string()));
    let names = archive_entry_names(&vec![item("b", "h", "rootfs", vec![])]);
    assert_eq!(names, vec!["bundle.json".to_string(), "rootfs".to_string()]);
}

#[test]
fn pulled_manifest() {
    let pulled = PulledBinary {
        prn: format!("prn:1:550e8400-e29b-41d4-a716-446655440000:binary:{BIN_ID}"),
        hash: None,
        size: Some(9),
        target: "arm".to_string(),
        description: None,
        signatures: None,
        artifact_version_prn: VERSION_PRN.to_string(),
        version: "1.0.0".to_string(),
        version_description: None,
        artifact_prn: "prn:1:550e8400-e29b-41d4-a716-446655440000:artifact:550e8400-e29b-41d4-a716-446655440001"
            .to_string(),
        artifact_name: "firmware".to_string(),
        artifact_description: Some("fw".to_string()),
        custom_metadata: None,
    };
    let json = build_bundle_json(
        true,
        "prn:1:550e8400-e29b-41d4-a716-446655440000:bundle:550e8400-e29b-41d4-a716-446655440007",
        &Some("b".to_string()),
        &vec![PulledBinary { ..clone_pulled(&pulled) }],
    )
    .ok()
    .unwrap();
    assert_eq!(json.bundle.id, "550e8400-e29b-41d4-a716-446655440007");
    let art = json.artifacts.get("550e8400-e29b-41d4-a716-446655440001").unwrap();
    assert_eq!(art.name, "firmware");
    let ver = art.versions.get("550e8400-e29b-41d4-a716-446655440002").unwrap();
    assert_eq!(ver.version, "1.0.0");
    assert!(ver.binaries.contains_key(BIN_ID));
    let m = build_manifest(true, &vec![pulled]).unwrap();
    assert_eq!(m[0].binary_id, BIN_ID);
    assert_eq!(m[0].hash, "");
    assert_eq!(m[0].size, 9);
    assert_eq!(m[0].artifact_id, "550e8400-e29b-41d4-a716-446655440001");
    assert!(m[0].custom_metadata.is_empty());
    assert_eq!(
        build_manifest(false, &Vec::new()).err(),
        Some("Bundle pull only supports V2 bundles".to_string())
    );
}

fn clone_pulled(p: &PulledBinary) -> PulledBinary {
    PulledBinary {
        prn: p.prn.clone(),
        hash: p.hash.clone(),
        size: p.size,
        target: p.target.clone(),
        description: p.description.clone(),
        signatures: None,
        artifact_version_prn: p.artifact_version_prn.clone(),
        version: p.version.clone(),
        version_description: p.version_description.clone(),
        artifact_prn: p.artifact_prn.clone(),
        artifact_name: p.artifact_name.clone(),
        artifact_description: p.artifact_description.clone(),
        custom_metadata: p.custom_metadata.clone(),
    }
}

#[test]
fn whole_archive_walk_matches_manifest_length() {
    let manifest = vec![item("b1", "h1", "t1", vec![]), item("b2", "h2", "t2", vec![])];
    let mut needing: StrMap<()> = StrMap::new();
    needing.insert("b2".to_string(), ());
    let mut index: StrMap<(String, BinaryInfo)> = StrMap::new();
    index.insert("b2".to_string(), ("prn:v".to_string(), info("two")));
    let names = vec!["bundle.json".to_string(), "t1".to_string(), "".to_string(), "t2".to_string()];
    assert_eq!(
        walk_archive(&names, &manifest, &needing, &index),
        Ok(vec![EntryAction::Skip, EntryAction::Skip, EntryAction::Skip, EntryAction::Process(1), EntryAction::Finished])
    );
    let short = vec!["bundle.json".to_string(), "t1".to_string()];
    assert!(walk_archive(&short, &manifest, &needing, &index).is_err());
    let long = vec!["t1".to_string(), "t2".to_string(), "t3".to_string()];
    assert!(walk_archive(&long, &manifest, &needing, &index).is_err());
}
