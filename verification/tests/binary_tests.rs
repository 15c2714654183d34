use peridio_cli::binary::{PollAction, SignableWait};
use peridio_cli::upload::upload_accepted;
use peridio_cli::binary::{
    plan_processing, signature_search, signing_outcome, ArgBinaryState, BinaryProcessor, BinaryProcessorConfig,
    BinaryState, ProcessError, ProcessStep, SignatureConfig,
};
use peridio_cli::binary_create::{
    binary_search_query, bundle_name, bundle_override_description, bundle_override_name, decide_binary, follow_ups,
    release_name, signed_conflict_message, BinaryDecision, FollowUp, RemoteBinary,
};
use peridio_cli::config::{CertificateAuthoritiesV2, CertificateAuthorityV2, ConfigV2, SigningKeyPairV2, SigningKeyPairsV2};
use peridio_cli::digest::{checksum_header, content_hash, sign_binary_content, sign_hash, signing_key_value, signing_key_value_from_pem, to_hex};
use peridio_cli::options::GlobalOptions;
use peridio_cli::signing::{add_signing_key_pair, signature_plan, SignatureSource};
use peridio_cli::upgrade::{asset_name, decide_upgrade, release_url, replace_failed_message, upgraded_message, UpgradeAction};
use peridio_cli::upload::{default_concurrency, upload_complete, BinaryUploader, ChunkTask, PartInfo};
use peridio_cli::x509::{certificate_file_names, resolve_signer, validity_period, SignerSource};

const PUBLIC_PEM: &str = "-----BEGIN PUBLIC KEY-----\nMCowBQYDK2VwAyEA11qYAYKxCrfVS/7TyWQHOg7hcvPapiMlrwIaaPcHURo=\n-----END PUBLIC KEY-----\n";

#[test]
fn plans_follow_the_lifecycle() {
    assert_eq!(
        plan_processing(BinaryState::Uploadable, true, true).unwrap(),
        vec![
            ProcessStep::UploadParts,
            ProcessStep::ChangeState(BinaryState::Hashable),
            ProcessStep::ChangeState(BinaryState::Hashing),
            ProcessStep::WaitForSignable,
            ProcessStep::Sign,
            ProcessStep::ChangeState(BinaryState::Signed),
        ]
    );
    assert_eq!(
        plan_processing(BinaryState::Hashable, true, false).unwrap(),
        vec![ProcessStep::ChangeState(BinaryState::Hashing)]
    );
    assert_eq!(
        plan_processing(BinaryState::Signable, false, true).unwrap(),
        vec![ProcessStep::Sign, ProcessStep::ChangeState(BinaryState::Signed)]
    );
    assert!(plan_processing(BinaryState::Signed, false, true).unwrap().is_empty());
    assert!(plan_processing(BinaryState::Destroyed, true, true).unwrap().is_empty());
    let err = plan_processing(BinaryState::Uploadable, false, true).unwrap_err();
    assert_eq!(err, ProcessError::ContentRequired);
    assert_eq!(err.message(), "Binary content is required for Uploadable state");
}

#[test]
fn signing_plan_ends_signed() {
    for start in [BinaryState::Uploadable, BinaryState::Hashable, BinaryState::Hashing, BinaryState::Signable] {
        let steps = plan_processing(start, true, true).unwrap();
        let mut state = start;
        for step in steps {
            state = match step {
                ProcessStep::ChangeState(s) => s,
                ProcessStep::WaitForSignable => BinaryState::Signable,
                ProcessStep::Sign => {
                    assert_eq!(state, BinaryState::Signable);
                    state
                }
                ProcessStep::UploadParts => state,
            };
        }
        assert_eq!(state, BinaryState::Signed);
    }
}

#[test]
fn arg_states_convert() {
    assert_eq!(BinaryState::from(ArgBinaryState::Hashing), BinaryState::Hashing);
    assert_eq!(BinaryState::from(ArgBinaryState::Destroyed), BinaryState::Destroyed);
}

#[test]
fn signature_configs_and_processor() {
    let pre = SignatureConfig::pre_computed("k1".to_string(), "AB".to_string());
    assert!(!pre.needs_computation());
    let pair = SignatureConfig::from_key_pair("k2".to_string(), "release".to_string());
    assert!(pair.needs_computation());
    let private = SignatureConfig::from_private_key("k3".to_string(), "/key.pem".to_string());
    assert_eq!(private.signing_key_private.as_deref(), Some("/key.pem"));
    let processor = BinaryProcessor::new(BinaryProcessorConfig {
        binary_part_size: None,
        concurrency: None,
        global_options: GlobalOptions::empty(),
        binary_content_hash: None,
        content_path: None,
        signatures: vec![pre],
    });
    assert!(processor.has_signing_config());
    assert_eq!(processor.plan(BinaryState::Hashing, false).unwrap().len(), 3);
}

#[test]
fn signing_outcome_names_failures() {
    let keys = vec!["a".to_string(), "b".to_string(), "c".to_string()];
    assert_eq!(signing_outcome(&keys, &vec![true, true, true]), Ok(()));
    assert_eq!(
        signing_outcome(&keys, &vec![false, true, false]),
        Err("Failed to create signatures for binary (failed keyids: a, c)".to_string())
    );
    assert_eq!(signing_outcome(&Vec::new(), &Vec::new()), Ok(()));
    assert_eq!(
        signature_search("prn:b", "kid"),
        "binary_prn:'prn:b' and signature.signing_key.keyid:'kid'"
    );
}

#[test]
fn uploader_defaults_and_chunks() {
    assert_eq!(default_concurrency(1), 2);
    assert_eq!(default_concurrency(7), 14);
    assert_eq!(default_concurrency(64), 16);
    let u = BinaryUploader::new(4);
    assert_eq!(u.part_size(), 5242880);
    assert_eq!(u.concurrency(), 8);
    let u = u.with_part_size(10).with_concurrency(3);
    assert_eq!(u.part_size(), 10);
    assert_eq!(u.concurrency(), 3);
    assert_eq!(u.chunk_count(0), 0);
    assert_eq!(u.chunk_count(25), 3);
    assert_eq!(u.chunk_count(30), 3);
    assert_eq!(
        u.plan_chunks(25, &Vec::new()),
        vec![
            ChunkTask { index: 1, start: 0, end: 10 },
            ChunkTask { index: 2, start: 10, end: 20 },
            ChunkTask { index: 3, start: 20, end: 25 },
        ]
    );
    let parts = vec![
        PartInfo { index: 2, valid: true, size: 10 },
        PartInfo { index: 3, valid: false, size: 5 },
    ];
    assert_eq!(
        u.plan_chunks(25, &parts),
        vec![ChunkTask { index: 1, start: 0, end: 10 }, ChunkTask { index: 3, start: 20, end: 25 }]
    );
    assert!(!upload_complete(&parts, 3));
    let done = vec![
        PartInfo { index: 1, valid: true, size: 10 },
        PartInfo { index: 2, valid: true, size: 10 },
        PartInfo { index: 3, valid: true, size: 5 },
    ];
    assert!(upload_complete(&done, 3));
    assert!(u.plan_chunks(25, &done).is_empty());
}

#[test]
fn existing_binaries_are_judged() {
    let remote = |hash: Option<&str>, size: Option<u64>, state| RemoteBinary {
        hash: hash.map(|h| h.to_string()),
        size,
        state,
    };
    assert_eq!(decide_binary(&Vec::new(), "h", 1), BinaryDecision::Create);
    assert_eq!(decide_binary(&vec![remote(Some("h"), Some(1), BinaryState::Signed)], "h", 1), BinaryDecision::Reuse);
    assert_eq!(
        decide_binary(&vec![remote(Some("x"), Some(1), BinaryState::Signed)], "h", 1),
        BinaryDecision::SignedConflict
    );
    assert_eq!(decide_binary(&vec![remote(Some("h"), Some(2), BinaryState::Hashing)], "h", 1), BinaryDecision::Reset);
    assert_eq!(
        decide_binary(
            &vec![remote(None, None, BinaryState::Uploadable), remote(None, None, BinaryState::Uploadable)],
            "h",
            1
        ),
        BinaryDecision::Create
    );
    assert_eq!(binary_search_query("arm", "prn:av"), "target:'arm' and artifact_version_prn:'prn:av'");
    assert_eq!(
        signed_conflict_message("prn:av", "arm", &Some(("fw".to_string(), "1.0".to_string()))),
        "A signed binary already exists for artifact \"fw\" at version \"1.0\" with target \"arm\". Once a binary is signed, it cannot be overwritten."
    );
    assert_eq!(
        signed_conflict_message("prn:av", "arm", &None),
        "A signed binary already exists for \"prn:av\" with a target of \"arm\". Once a binary is signed, it cannot be overwritten."
    );
}

#[test]
fn follow_ups_and_names() {
    let f = follow_ups(&None, &Some("prn:dev".to_string()), &Some("prn:coh".to_string()));
    assert_eq!(f.len(), 3);
    assert!(matches!(f[0], FollowUp::CreateBundle));
    assert!(matches!(&f[1], FollowUp::StageForDevice(p) if p == "prn:dev"));
    assert!(matches!(&f[2], FollowUp::ReleaseToCohort(p) if p == "prn:coh"));
    assert!(follow_ups(&None, &None, &None).is_empty());
    assert_eq!(bundle_name("fw", "1.0", "arm"), "fw@1.0/arm");
    assert_eq!(bundle_override_name(&None, "prn:b"), "Bundle Override for prn:b");
    assert_eq!(bundle_override_name(&Some("n".to_string()), "prn:b"), "n");
    assert_eq!(bundle_override_description("prn:b"), "Auto-created bundle override for bundle prn:b");
    assert_eq!(release_name(&None, "prn:b"), "Release for prn:b");
}

#[test]
fn digests_and_encodings() {
    assert_eq!(content_hash(b"abc"), "ba7816bf8f01cfea414140de5dae2223b00361a396177a9cb410ff61f20015ad");
    assert_eq!(checksum_header(b"abc"), "ungWv48Bz+pBQUDeXa4iI7ADYaOWF3qctBD/YfIAFa0=");
    assert_eq!(to_hex(&[0, 15, 171], true), "000FAB");
    assert_eq!(to_hex(&[0, 15, 171], false), "000fab");
    assert_eq!(signing_key_value(&[0, 1, 2]), "AAEC");
    assert_eq!(
        signing_key_value_from_pem(PUBLIC_PEM),
        Ok("11qYAYKxCrfVS/7TyWQHOg7hcvPapiMlrwIaaPcHURo=".to_string())
    );
    assert!(signing_key_value_from_pem("not a key").is_err());
}

#[test]
fn unreadable_private_key_is_reported() {
    let err = sign_hash("garbage", "/k.pem", "abc").unwrap_err();
    assert!(err.starts_with("Failed to parse private key from '/k.pem': "));
}

#[test]
fn content_signature_reports_unreadable_key() {
    let err = sign_binary_content("not a key", "/k.pem", &Some(content_hash(b"abc")), b"ignored").unwrap_err();
    assert!(err.starts_with("Failed to parse private key from '/k.pem': "));
}

#[test]
fn signer_and_signature_sources() {
    let mut cas = CertificateAuthoritiesV2::default();
    cas.0.insert(
        "root".to_string(),
        CertificateAuthorityV2 { private_key: "/ca.key".to_string(), certificate: "/ca.pem".to_string() },
    );
    let cas = Some(cas);
    assert!(matches!(
        resolve_signer(&Some("root".to_string()), &None, &None, &cas),
        Ok(SignerSource::Files { ref key_path, .. }) if key_path == "/ca.key"
    ));
    let err = resolve_signer(&Some("other".to_string()), &None, &None, &cas).err().unwrap();
    assert_eq!(
        err.plain_text(),
        "error: Config file field 'certificate_authorities.other' is unset or null, but is required by the --signer option.\r\n"
    );
    let err = resolve_signer(&Some("root".to_string()), &None, &None, &None).err().unwrap();
    assert_eq!(
        err.plain_text(),
        "error: Config file field 'certificate_authorities' is unset or null, but is required by the --signer option.\r\n"
    );
    assert!(matches!(resolve_signer(&None, &None, &None, &cas), Ok(SignerSource::SelfSigned)));
    assert!(matches!(
        resolve_signer(&None, &Some("/k".to_string()), &Some("/c".to_string()), &None),
        Ok(SignerSource::Files { .. })
    ));

    let mut pairs = SigningKeyPairsV2::default();
    pairs.0.insert(
        "release".to_string(),
        SigningKeyPairV2 { signing_key_prn: "prn:key".to_string(), signing_key_private_path: "/p.pem".to_string() },
    );
    let pairs = Some(pairs);
    let (prn, src) =
        signature_plan(&Some("release".to_string()), &None, &None, &None, &Some("/bin".to_string()), &pairs).unwrap();
    assert_eq!(prn, "prn:key");
    assert!(matches!(src, SignatureSource::KeyFile(ref p) if p == "/p.pem"));
    let (prn, src) =
        signature_plan(&None, &None, &Some("prn:k".to_string()), &Some("SIG".to_string()), &None, &None).unwrap();
    assert_eq!(prn, "prn:k");
    assert!(matches!(src, SignatureSource::Given(ref s) if s == "SIG"));
    let err = signature_plan(&Some("nope".to_string()), &None, &None, &Some("S".to_string()), &None, &pairs)
        .err()
        .unwrap();
    assert_eq!(
        err.plain_text(),
        "error: Config file field 'signing_key_pairs.nope' is unset or null, but is required by the --signing-key-pair option.\r\n"
    );
}

#[test]
fn key_pairs_are_recorded() {
    let mut config = ConfigV2::default();
    config.signing_key_pairs = None;
    add_signing_key_pair(&mut config, "ci".to_string(), "prn:k".to_string(), "/out/private.pem".to_string());
    let pairs = config.signing_key_pairs.unwrap();
    assert_eq!(pairs.0.get("ci").unwrap().signing_key_private_path, "/out/private.pem");
}

#[test]
fn certificates_names_and_dates() {
    let (c, k) = certificate_file_names("device-1");
    assert_eq!(c, "device-1-certificate.pem");
    assert_eq!(k, "device-1-private-key.pem");
    assert_eq!(validity_period("2024-01-31", "2025-12-01"), Ok(((2024, 1, 31), (2025, 12, 1))));
    assert!(validity_period("2024-13-01", "2025-01-01").is_err());
    assert!(validity_period("2024-01-01", "tomorrow").is_err());
}

#[test]
fn upgrades_pick_assets() {
    assert_eq!(release_url(&None), "https://api.github.com/repos/peridio/peridio-cli/releases/latest");
    assert_eq!(
        release_url(&Some("0.22.0".to_string())),
        "https://api.github.com/repos/peridio/peridio-cli/releases/tags/0.22.0"
    );
    assert_eq!(asset_name("0.22.0", "x86_64-unknown-linux-gnu"), "peridio-0.22.0_x86_64-unknown-linux-gnu.tar.gz");
    let assets = vec![
        ("peridio-0.22.0_aarch64-apple-darwin.tar.gz".to_string(), "https://a".to_string()),
        ("peridio-0.22.0_x86_64-unknown-linux-gnu.tar.gz".to_string(), "https://b".to_string()),
    ];
    assert!(matches!(decide_upgrade("0.22.0", "0.22.0", "x", &assets), UpgradeAction::UpToDate));
    assert!(matches!(
        decide_upgrade("0.22.0", "0.21.0", "x86_64-unknown-linux-gnu", &assets),
        UpgradeAction::Download(ref u) if u == "https://b"
    ));
    assert!(matches!(
        decide_upgrade("0.22.0", "0.21.0", "riscv", &assets),
        UpgradeAction::MissingBinary(ref m) if m == "version 0.22.0 does not include a pre-built binary for target riscv"
    ));
    assert_eq!(upgraded_message("0.22.0"), "CLI upgraded successfully (0.22.0)");
    assert_eq!(
        replace_failed_message(true, "/usr/bin/peridio"),
        "CLI failed to upgrade: permission denied writing to /usr/bin/peridio"
    );
}

#[test]
fn storage_status_accepted() {
    assert!(upload_accepted(200));
    assert!(upload_accepted(201));
    assert!(!upload_accepted(204));
    assert!(!upload_accepted(403));
}

#[test]
fn waiting_for_signable_gives_up_after_retries() {
    let mut w = SignableWait::new();
    for _ in 0..30 {
        assert_eq!(w.on_poll(Some(BinaryState::Hashing)), PollAction::RetryAfterSeconds(10));
    }
    assert_eq!(w.on_poll(Some(BinaryState::Hashing)), PollAction::GiveUp("Binary not yet signable".to_string()));
    assert_eq!(w.on_poll(None), PollAction::GiveUp("Binary not found during state check".to_string()));
    assert_eq!(w.on_poll(Some(BinaryState::Signable)), PollAction::Ready);
    let mut fresh = SignableWait::new();
    assert_eq!(fresh.on_poll(Some(BinaryState::Signable)), PollAction::Ready);
    assert_eq!(fresh.retries, 0);
}

#[test]
fn resumed_upload_sends_only_missing_parts() {
    let u = BinaryUploader::new(1).with_part_size(4);
    let parts = vec![
        PartInfo { index: 1, valid: true, size: 4 },
        PartInfo { index: 3, valid: true, size: 4 },
        PartInfo { index: 3, valid: false, size: 4 },
    ];
    assert_eq!(
        u.plan_chunks(14, &parts),
        vec![ChunkTask { index: 2, start: 4, end: 8 }, ChunkTask { index: 4, start: 12, end: 14 }]
    );
}
