use base64::Engine;
use ed25519_dalek::Signer;
use sha2::Digest;
use vex_bridge::config::{default_vex_bin, Config, WatchEntry};
use vex_bridge::errors::BridgeError;
use vex_bridge::ifc::{
    content_hash, find_call_args, intake_from_text, is_preview_entity, parse_preview_lines, parse_step_string,
    parse_string_list, preview_element, split_top_level_args, IfcIntake, IntakeReader,
};
use vex_bridge::pairing::{
    api_url, fingerprint_for, openssh_public, pairing_outcome, poll_outcome, projects_request, seed_from_stored, seed_to_stored,
    should_retry_status, start_failure, ProjectsFetch, ProjectsResponse, ProjectsStep,
};
use vex_bridge::pathname::{path_extension, path_file_name, path_file_stem};
use vex_bridge::pipeline::{
    activity_event, archive_file_name, author_identity, commit_message, derive_remote_url, entry_matches_ifc,
    file_label, is_ifc_candidate, latest_by_modified, matches_include, nothing_to_commit, order_by_modified,
    should_process, ActivityDetails, ManualPush, ManualPushAction, ManualPushEvent, PipelineAction, PipelineEvent,
    PipelineRun,
};
use vex_bridge::wire::{ActivityKind, CloudProject};

const HEADER: &str = "ISO-10303-21;\nHEADER;\nFILE_DESCRIPTION(('ViewDefinition [CoordinationView]'),'2;1');\nFILE_NAME('tower.ifc','2026-05-24T12:34:00',('Lawrence'),('Planmorph'),'x','Revit 2024','');\nENDSEC;\nDATA;\n#1=IFCPROJECT('2HnQxDrSH5sBbC4NkVOGR8',$,'Commercial Tower',$,$,$,$,(#2),#3);\n";

#[test]
fn parses_header_and_project() {
    let text = HEADER;
    let file_name = find_call_args(text, "FILE_NAME").expect("FILE_NAME");
    let file_parts = split_top_level_args(&file_name);
    assert_eq!(parse_string_list(&file_parts[2]).first().unwrap(), "Lawrence");
    assert_eq!(parse_step_string(&file_parts[5]).unwrap(), "Revit 2024");

    let project = find_call_args(text, "IFCPROJECT").expect("IFCPROJECT");
    let project_parts = split_top_level_args(&project);
    assert_eq!(parse_step_string(&project_parts[0]).unwrap(), "2HnQxDrSH5sBbC4NkVOGR8");
    assert_eq!(parse_step_string(&project_parts[2]).unwrap(), "Commercial Tower");
}

#[test]
fn handles_step_escaped_quotes() {
    assert_eq!(parse_step_string("'Bob''s Tower'").unwrap(), "Bob's Tower");
}

#[test]
fn intake_reads_header_metadata() {
    let intake = intake_from_text(HEADER).unwrap();
    assert_eq!(intake.description.as_deref(), Some("ViewDefinition [CoordinationView]"));
    assert_eq!(intake.author.as_deref(), Some("Lawrence"));
    assert_eq!(intake.originating_system.as_deref(), Some("Revit 2024"));
    assert_eq!(intake.project_guid.as_deref(), Some("2HnQxDrSH5sBbC4NkVOGR8"));
    assert_eq!(intake.project_name.as_deref(), Some("Commercial Tower"));
    assert_eq!(intake.approximate_entity_count, 1);
    assert_eq!(intake.routing_key().as_deref(), Some("2HnQxDrSH5sBbC4NkVOGR8"));
    assert!(intake_from_text("  \n").is_none());
}

#[test]
fn intake_reader_stops_once_the_header_is_complete() {
    let mut reader = IntakeReader::new();
    for line in HEADER.split_inclusive('\n') {
        if !reader.wants_more() {
            break;
        }
        reader.feed(line);
    }
    assert!(!reader.wants_more());
    let intake = reader.finish("tower.ifc").unwrap();
    assert_eq!(intake.project_name.as_deref(), Some("Commercial Tower"));

    let mut empty = IntakeReader::new();
    empty.feed("   \n");
    empty.feed("");
    assert!(!empty.wants_more());
    assert_eq!(
        empty.finish("/in/blank.ifc"),
        Err(BridgeError::Config("/in/blank.ifc is empty or unreadable as IFC".to_string()))
    );
}

fn anonymous_intake() -> IfcIntake {
    IfcIntake {
        description: None,
        project_guid: None,
        project_name: Some("Tower".to_string()),
        author: Some("Lee".to_string()),
        originating_system: None,
        approximate_entity_count: 42,
    }
}

#[test]
fn structural_fingerprint_hashes_name_author_and_count() {
    let intake = anonymous_intake();
    let expected = format!("fingerprint:{}", blake3::hash(b"Tower|Lee|42").to_hex());
    assert_eq!(intake.structural_fingerprint().as_deref(), Some(expected.as_str()));
    assert_eq!(intake.routing_key().as_deref(), Some(expected.as_str()));
    let blank = IfcIntake { project_name: None, author: None, approximate_entity_count: 0, ..anonymous_intake() };
    assert!(blank.structural_fingerprint().is_some());
    assert_eq!(content_hash(b"abc"), blake3::hash(b"abc").to_hex().to_string());
}

#[test]
fn preview_rows_skip_relationships_and_properties() {
    assert!(is_preview_entity("IfcWall"));
    assert!(!is_preview_entity("IfcRelAggregates"));
    assert!(!is_preview_entity("Wall"));
    let row = preview_element("  #12= IFCWALL('g',$,'Wall 01',$);").unwrap();
    assert_eq!(row.step_id, "#12");
    assert_eq!(row.entity_type, "IFCWALL");
    assert_eq!(row.name.as_deref(), Some("Wall 01"));
    let lines = vec![
        "#1=IFCRELAGGREGATES('x',$,$,$,#2,(#3));".to_string(),
        "#2=IFCSLAB('a',$,'Slab',$);".to_string(),
        "#3=IFCDOOR('b',$,$,$);".to_string(),
        "#4=IFCWINDOW('c',$,'Win',$);".to_string(),
    ];
    let rows = parse_preview_lines(&lines, 2);
    assert_eq!(rows.len(), 2);
    assert_eq!(rows[0].entity_type, "IFCSLAB");
    assert_eq!(rows[1].name, None);
}

fn watch(guid: Option<&str>) -> WatchEntry {
    WatchEntry {
        project_id: "proj-1".to_string(),
        cloud_project_id: None,
        path: "/inbox/proj".to_string(),
        include_globs: vec!["*.ifc".to_string()],
        ifc_project_guid: guid.map(str::to_string),
        project_name: Some("Watch Name".to_string()),
    }
}

#[test]
fn watches_pick_up_ifc_exports_outside_the_repository_folder() {
    assert!(is_ifc_candidate("/inbox/model.IFC"));
    assert!(is_ifc_candidate("/inbox/a.b.ifc"));
    assert!(!is_ifc_candidate("/inbox/.vex/archive/model.ifc"));
    assert!(!is_ifc_candidate("/inbox/model.ifcx"));
    assert!(!is_ifc_candidate("/inbox/.ifc"));
    assert!(is_ifc_candidate("/inbox/x.vex/model.ifc"));
    assert!(matches_include("/inbox/a.ifc", &vec![]));
    assert!(matches_include("/inbox/a.txt", &vec!["*".to_string()]));
    assert!(matches_include("/inbox/tower.ifc", &vec!["tower.ifc".to_string()]));
    assert!(!matches_include("/inbox/other.ifc", &vec!["tower.ifc".to_string()]));
    assert!(!matches_include("/", &vec!["*".to_string()]));
    assert!(should_process("/inbox/proj/a.ifc", &watch(None)));
    assert!(!should_process("/inbox/proj/a.txt", &watch(None)));
}

#[test]
fn path_names_follow_the_platform_rules() {
    assert_eq!(path_file_name("/a/b/c.ifc").as_deref(), Some("c.ifc"));
    assert_eq!(path_file_name("/a/b/").as_deref(), Some("b"));
    assert_eq!(path_file_name("foo.txt/.").as_deref(), Some("foo.txt"));
    assert_eq!(path_file_name("/a/.."), None);
    assert_eq!(path_file_name("/"), None);
    assert_eq!(path_extension("x/model.tar.ifc").as_deref(), Some("ifc"));
    assert_eq!(path_extension("x/.hidden"), None);
    assert_eq!(path_file_stem("x/model.tar.ifc").as_deref(), Some("model.tar"));
    assert_eq!(file_label("/"), "model.ifc");
    assert_eq!(file_label("/in/tower.ifc"), "tower.ifc");
}

#[test]
fn routing_follows_the_configured_guid_or_fingerprint() {
    let intake = intake_from_text(HEADER).unwrap();
    assert!(entry_matches_ifc(&watch(None), &intake));
    assert!(entry_matches_ifc(&watch(Some("2HnQxDrSH5sBbC4NkVOGR8")), &intake));
    assert!(!entry_matches_ifc(&watch(Some("other")), &intake));
    let anon = anonymous_intake();
    let fp = anon.structural_fingerprint().unwrap();
    assert!(entry_matches_ifc(&watch(Some(&fp)), &anon));
    assert!(!entry_matches_ifc(&watch(Some("fingerprint:0000")), &anon));
}

#[test]
fn commit_metadata_prefers_the_export_header() {
    let intake = intake_from_text(HEADER).unwrap();
    assert_eq!(
        commit_message(&watch(None), &intake, "/inbox/tower.ifc"),
        "auto: Commercial Tower from Revit 2024 (tower.ifc)"
    );
    let bare = IfcIntake {
        description: None,
        project_guid: None,
        project_name: None,
        author: None,
        originating_system: None,
        approximate_entity_count: 0,
    };
    assert_eq!(commit_message(&watch(None), &bare, "/"), "auto: Watch Name from IFC export (model.ifc)");
    assert_eq!(
        author_identity(&intake, Some("Default"), None),
        Some(("Lawrence".to_string(), "user@vex".to_string()))
    );
    assert_eq!(author_identity(&bare, None, Some("a@b")), None);
    assert_eq!(
        author_identity(&bare, Some("Default"), Some("a@b")),
        Some(("Default".to_string(), "a@b".to_string()))
    );
}

#[test]
fn remote_urls_point_at_the_vex_host_of_the_root_domain() {
    assert_eq!(
        derive_remote_url("https://studio.planmorph.software", "p1").as_deref(),
        Some("ssh://vex@vex.planmorph.software:22/proj/p1")
    );
    assert_eq!(
        derive_remote_url("http://planmorph.software:8080/api", "p1").as_deref(),
        Some("ssh://vex@vex.planmorph.software:22/proj/p1")
    );
    assert_eq!(
        derive_remote_url("https://a.b.example.com/x", "p2").as_deref(),
        Some("ssh://vex@vex.b.example.com:22/proj/p2")
    );
    assert_eq!(derive_remote_url("ftp://example.com", "p"), None);
    assert_eq!(derive_remote_url("https://", "p"), None);
}

#[test]
fn archived_names_carry_the_short_hash_and_a_counter() {
    let hash = "0123456789abcdef0123";
    assert_eq!(archive_file_name("/in/tower.ifc", hash, 0), "tower-0123456789ab.ifc");
    assert_eq!(archive_file_name("/in/tower.ifc", hash, 2), "tower-0123456789ab-2.ifc");
    assert_eq!(archive_file_name("/in/noext", "abc", 0), "noext-abc.ifc");
    assert_eq!(archive_file_name("/", "abc", 1), "model-abc-1.ifc");
}

#[test]
fn scans_process_oldest_first_and_push_the_newest() {
    let times: Vec<i128> = vec![30, 10, 30, 20];
    assert_eq!(order_by_modified(&times), vec![1, 3, 0, 2]);
    assert_eq!(latest_by_modified(&times), Some(0));
    assert_eq!(latest_by_modified(&vec![]), None);
}

#[test]
fn activity_ids_mix_time_and_event() {
    let details = ActivityDetails {
        kind: ActivityKind::CommitCreated,
        commit_hash: Some("c1".to_string()),
        content_hash: Some("h1".to_string()),
        message: "auto".to_string(),
        detail: None,
    };
    let ev = activity_event(&watch(None), "/inbox/proj", "/inbox/proj/a.ifc", details, 1_700_000_000, 99);
    let digest = blake3::hash(b"99:proj-1:CommitCreated:/inbox/proj/a.ifc:c1").to_hex().to_string();
    assert_eq!(ev.id, format!("1700000000-{}", &digest[..12]));
    assert_eq!(ev.kind, ActivityKind::CommitCreated);
    assert_eq!(ev.project_name.as_deref(), Some("Watch Name"));
    assert_eq!(ev.local_path.as_deref(), Some("/inbox/proj"));
    assert_eq!(ev.source_path.as_deref(), Some("/inbox/proj/a.ifc"));
    assert_eq!(ev.caught_at_unix, 1_700_000_000);
}

fn run() -> PipelineRun {
    let (run, action) = PipelineRun::start(
        watch(None),
        "/inbox/proj".to_string(),
        "/inbox/proj/tower.ifc".to_string(),
        None,
        Some("me@example.com".to_string()),
    );
    assert_eq!(action, PipelineAction::WaitForStableFile);
    run
}

fn recorded(a: &PipelineAction) -> (ActivityKind, String) {
    match a {
        PipelineAction::Record(d) => (d.kind, d.message.clone()),
        other => panic!("expected a record, got {other:?}"),
    }
}

#[test]
fn a_new_export_is_imported_committed_pushed_and_archived() {
    let (r, a) = run().step(PipelineEvent::Done);
    assert_eq!(recorded(&a), (ActivityKind::ProcessingStarted, "Processing tower.ifc".to_string()));
    let (r, a) = r.step(PipelineEvent::Done);
    assert_eq!(a, PipelineAction::HashFile);
    let (r, a) = r.step(PipelineEvent::Hashed("h1".to_string()));
    assert_eq!(a, PipelineAction::CheckSeen("h1".to_string()));
    let (r, a) = r.step(PipelineEvent::Seen(false));
    assert_eq!(a, PipelineAction::ParseIntake);
    let (r, a) = r.step(PipelineEvent::Intake(intake_from_text(HEADER).unwrap()));
    assert_eq!(a, PipelineAction::EnsureRepo);
    let (r, a) = r.step(PipelineEvent::Done);
    assert_eq!(a, PipelineAction::Import);
    let (r, a) = r.step(PipelineEvent::Done);
    assert_eq!(
        a,
        PipelineAction::Commit(
            "auto: Commercial Tower from Revit 2024 (tower.ifc)".to_string(),
            Some(("Lawrence".to_string(), "me@example.com".to_string()))
        )
    );
    let (r, a) = r.step(PipelineEvent::Committed("c1".to_string()));
    assert_eq!(a, PipelineAction::Push);
    let (r, a) = r.step(PipelineEvent::Failed(BridgeError::VexCli("offline".to_string())));
    assert_eq!(a, PipelineAction::Archive("h1".to_string()));
    let (r, a) = r.step(PipelineEvent::Archived("/inbox/proj/.vex/archive/tower-h1.ifc".to_string()));
    match &a {
        PipelineAction::Persist { content_hash, commit_hash, project_guid, snapshot_path, details } => {
            assert_eq!(content_hash, "h1");
            assert_eq!(commit_hash, "c1");
            assert_eq!(project_guid.as_deref(), Some("2HnQxDrSH5sBbC4NkVOGR8"));
            assert_eq!(snapshot_path, "/inbox/proj/.vex/archive/tower-h1.ifc");
            assert_eq!(details.kind, ActivityKind::CommitCreated);
            assert_eq!(details.detail.as_deref(), Some("committed locally; sync failed: vex CLI failed: offline"));
        },
        other => panic!("unexpected {other:?}"),
    }
    let (_, a) = r.step(PipelineEvent::Done);
    assert_eq!(a, PipelineAction::Finish(None));
}

#[test]
fn a_duplicate_export_is_only_archived() {
    let (r, _) = run().step(PipelineEvent::Done);
    let (r, _) = r.step(PipelineEvent::Done);
    let (r, _) = r.step(PipelineEvent::Hashed("h1".to_string()));
    let (r, a) = r.step(PipelineEvent::Seen(true));
    assert_eq!(recorded(&a), (ActivityKind::DuplicateSkipped, "Skipped duplicate tower.ifc".to_string()));
    let (r, a) = r.step(PipelineEvent::Done);
    assert_eq!(a, PipelineAction::EnsureRepo);
    let (r, a) = r.step(PipelineEvent::Done);
    assert_eq!(a, PipelineAction::Archive("h1".to_string()));
    let (_, a) = r.step(PipelineEvent::Failed(BridgeError::Io("busy".to_string())));
    assert_eq!(a, PipelineAction::Finish(None));
}

#[test]
fn an_unrouted_export_is_skipped_and_nothing_to_commit_is_quiet() {
    let (r0, _) = PipelineRun::start(
        watch(Some("other-guid")),
        "/inbox/proj".to_string(),
        "/inbox/proj/tower.ifc".to_string(),
        None,
        None,
    );
    let (r, _) = r0.step(PipelineEvent::Done);
    let (r, _) = r.step(PipelineEvent::Done);
    let (r, _) = r.step(PipelineEvent::Hashed("h1".to_string()));
    let (r, _) = r.step(PipelineEvent::Seen(false));
    let (r, a) = r.step(PipelineEvent::Intake(intake_from_text(HEADER).unwrap()));
    assert_eq!(recorded(&a), (ActivityKind::RouteSkipped, "Skipped unmatched IFC tower.ifc".to_string()));
    match &a {
        PipelineAction::Record(d) => {
            assert_eq!(d.detail.as_deref(), Some("expected Some(\"other-guid\"), actual Some(\"2HnQxDrSH5sBbC4NkVOGR8\")"))
        },
        _ => unreachable!(),
    }
    let (_, a) = r.step(PipelineEvent::Done);
    assert_eq!(a, PipelineAction::Finish(None));

    let (r, _) = run().step(PipelineEvent::Done);
    let (r, _) = r.step(PipelineEvent::Done);
    let (r, _) = r.step(PipelineEvent::Hashed("h1".to_string()));
    let (r, _) = r.step(PipelineEvent::Seen(false));
    let (r, _) = r.step(PipelineEvent::Intake(intake_from_text(HEADER).unwrap()));
    let (r, _) = r.step(PipelineEvent::Done);
    let (r, _) = r.step(PipelineEvent::Done);
    let (r, a) = r.step(PipelineEvent::Failed(BridgeError::VexCli("nothing to commit, working tree clean".to_string())));
    assert_eq!(recorded(&a), (ActivityKind::NoChanges, "No changes in tower.ifc".to_string()));
    let (_, a) = r.step(PipelineEvent::Done);
    assert_eq!(a, PipelineAction::Finish(None));
}

#[test]
fn a_failing_step_is_recorded_then_reported() {
    let (r, _) = run().step(PipelineEvent::Done);
    let (r, _) = r.step(PipelineEvent::Done);
    let failure = BridgeError::Io("permission denied".to_string());
    let (r, a) = r.step(PipelineEvent::Failed(failure.clone()));
    match &a {
        PipelineAction::Record(d) => {
            assert_eq!(d.kind, ActivityKind::Error);
            assert_eq!(d.message, "Could not process tower.ifc");
            assert_eq!(d.detail.as_deref(), Some("permission denied"));
        },
        other => panic!("unexpected {other:?}"),
    }
    let (_, a) = r.step(PipelineEvent::Done);
    assert_eq!(a, PipelineAction::Finish(Some(failure)));
    assert!(nothing_to_commit("error: no changes added"));
    assert!(!nothing_to_commit("merge conflict"));
}

fn push_config() -> Config {
    let mut cfg = Config::default_with_vex_bin(default_vex_bin(None));
    cfg.watch = vec![watch(None)];
    cfg.default_author_name = Some("Ana".to_string());
    cfg.default_author_email = Some("ana@example.com".to_string());
    cfg
}

#[test]
fn manual_pushes_need_a_watch_and_an_export() {
    let err = ManualPush::start(&push_config(), "missing", "main").unwrap_err();
    assert_eq!(
        err,
        BridgeError::Config(
            "no [[watch]] entry registered for project_id `missing`. Add one to config.toml or configure the project from the architur web UI before pushing."
                .to_string()
        )
    );
    let (p, a) = ManualPush::start(&push_config(), "proj-1", "main").unwrap();
    assert_eq!(a, ManualPushAction::EnsureDir("/inbox/proj".to_string()));
    let (p, a) = p.step(ManualPushEvent::Done);
    assert_eq!(a, ManualPushAction::EnsureRepo);
    let (p, a) = p.step(ManualPushEvent::Done);
    assert_eq!(a, ManualPushAction::FindLatestExport);
    let (_, a) = p.clone().step(ManualPushEvent::Latest(None));
    assert_eq!(
        a,
        ManualPushAction::Fail(BridgeError::Config(
            "no IFC file found under configured project directory `/inbox/proj`".to_string()
        ))
    );
    let (p, a) = p.step(ManualPushEvent::Latest(Some("/inbox/proj/tower.ifc".to_string())));
    assert_eq!(a, ManualPushAction::Import("/inbox/proj/tower.ifc".to_string()));
    let (p, a) = p.step(ManualPushEvent::Done);
    assert_eq!(
        a,
        ManualPushAction::Commit(
            "manual push via vex-bridge (tower.ifc)".to_string(),
            Some(("Ana".to_string(), "ana@example.com".to_string()))
        )
    );
    let (p, a) = p.step(ManualPushEvent::Failed(BridgeError::VexCli("nothing to commit".to_string())));
    assert_eq!(a, ManualPushAction::ResolveHead);
    let (unresolved, a) = p.clone().step(ManualPushEvent::Failed(BridgeError::VexCli("no HEAD".to_string())));
    assert_eq!(a, ManualPushAction::Push("refs/heads/main".to_string()));
    let (_, a) = unresolved.step(ManualPushEvent::Done);
    assert_eq!(a, ManualPushAction::Succeed("HEAD".to_string()));
    let head = "ab".repeat(32);
    let (p, a) = p.step(ManualPushEvent::Head(head.clone()));
    assert_eq!(a, ManualPushAction::Push("refs/heads/main".to_string()));
    let (_, a) = p.step(ManualPushEvent::Done);
    assert_eq!(a, ManualPushAction::Succeed(head));
}

fn signing_seed() -> [u8; 32] {
    [7; 32]
}

fn public_blob(seed: &[u8; 32]) -> Vec<u8> {
    let pk = ed25519_dalek::SigningKey::from_bytes(seed).verifying_key().to_bytes();
    let mut blob = Vec::new();
    blob.extend_from_slice(&11u32.to_be_bytes());
    blob.extend_from_slice(b"ssh-ed25519");
    blob.extend_from_slice(&32u32.to_be_bytes());
    blob.extend_from_slice(&pk);
    blob
}

#[test]
fn device_identity_matches_ssh_formats() {
    let seed = signing_seed();
    let blob = public_blob(&seed);
    assert_eq!(
        openssh_public(&seed),
        format!("ssh-ed25519 {}", base64::engine::general_purpose::STANDARD.encode(&blob))
    );
    assert_eq!(
        fingerprint_for(&seed),
        format!("SHA256:{}", base64::engine::general_purpose::STANDARD_NO_PAD.encode(sha2::Sha256::digest(&blob)))
    );
    assert!(openssh_public(&seed).starts_with("ssh-ed25519 AAAAC3NzaC1lZDI1NTE5AAAAI"));
}

#[test]
fn stored_seeds_decode_or_report_keychain_errors() {
    let stored = format!(" {} \n", base64::engine::general_purpose::STANDARD.encode([7u8; 32]));
    assert_eq!(seed_from_stored(&stored).unwrap(), [7u8; 32]);
    assert_eq!(
        seed_from_stored(&base64::engine::general_purpose::STANDARD.encode([1u8; 16])),
        Err(BridgeError::Keychain("ssh seed wrong length: got 16".to_string()))
    );
    assert!(matches!(seed_from_stored("***"), Err(BridgeError::Keychain(m)) if m.starts_with("base64: ")));
}

#[test]
fn projects_rejects_missing_registered_key_id_before_network_access() {
    let err = projects_request("https://api.example.com", " ", 1_700_000_000, &signing_seed()).unwrap_err();
    assert!(matches!(err, BridgeError::PairingKeyUnavailable));
}

#[test]
fn project_requests_are_signed_over_method_path_and_time() {
    let q = projects_request("https://api.example.com//", " key-1 ", 1_700_000_000, &signing_seed()).unwrap();
    assert_eq!(q.url, "https://api.example.com/api/device-pairing/projects");
    assert_eq!(q.key_id, "key-1");
    let signature = ed25519_dalek::SigningKey::from_bytes(&signing_seed())
        .sign(b"GET\n/api/device-pairing/projects\n1700000000")
        .to_bytes();
    assert_eq!(q.signature, base64::engine::general_purpose::STANDARD.encode(signature));
}

#[test]
fn only_transient_project_service_statuses_are_retried() {
    assert!(should_retry_status(408));
    assert!(should_retry_status(429));
    assert!(should_retry_status(503));
    assert!(!should_retry_status(401));
    assert!(!should_retry_status(400));
}

fn project() -> CloudProject {
    CloudProject {
        id: "af92ef93-5e63-4c13-a2d7-9c722d175ccb".to_string(),
        owner_slug: "northwind".to_string(),
        owner_name: "Northwind".to_string(),
        slug: "tower-a".to_string(),
        full_name: "northwind/tower-a".to_string(),
        default_branch: "main".to_string(),
        has_commits: false,
    }
}

#[test]
fn projects_retry_a_transient_failure_then_return_the_list() {
    let mut fetch = ProjectsFetch::first();
    assert_eq!(
        fetch.on_response(ProjectsResponse::Status(503, "503 Service Unavailable".to_string())),
        ProjectsStep::Retry(250)
    );
    assert_eq!(fetch.attempt, 2);
    assert_eq!(fetch.on_response(ProjectsResponse::Listed(vec![project()])), ProjectsStep::Return(vec![project()]));
}

#[test]
fn projects_distinguish_rejection_invalid_payloads_and_exhaustion() {
    let mut fetch = ProjectsFetch::first();
    assert_eq!(
        fetch.on_response(ProjectsResponse::Status(401, "401 Unauthorized".to_string())),
        ProjectsStep::Fail(BridgeError::PairingCredentialsRejected)
    );
    let mut fetch = ProjectsFetch::first();
    assert_eq!(
        fetch.on_response(ProjectsResponse::Unreadable("invalid type: map".to_string())),
        ProjectsStep::Fail(BridgeError::CloudProjectsInvalidResponse(
            "expected a project list: invalid type: map".to_string()
        ))
    );
    let mut fetch = ProjectsFetch::first();
    assert_eq!(fetch.on_response(ProjectsResponse::Unreachable("timed out".to_string())), ProjectsStep::Retry(250));
    assert_eq!(fetch.on_response(ProjectsResponse::Unreachable("timed out".to_string())), ProjectsStep::Retry(500));
    assert_eq!(
        fetch.on_response(ProjectsResponse::Unreachable("timed out".to_string())),
        ProjectsStep::Fail(BridgeError::CloudProjectsUnavailable("timed out".to_string()))
    );
    let mut fetch = ProjectsFetch::first();
    assert_eq!(
        fetch.on_response(ProjectsResponse::Status(404, "404 Not Found".to_string())),
        ProjectsStep::Fail(BridgeError::CloudProjectsInvalidResponse("HTTP 404 Not Found".to_string()))
    );
}

#[test]
fn pairing_responses_read_as_outcomes() {
    assert_eq!(poll_outcome("pending", None, None, None, None, "200 OK"), Ok(None));
    let approved = poll_outcome("approved", Some("k1".to_string()), Some("acct".to_string()), None, None, "200 OK")
        .unwrap()
        .unwrap();
    assert_eq!(approved.key_id, "k1");
    assert_eq!(approved.account_id.as_deref(), Some("acct"));
    assert_eq!(
        poll_outcome("approved", None, None, None, None, "200 OK"),
        Err(BridgeError::UpstreamApi("pairing approved but no key id returned".to_string()))
    );
    assert_eq!(
        poll_outcome("expired", None, None, None, None, "410 Gone"),
        Err(BridgeError::UpstreamApi("pairing code expired".to_string()))
    );
    assert_eq!(
        poll_outcome("weird", None, None, None, None, "200 OK"),
        Err(BridgeError::UpstreamApi("unexpected pairing status weird (HTTP 200 OK)".to_string()))
    );
    let outcome = pairing_outcome("https://web.example.com/", "ABC".to_string(), "t".to_string(), "fp".to_string());
    assert_eq!(outcome.pair_url, "https://web.example.com/pair?code=ABC");
    assert_eq!(api_url("https://api.example.com/", "/api/device-pairing/start"), "https://api.example.com/api/device-pairing/start");
    assert_eq!(
        start_failure("500 Internal Server Error", "  boom \n"),
        BridgeError::UpstreamApi("500 Internal Server Error: boom".to_string())
    );
}

#[test]
fn stored_seeds_are_standard_base64_and_read_back() {
    let seed = [7u8; 32];
    let stored = seed_to_stored(&seed);
    assert_eq!(stored, "BwcHBwcHBwcHBwcHBwcHBwcHBwcHBwcHBwcHBwcHBwc=");
    assert_eq!(seed_from_stored(&stored).unwrap(), seed);
}
