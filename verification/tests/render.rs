use vex_bridge::errors::BridgeError;
use vex_bridge::render_cache::{
    already_published, check_object, check_staging_owned, eviction_order, is_commit_hash, is_staging_name,
    object_digest, objects_to_verify, render_cache_root, staging_dir_name, validate_commit_hash,
    validate_manifest_identity, CacheCandidate, PrunePass, ServeRegistry,
};
use vex_bridge::render_cache::{
    access_marker_text, access_marker_time, artifact_serve_key, is_protected, last_access, protected_candidate,
};
use vex_bridge::render_manifest::{
    RenderArtifactManifest, RenderArtifactResource, RenderBounds, RenderPolicy, RenderSemanticIndexDescriptor,
    RenderTileDescriptor,
};
use vex_bridge::render_worker::{
    build_worker_args, RenderJobAction, RenderJobEvent, RenderJobRun, RenderJobStage, RenderJobState,
    WorkerInvocation,
};
use vex_bridge::scheduler::{queued_submission_is_newer, FairScheduler, RenderJobTicket, RenderService};
use vex_bridge::schema::{RENDER_MANIFEST_V2, RENDER_SEMANTIC_INDEX};

fn drain_order(scheduler: &mut FairScheduler<&'static str>) -> Vec<String> {
    let mut order = Vec::new();
    while let Some((project, _job)) = scheduler.next_runnable() {
        order.push(project.clone());
        scheduler.finish(&project);
    }
    order
}

#[test]
fn fair_scheduler_coalesces_same_project_queue() {
    let mut scheduler = FairScheduler::<&'static str>::new(1);
    assert!(scheduler.enqueue("a".into(), "c1").is_empty());
    let superseded = scheduler.enqueue("a".into(), "c2");
    assert_eq!(superseded, vec!["c1"]);
    assert_eq!(scheduler.queued_len(), 1);
    let (project, job) = scheduler.next_runnable().unwrap();
    assert_eq!((project.as_str(), job), ("a", "c2"));
}

#[test]
fn fair_scheduler_respects_concurrency_cap() {
    let mut scheduler = FairScheduler::<&'static str>::new(2);
    scheduler.enqueue("a".into(), "a1");
    scheduler.enqueue("b".into(), "b1");
    scheduler.enqueue("c".into(), "c1");
    assert!(scheduler.next_runnable().is_some());
    assert!(scheduler.next_runnable().is_some());
    assert_eq!(scheduler.in_flight(), 2);
    assert!(scheduler.next_runnable().is_none());
    scheduler.finish("a");
    assert!(scheduler.next_runnable().is_some());
}

#[test]
fn fair_scheduler_round_robins_across_projects() {
    let mut scheduler = FairScheduler::<&'static str>::new(2);
    scheduler.enqueue("a".into(), "a1");
    scheduler.enqueue("b".into(), "b1");
    scheduler.enqueue("c".into(), "c1");
    let (p1, _) = scheduler.next_runnable().unwrap();
    assert_eq!(p1, "a");
    let (p2, _) = scheduler.next_runnable().unwrap();
    assert_eq!(p2, "b");
    assert!(scheduler.next_runnable().is_none());
    scheduler.finish(&p1);
    let (p3, _) = scheduler.next_runnable().unwrap();
    assert_eq!(p3, "c");
}

#[test]
fn fair_scheduler_prevents_single_project_starvation() {
    let mut scheduler = FairScheduler::<&'static str>::new(1);
    scheduler.enqueue("big".into(), "b1");
    scheduler.enqueue("small".into(), "s1");
    let (first, _) = scheduler.next_runnable().unwrap();
    assert_eq!(first, "big");
    assert!(scheduler.next_runnable().is_none());
    scheduler.enqueue("big".into(), "b2");
    scheduler.finish(&first);
    let (second, _) = scheduler.next_runnable().unwrap();
    assert_eq!(second, "small");
    scheduler.finish(&second);
    let (third, _) = scheduler.next_runnable().unwrap();
    assert_eq!(third, "big");
}

#[test]
fn fair_scheduler_full_drain_is_fair() {
    let mut scheduler = FairScheduler::<&'static str>::new(1);
    scheduler.enqueue("a".into(), "a1");
    scheduler.enqueue("b".into(), "b1");
    scheduler.enqueue("c".into(), "c1");
    assert_eq!(drain_order(&mut scheduler), vec!["a", "b", "c"]);
}

#[test]
fn fair_scheduler_finish_of_idle_project_is_harmless() {
    let mut scheduler = FairScheduler::<&'static str>::new(0);
    scheduler.finish("nobody");
    assert_eq!(scheduler.in_flight(), 0);
    scheduler.enqueue("a".into(), "a1");
    assert!(scheduler.next_runnable().is_some());
    assert!(scheduler.next_runnable().is_none());
}

#[test]
fn delayed_submission_cannot_replace_newer_queued_job() {
    assert!(queued_submission_is_newer(4, 5));
    assert!(!queued_submission_is_newer(5, 4));
    assert!(!queued_submission_is_newer(5, 5));
}

#[test]
fn stale_enqueue_task_is_rejected_before_durable_coalescing() {
    let mut service = RenderService::new();
    service.register_submission("project", 12);
    service.register_submission("project", 13);
    assert!(!service.is_latest_submission("project", 12));
    assert!(service.is_latest_submission("project", 13));
    assert!(!service.is_latest_submission("other", 13));
}

fn ticket(project: &str, commit: &str, seq: u64) -> RenderJobTicket {
    RenderJobTicket { project_id: project.to_string(), commit_hash: commit.to_string(), enqueue_sequence: seq }
}

#[test]
fn render_service_drops_delayed_older_submissions() {
    let mut service = RenderService::new();
    assert!(service.submit(ticket("p", "c5", 5), 2));
    assert!(!service.submit(ticket("p", "c4", 4), 2));
    assert!(!service.submit(ticket("p", "c5-again", 5), 2));
    assert!(service.submit(ticket("p", "c6", 6), 2));
    assert!(service.submit(ticket("q", "d1", 1), 2));
    let (project, job) = service.next_runnable().unwrap();
    assert_eq!(project, "p");
    assert_eq!(job.commit_hash, "c6");
    let (project, _) = service.next_runnable().unwrap();
    assert_eq!(project, "q");
    assert!(service.next_runnable().is_none());
    service.finish("p");
    assert!(service.next_runnable().is_none());
}

fn invocation() -> WorkerInvocation {
    WorkerInvocation {
        worker: "/rt/vex-render-worker.mjs".to_string(),
        ifc_path: "/stg/model.ifc".to_string(),
        out: "/stg".to_string(),
        project_id: "proj".to_string(),
        commit_hash: "deadbeef".to_string(),
        web_ifc_api: "/rt/web-ifc/web-ifc-api-node.js".to_string(),
        wasm_dir: "/rt/web-ifc".to_string(),
    }
}

#[test]
fn worker_args_place_bounded_heap_flag_before_the_script() {
    let args = build_worker_args(&invocation(), 2048);
    assert_eq!(args[0], "--max-old-space-size=2048");
    assert_eq!(args[1], "/rt/vex-render-worker.mjs");
    assert_eq!(
        args[2..].to_vec(),
        vec![
            "--ifc",
            "/stg/model.ifc",
            "--out",
            "/stg",
            "--project-id",
            "proj",
            "--commit",
            "deadbeef",
            "--web-ifc-api",
            "/rt/web-ifc/web-ifc-api-node.js",
            "--wasm-dir",
            "/rt/web-ifc",
        ]
    );
}

#[test]
fn worker_args_reflect_the_configured_heap_cap() {
    for heap in [512u64, 2048, 8192] {
        let args = build_worker_args(&invocation(), heap);
        assert_eq!(args[0], format!("--max-old-space-size={heap}"));
    }
}

#[test]
fn render_job_publishes_then_prunes_and_marks_ready() {
    let (job, a) = RenderJobRun::start("proj".to_string(), "c".repeat(64), 2048);
    assert_eq!(a, RenderJobAction::CheckStillQueued);
    let (job, a) = job.step(RenderJobEvent::StillQueued(true));
    assert_eq!(a, RenderJobAction::SetState(RenderJobState::Building));
    let (job, a) = job.step(RenderJobEvent::Done);
    assert_eq!(a, RenderJobAction::CreateStaging);
    let (job, a) = job.step(RenderJobEvent::Staged("/cache/.c-1.partial".to_string()));
    assert_eq!(a, RenderJobAction::Checkout("/cache/.c-1.partial/model.ifc".to_string()));
    let (job, a) = job.step(RenderJobEvent::CheckedOut(1024));
    assert_eq!(a, RenderJobAction::PrepareRuntime);
    let (job, a) = job.step(RenderJobEvent::RuntimeReady {
        worker: "/rt/w.mjs".to_string(),
        web_ifc_api: "/rt/web-ifc/api.js".to_string(),
        wasm_dir: "/rt/web-ifc".to_string(),
    });
    match &a {
        RenderJobAction::RunWorker(args) => {
            assert_eq!(args[0], "--max-old-space-size=2048");
            assert_eq!(args[3], "/cache/.c-1.partial/model.ifc");
            assert_eq!(args[5], "/cache/.c-1.partial");
        },
        other => panic!("unexpected action {other:?}"),
    }
    let (job, a) = job.step(RenderJobEvent::Done);
    assert_eq!(a, RenderJobAction::RemoveFile("/cache/.c-1.partial/model.ifc".to_string()));
    let (job, a) = job.step(RenderJobEvent::Done);
    assert_eq!(a, RenderJobAction::Publish("/cache/.c-1.partial".to_string()));
    let (job, a) = job.step(RenderJobEvent::Published("/cache/ccc".to_string()));
    assert_eq!(a, RenderJobAction::Prune("c".repeat(64)));
    let (job, a) = job.step(RenderJobEvent::Done);
    assert_eq!(a, RenderJobAction::SetState(RenderJobState::Ready));
    let (job, a) = job.step(RenderJobEvent::Done);
    assert_eq!(a, RenderJobAction::Finish);
    assert_eq!(job.stage, RenderJobStage::Finished);
}

#[test]
fn render_job_empty_checkout_fails_and_cleans_staging() {
    let (job, _) = RenderJobRun::start("proj".to_string(), "c".repeat(64), 2048);
    let (job, _) = job.step(RenderJobEvent::StillQueued(true));
    let (job, _) = job.step(RenderJobEvent::Done);
    let (job, _) = job.step(RenderJobEvent::Staged("/s".to_string()));
    let (job, a) = job.step(RenderJobEvent::CheckedOut(0));
    assert_eq!(a, RenderJobAction::RemoveStaging("/s".to_string()));
    let (job, a) = job.step(RenderJobEvent::Done);
    assert_eq!(
        a,
        RenderJobAction::SetState(RenderJobState::Failed {
            message: "invalid configuration: vex checkout returned an empty IFC for render generation".to_string(),
            retryable: true,
        })
    );
    let (_, a) = job.step(RenderJobEvent::Done);
    assert_eq!(a, RenderJobAction::Finish);
}

#[test]
fn render_job_skips_superseded_work() {
    let (job, _) = RenderJobRun::start("proj".to_string(), "c".repeat(64), 2048);
    let (job, a) = job.step(RenderJobEvent::StillQueued(false));
    assert_eq!(a, RenderJobAction::Finish);
    assert_eq!(job.stage, RenderJobStage::Finished);
}

fn candidate(commit: char, size: u64, last_access: i64, protected: bool) -> CacheCandidate {
    CacheCandidate { commit: commit.to_string().repeat(64), size, last_access, protected }
}

fn prune(candidates: &Vec<CacheCandidate>, max_bytes: u64, recheck_ok: &dyn Fn(usize) -> bool) -> (Vec<String>, u64) {
    let mut pass = PrunePass::start(candidates, max_bytes);
    while let Some(i) = pass.next_target() {
        if recheck_ok(i) {
            pass.removed(candidates);
        } else {
            pass.kept(candidates);
        }
    }
    let report = pass.report(candidates.len());
    (report.evicted, report.retained_bytes)
}

#[test]
fn prune_evicts_least_recently_served_until_under_the_cap() {
    let cs = vec![candidate('a', 100, 30, false), candidate('b', 100, 10, false), candidate('c', 100, 20, false)];
    let (evicted, retained) = prune(&cs, 150, &|_| true);
    assert_eq!(evicted, vec!["b".repeat(64), "c".repeat(64)]);
    assert_eq!(retained, 100);
    let (evicted, retained) = prune(&cs, 300, &|_| true);
    assert!(evicted.is_empty());
    assert_eq!(retained, 300);
}

#[test]
fn prune_never_evicts_protected_or_rechecked_artifacts() {
    let cs = vec![candidate('a', 100, 1, true), candidate('b', 100, 2, false), candidate('c', 100, 3, false)];
    let (evicted, retained) = prune(&cs, 0, &|i| i != 1);
    assert_eq!(evicted, vec!["c".repeat(64)]);
    assert_eq!(retained, 200);
    assert_eq!(eviction_order(&cs), vec![1, 2]);
}

#[test]
fn eviction_ties_break_by_commit() {
    let cs = vec![candidate('d', 1, 5, false), candidate('b', 1, 5, false), candidate('c', 1, 4, false)];
    assert_eq!(eviction_order(&cs), vec![2, 1, 0]);
}

#[test]
fn serve_registry_counts_overlapping_serves() {
    let mut registry = ServeRegistry::new();
    assert!(!registry.is_being_served("/cache/a"));
    let g1 = registry.acquire("/cache/a");
    let g2 = registry.acquire("/cache/a");
    assert!(registry.is_being_served("/cache/a"));
    registry.release(g1);
    assert!(registry.is_being_served("/cache/a"));
    registry.release(g2);
    assert!(!registry.is_being_served("/cache/a"));
}

#[test]
fn cache_layout_and_staging_names() {
    assert_eq!(render_cache_root("/proj"), "/proj/.vex/cache/render");
    assert_eq!(staging_dir_name("abc", "u1"), ".abc-u1.partial");
    assert!(is_staging_name(".abc-u1.partial"));
    assert!(!is_staging_name("abc.partial"));
    assert!(is_commit_hash(&"f".repeat(64)));
    assert!(!is_commit_hash("render-runtime-v1"));
    assert!(validate_commit_hash(&"0".repeat(64)).is_ok());
    assert!(matches!(validate_commit_hash("abc"), Err(BridgeError::Config(_))));
    assert!(check_staging_owned("/c/render", "/c/render/.x.partial").is_ok());
    assert!(check_staging_owned("/c/render", "/c/render/sub/.x.partial").is_err());
    assert!(check_staging_owned("/c/render", "/elsewhere/.x.partial").is_err());
    assert!(check_staging_owned("/c/render", "/c/render/x").is_err());
    assert_eq!(
        already_published("abc"),
        BridgeError::Config("a render artifact is already published for commit `abc`".to_string())
    );
}

fn manifest_with(bytes: &[u8]) -> RenderArtifactManifest {
    let digest = object_digest(bytes);
    let resource = RenderArtifactResource {
        uri: "/render/object".to_string(),
        content_type: "application/octet-stream".to_string(),
        sha256: digest,
        byte_length: bytes.len() as u64,
    };
    RenderArtifactManifest {
        schema: RENDER_MANIFEST_V2.to_string(),
        project_id: "project-a".to_string(),
        commit_hash: "a".repeat(64),
        artifact_id: "test-artifact".to_string(),
        generated_at: "2026-07-17T00:00:00Z".to_string(),
        render_policy: Some(RenderPolicy {
            id: "vex.render-policy.full-model/1".to_string(),
            hash: object_digest(b"policy"),
        }),
        tiles: vec![RenderTileDescriptor {
            tile_id: "full-model".to_string(),
            lod: 0,
            group: None,
            bounds: RenderBounds { min: [0.0f64.to_bits(); 3], max: [1.0f64.to_bits(); 3] },
            geometric_error: 0.0f64.to_bits(),
            artifact: resource.clone(),
            semantic_index: Some(RenderSemanticIndexDescriptor {
                schema: RENDER_SEMANTIC_INDEX.to_string(),
                entry_count: 1,
                artifact: resource,
            }),
        }],
        semantic_index: None,
    }
}

#[test]
fn object_digests_are_lowercase_sha256() {
    assert_eq!(object_digest(b""), "e3b0c44298fc1c149afbf4c8996fb92427ae41e4649b934ca495991b7852b855");
    assert_eq!(object_digest(b"abc"), "ba7816bf8f01cfea414140de5dae2223b00361a396177a9cb410ff61f20015ad");
}

#[test]
fn publication_checks_identity_and_objects() {
    let bytes = b"tile-and-semantic-index";
    let m = manifest_with(bytes);
    assert!(validate_manifest_identity(&m, "project-a", &"a".repeat(64)).is_ok());
    assert_eq!(
        validate_manifest_identity(&m, "project-b", &"a".repeat(64)),
        Err(BridgeError::Config("render artifact manifest identity does not match its target commit".to_string()))
    );
    let mut invalid = m.clone();
    invalid.render_policy = None;
    assert_eq!(
        validate_manifest_identity(&invalid, "project-a", &"a".repeat(64)),
        Err(BridgeError::Config(
            "render artifact manifest failed validation: render_policy must not be empty".to_string()
        ))
    );
    // Both resources share one digest, so one object is checked.
    assert_eq!(objects_to_verify(&m), vec![0]);
    let res = &m.tiles[0].artifact;
    assert!(check_object(res, bytes).is_ok());
    assert!(matches!(check_object(res, b"tampered-and-semantic-i"), Err(BridgeError::Config(msg)) if msg.ends_with("does not match its manifest digest")));
    assert!(matches!(check_object(res, b"short"), Err(BridgeError::Config(msg)) if msg.ends_with("length does not match its manifest")));
}

#[test]
fn access_markers_round_trip_and_fall_back_to_the_manifest_time() {
    assert_eq!(access_marker_text(1_706_000_000), "1706000000");
    assert_eq!(access_marker_time(" 1706000000\n"), Some(1_706_000_000));
    assert_eq!(access_marker_time("-42"), Some(-42));
    assert_eq!(access_marker_time("+7"), Some(7));
    assert_eq!(access_marker_time("-9223372036854775808"), Some(i64::MIN));
    assert_eq!(access_marker_time("9223372036854775808"), None);
    assert_eq!(access_marker_time("soon"), None);
    assert_eq!(access_marker_time(""), None);
    assert_eq!(last_access(Some("12"), Some(99)), 12);
    assert_eq!(last_access(Some("garbled"), Some(99)), 99);
    assert_eq!(last_access(None, None), 0);
}

#[test]
fn a_held_serve_protects_its_artifact_until_the_last_guard_is_released() {
    let root = "/p/.vex/cache/render";
    let commit = "a".repeat(64);
    let key = artifact_serve_key(root, &commit);
    assert_eq!(key, format!("{root}/{commit}"));
    let mut registry = ServeRegistry::new();
    let first = registry.acquire(&key);
    let second = registry.acquire(&key);
    assert!(is_protected(&registry, root, &commit, false));
    let candidates = vec![CacheCandidate { commit: commit.clone(), size: 10, last_access: 0, protected: true }];
    let mut pass = PrunePass::start(&candidates, 0);
    while let Some(_) = pass.next_target() {
        pass.removed(&candidates);
    }
    assert!(pass.report(1).evicted.is_empty());
    registry.release(first);
    assert!(is_protected(&registry, root, &commit, false));
    registry.release(second);
    assert!(!is_protected(&registry, root, &commit, false));
    assert!(is_protected(&registry, root, &commit, true));
}

#[test]
fn candidates_built_from_the_registry_protect_served_artifacts() {
    let root = "/p/.vex/cache/render";
    let served = "b".repeat(64);
    let idle = "c".repeat(64);
    let mut registry = ServeRegistry::new();
    let guard = registry.acquire(&artifact_serve_key(root, &served));
    let candidates = vec![
        protected_candidate(&registry, root, served.clone(), 10, 0, false),
        protected_candidate(&registry, root, idle.clone(), 10, 5, false),
    ];
    assert!(candidates[0].protected && !candidates[1].protected);
    let mut pass = PrunePass::start(&candidates, 0);
    while let Some(_) = pass.next_target() {
        pass.removed(&candidates);
    }
    assert_eq!(pass.report(2).evicted, vec![idle]);
    registry.release(guard);
    assert!(!protected_candidate(&registry, root, served, 10, 0, false).protected);
}
