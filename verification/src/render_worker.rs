//! One render job from the queue to a published artifact: the sequence of
//! steps, the worker's command line, and what the job records at each end.
//! The daemon carries out each step and reports its outcome.

use vstd::prelude::*;
use crate::text::{chars_of, string_of, cat, owned, dec, dec_chars, path_join, path_join_vec};
use crate::errors::{BridgeError, spec_error_message};

verus! {

/// Where the paths of one worker run point.
#[derive(Debug, Clone, PartialEq, Eq)]
pub struct WorkerInvocation {
    pub worker: String,
    pub ifc_path: String,
    pub out: String,
    pub project_id: String,
    pub commit_hash: String,
    pub web_ifc_api: String,
    pub wasm_dir: String,
}

/// The Node command line of a worker run: the heap cap is a runtime flag and
/// comes before the script; every later argument is the script's.
pub open spec fn spec_worker_args(inv: WorkerInvocation, heap_mb: u64) -> Seq<Seq<char>> {
    seq![
        "--max-old-space-size="@ + dec(heap_mb as nat),
        inv.worker@,
        "--ifc"@,
        inv.ifc_path@,
        "--out"@,
        inv.out@,
        "--project-id"@,
        inv.project_id@,
        "--commit"@,
        inv.commit_hash@,
        "--web-ifc-api"@,
        inv.web_ifc_api@,
        "--wasm-dir"@,
        inv.wasm_dir@,
    ]
}

/// The argument vector for one worker run.
pub fn build_worker_args(inv: &WorkerInvocation, heap_mb: u64) -> (r: Vec<String>)
    ensures
        r@.map_values(|a: String| a@) == spec_worker_args(*inv, heap_mb),
{
    let mut args: Vec<String> = Vec::new();
    args.push(string_of(&cat(&chars_of("--max-old-space-size="), &dec_chars(heap_mb))));
    args.push(inv.worker.clone());
    args.push(owned("--ifc"));
    args.push(inv.ifc_path.clone());
    args.push(owned("--out"));
    args.push(inv.out.clone());
    args.push(owned("--project-id"));
    args.push(inv.project_id.clone());
    args.push(owned("--commit"));
    args.push(inv.commit_hash.clone());
    args.push(owned("--web-ifc-api"));
    args.push(inv.web_ifc_api.clone());
    args.push(owned("--wasm-dir"));
    args.push(inv.wasm_dir.clone());
    proof {
        assert(args@.map_values(|a: String| a@) =~= spec_worker_args(*inv, heap_mb));
    }
    args
}

/// The durable state of one commit's render job.
#[derive(Debug, Clone, PartialEq, Eq)]
pub enum RenderJobState {
    Queued,
    Building,
    Ready,
    Failed { message: String, retryable: bool },
}

#[derive(Debug, Clone, Copy, PartialEq, Eq)]
pub enum RenderJobStage {
    CheckingQueued,
    MarkingBuilding,
    CreatingStaging,
    CheckingOut,
    PreparingRuntime,
    RunningWorker,
    RemovingCheckout,
    Publishing,
    CleaningStaging,
    MarkingFailed,
    Pruning,
    MarkingReady,
    Finished,
}

/// What the daemon must do next for a render job.
#[derive(Debug, Clone, PartialEq, Eq)]
pub enum RenderJobAction {
    /// Report whether the durable state still lists this commit as queued.
    CheckStillQueued,
    /// Record the job's state and save it.
    SetState(RenderJobState),
    /// Create an empty staging directory in the project's render cache.
    CreateStaging,
    /// Check the commit's IFC out to this path; report its size.
    Checkout(String),
    /// Install the worker runtime files; report their paths.
    PrepareRuntime,
    /// Run Node with these arguments under the job's time limit.
    RunWorker(Vec<String>),
    /// Delete this file.
    RemoveFile(String),
    /// Validate and publish this staging directory.
    Publish(String),
    /// Delete this staging directory.
    RemoveStaging(String),
    /// Bound the cache, protecting this commit.
    Prune(String),
    /// The job is over.
    Finish,
}

/// The outcome of the last action.
#[derive(Debug, Clone, PartialEq, Eq)]
pub enum RenderJobEvent {
    Done,
    Failed(BridgeError),
    StillQueued(bool),
    Staged(String),
    CheckedOut(u64),
    RuntimeReady { worker: String, web_ifc_api: String, wasm_dir: String },
    Published(String),
}

/// One render job.
#[derive(Debug, Clone, PartialEq, Eq)]
pub struct RenderJobRun {
    pub project_id: String,
    pub commit_hash: String,
    /// Node's old-space heap cap for the worker, in MiB.
    pub heap_mb: u64,
    pub stage: RenderJobStage,
    pub staging: String,
    pub failure: Option<BridgeError>,
}

pub open spec fn render_accepts(stage: RenderJobStage, e: RenderJobEvent) -> bool {
    match stage {
        RenderJobStage::CheckingQueued => e is StillQueued,
        RenderJobStage::CreatingStaging => e is Staged || e is Failed,
        RenderJobStage::CheckingOut => e is CheckedOut || e is Failed,
        RenderJobStage::PreparingRuntime => e is RuntimeReady || e is Failed,
        RenderJobStage::Publishing => e is Published || e is Failed,
        RenderJobStage::Finished => false,
        _ => e is Done || e is Failed,
    }
}

pub open spec fn render_wf(r: RenderJobRun) -> bool {
    r.stage == RenderJobStage::CleaningStaging ==> r.failure is Some
}

/// The checkout path inside a staging directory.
pub open spec fn staged_ifc(staging: Seq<char>) -> Seq<char> {
    path_join(staging, "model.ifc"@)
}

pub open spec fn empty_checkout_message() -> Seq<char> {
    "vex checkout returned an empty IFC for render generation"@
}

/// Generation failed with `e`: the staging directory is removed, then the job is marked failed.
pub open spec fn render_fails(r: RenderJobRun, e: BridgeError, n: RenderJobRun, a: RenderJobAction) -> bool {
    n.stage == RenderJobStage::CleaningStaging && n.failure == Some(e) && a == RenderJobAction::RemoveStaging(r.staging)
}

/// A failure recorded as retryable with the error's message.
pub open spec fn marks_failed(e: BridgeError, a: RenderJobAction) -> bool {
    a matches RenderJobAction::SetState(RenderJobState::Failed { message, retryable }) && message@ == spec_error_message(e)
        && retryable
}

/// One render-job transition: skip a job no longer queued; mark it building;
/// stage, check out (an empty checkout is an error), install the runtime, run
/// the worker, drop the checkout and publish; on success bound the cache and
/// mark it ready; on a generation failure clean the staging directory and
/// mark it failed (retryable). Failing to mark it building ends the job.
pub open spec fn render_job_next(r: RenderJobRun, e: RenderJobEvent, n: RenderJobRun, a: RenderJobAction) -> bool {
    &&& n.project_id == r.project_id
    &&& n.commit_hash == r.commit_hash
    &&& n.heap_mb == r.heap_mb
    &&& match (r.stage, e) {
        (RenderJobStage::CheckingQueued, RenderJobEvent::StillQueued(q)) => if q {
            n.stage == RenderJobStage::MarkingBuilding && a == RenderJobAction::SetState(RenderJobState::Building)
        } else {
            n.stage == RenderJobStage::Finished && a == RenderJobAction::Finish
        },
        (RenderJobStage::MarkingBuilding, RenderJobEvent::Failed(_)) => n.stage == RenderJobStage::Finished && a
            == RenderJobAction::Finish,
        (RenderJobStage::MarkingBuilding, _) => n.stage == RenderJobStage::CreatingStaging && a
            == RenderJobAction::CreateStaging,
        (RenderJobStage::CreatingStaging, RenderJobEvent::Staged(dir)) => n.stage == RenderJobStage::CheckingOut
            && n.staging == dir && (a matches RenderJobAction::Checkout(p) && p@ == staged_ifc(dir@)),
        (RenderJobStage::CreatingStaging, RenderJobEvent::Failed(err)) => n.stage == RenderJobStage::MarkingFailed
            && marks_failed(err, a),
        (RenderJobStage::CheckingOut, RenderJobEvent::CheckedOut(bytes)) => if bytes == 0 {
            n.stage == RenderJobStage::CleaningStaging && (n.failure matches Some(BridgeError::Config(m)) && m@
                == empty_checkout_message()) && a == RenderJobAction::RemoveStaging(r.staging)
        } else {
            n.stage == RenderJobStage::PreparingRuntime && n.staging == r.staging && a == RenderJobAction::PrepareRuntime
        },
        (RenderJobStage::PreparingRuntime, RenderJobEvent::RuntimeReady { worker, web_ifc_api, wasm_dir }) => n.stage
            == RenderJobStage::RunningWorker && n.staging == r.staging && (a matches RenderJobAction::RunWorker(args)
            && args@.map_values(|x: String| x@) == spec_worker_args(
            WorkerInvocation {
                worker,
                ifc_path: args@[3],
                out: r.staging,
                project_id: r.project_id,
                commit_hash: r.commit_hash,
                web_ifc_api,
                wasm_dir,
            },
            r.heap_mb,
        ) && args@[3]@ == staged_ifc(r.staging@)),
        (RenderJobStage::RunningWorker, RenderJobEvent::Done) => n.stage == RenderJobStage::RemovingCheckout
            && n.staging == r.staging && (a matches RenderJobAction::RemoveFile(p) && p@ == staged_ifc(r.staging@)),
        (RenderJobStage::RemovingCheckout, RenderJobEvent::Done) => n.stage == RenderJobStage::Publishing && n.staging
            == r.staging && a == RenderJobAction::Publish(r.staging),
        (RenderJobStage::Publishing, RenderJobEvent::Published(_)) => n.stage == RenderJobStage::Pruning && a
            == RenderJobAction::Prune(r.commit_hash),
        (RenderJobStage::CheckingOut, RenderJobEvent::Failed(err)) => render_fails(r, err, n, a),
        (RenderJobStage::PreparingRuntime, RenderJobEvent::Failed(err)) => render_fails(r, err, n, a),
        (RenderJobStage::RunningWorker, RenderJobEvent::Failed(err)) => render_fails(r, err, n, a),
        (RenderJobStage::RemovingCheckout, RenderJobEvent::Failed(err)) => render_fails(r, err, n, a),
        (RenderJobStage::Publishing, RenderJobEvent::Failed(err)) => render_fails(r, err, n, a),
        (RenderJobStage::CleaningStaging, _) => n.stage == RenderJobStage::MarkingFailed && (r.failure matches Some(
            err,
        ) && marks_failed(err, a)),
        (RenderJobStage::Pruning, _) => n.stage == RenderJobStage::MarkingReady && a == RenderJobAction::SetState(
            RenderJobState::Ready,
        ),
        (RenderJobStage::MarkingReady, _) => n.stage == RenderJobStage::Finished && a == RenderJobAction::Finish,
        (RenderJobStage::MarkingFailed, _) => n.stage == RenderJobStage::Finished && a == RenderJobAction::Finish,
        _ => false,
    }
}

fn failed_state(e: &BridgeError) -> (a: RenderJobAction)
    ensures
        marks_failed(*e, a),
{
    RenderJobAction::SetState(RenderJobState::Failed { message: e.message(), retryable: true })
}

impl RenderJobRun {
    /// A job for one commit; it first checks it is still queued.
    pub fn start(project_id: String, commit_hash: String, heap_mb: u64) -> (r: (RenderJobRun, RenderJobAction))
        ensures
            r.0.project_id == project_id,
            r.0.commit_hash == commit_hash,
            r.0.heap_mb == heap_mb,
            r.0.stage == RenderJobStage::CheckingQueued,
            render_wf(r.0),
            r.1 == RenderJobAction::CheckStillQueued,
    {
        (
            RenderJobRun {
                project_id,
                commit_hash,
                heap_mb,
                stage: RenderJobStage::CheckingQueued,
                staging: String::new(),
                failure: None,
            },
            RenderJobAction::CheckStillQueued,
        )
    }

    /// Whether the job waits for an event of this shape.
    pub fn accepts(&self, e: &RenderJobEvent) -> (r: bool)
        ensures
            r == render_accepts(self.stage, *e),
    {
        match self.stage {
            RenderJobStage::CheckingQueued => matches!(e, RenderJobEvent::StillQueued(_)),
            RenderJobStage::CreatingStaging => matches!(e, RenderJobEvent::Staged(_) | RenderJobEvent::Failed(_)),
            RenderJobStage::CheckingOut => matches!(e, RenderJobEvent::CheckedOut(_) | RenderJobEvent::Failed(_)),
            RenderJobStage::PreparingRuntime => matches!(e, RenderJobEvent::RuntimeReady { .. } | RenderJobEvent::Failed(_)),
            RenderJobStage::Publishing => matches!(e, RenderJobEvent::Published(_) | RenderJobEvent::Failed(_)),
            RenderJobStage::Finished => false,
            _ => matches!(e, RenderJobEvent::Done | RenderJobEvent::Failed(_)),
        }
    }

    fn ifc_path(&self) -> (p: String)
        ensures
            p@ == staged_ifc(self.staging@),
    {
        string_of(&path_join_vec(&chars_of(self.staging.as_str()), &chars_of("model.ifc")))
    }

    /// Advance the job by the outcome of its last action.
    pub fn step(self, e: RenderJobEvent) -> (r: (RenderJobRun, RenderJobAction))
        requires
            render_wf(self),
            render_accepts(self.stage, e),
        ensures
            render_job_next(self, e, r.0, r.1),
            render_wf(r.0),
    {
        let mut n = self;
        match n.stage {
            RenderJobStage::CheckingQueued => {
                if matches!(e, RenderJobEvent::StillQueued(true)) {
                    n.stage = RenderJobStage::MarkingBuilding;
                    (n, RenderJobAction::SetState(RenderJobState::Building))
                } else {
                    n.stage = RenderJobStage::Finished;
                    (n, RenderJobAction::Finish)
                }
            },
            RenderJobStage::MarkingBuilding => {
                if matches!(e, RenderJobEvent::Failed(_)) {
                    n.stage = RenderJobStage::Finished;
                    (n, RenderJobAction::Finish)
                } else {
                    n.stage = RenderJobStage::CreatingStaging;
                    (n, RenderJobAction::CreateStaging)
                }
            },
            RenderJobStage::CreatingStaging => match e {
                RenderJobEvent::Staged(dir) => {
                    n.staging = dir;
                    let p = n.ifc_path();
                    n.stage = RenderJobStage::CheckingOut;
                    (n, RenderJobAction::Checkout(p))
                },
                RenderJobEvent::Failed(err) => {
                    n.stage = RenderJobStage::MarkingFailed;
                    let a = failed_state(&err);
                    (n, a)
                },
                _ => {
                    proof {
                        assert(false);
                    }
                    (n, RenderJobAction::Finish)
                },
            },
            RenderJobStage::CheckingOut => match e {
                RenderJobEvent::CheckedOut(bytes) => {
                    if bytes == 0 {
                        let staging = n.staging.clone();
                        n.failure = Some(
                            BridgeError::Config(owned("vex checkout returned an empty IFC for render generation")),
                        );
                        n.stage = RenderJobStage::CleaningStaging;
                        (n, RenderJobAction::RemoveStaging(staging))
                    } else {
                        n.stage = RenderJobStage::PreparingRuntime;
                        (n, RenderJobAction::PrepareRuntime)
                    }
                },
                RenderJobEvent::Failed(err) => n.fail(err),
                _ => {
                    proof {
                        assert(false);
                    }
                    (n, RenderJobAction::Finish)
                },
            },
            RenderJobStage::PreparingRuntime => match e {
                RenderJobEvent::RuntimeReady { worker, web_ifc_api, wasm_dir } => {
                    let inv = WorkerInvocation {
                        worker,
                        ifc_path: n.ifc_path(),
                        out: n.staging.clone(),
                        project_id: n.project_id.clone(),
                        commit_hash: n.commit_hash.clone(),
                        web_ifc_api,
                        wasm_dir,
                    };
                    let args = build_worker_args(&inv, n.heap_mb);
                    proof {
                        assert(spec_worker_args(inv, n.heap_mb).len() == 14);
                        assert(args@.map_values(|x: String| x@).len() == args@.len());
                        assert(args@.map_values(|x: String| x@)[3] == inv.ifc_path@);
                        assert(args@[3]@ == inv.ifc_path@);
                    }
                    n.stage = RenderJobStage::RunningWorker;
                    (n, RenderJobAction::RunWorker(args))
                },
                RenderJobEvent::Failed(err) => n.fail(err),
                _ => {
                    proof {
                        assert(false);
                    }
                    (n, RenderJobAction::Finish)
                },
            },
            RenderJobStage::RunningWorker => match e {
                RenderJobEvent::Failed(err) => n.fail(err),
                _ => {
                    let p = n.ifc_path();
                    n.stage = RenderJobStage::RemovingCheckout;
                    (n, RenderJobAction::RemoveFile(p))
                },
            },
            RenderJobStage::RemovingCheckout => match e {
                RenderJobEvent::Failed(err) => n.fail(err),
                _ => {
                    let staging = n.staging.clone();
                    n.stage = RenderJobStage::Publishing;
                    (n, RenderJobAction::Publish(staging))
                },
            },
            RenderJobStage::Publishing => match e {
                RenderJobEvent::Failed(err) => n.fail(err),
                _ => {
                    let commit = n.commit_hash.clone();
                    n.stage = RenderJobStage::Pruning;
                    (n, RenderJobAction::Prune(commit))
                },
            },
            RenderJobStage::CleaningStaging => {
                let a = match &n.failure {
                    Some(err) => failed_state(err),
                    None => {
                        proof {
                            assert(false);
                        }
                        RenderJobAction::Finish
                    },
                };
                n.stage = RenderJobStage::MarkingFailed;
                (n, a)
            },
            RenderJobStage::Pruning => {
                n.stage = RenderJobStage::MarkingReady;
                (n, RenderJobAction::SetState(RenderJobState::Ready))
            },
            _ => {
                n.stage = RenderJobStage::Finished;
                (n, RenderJobAction::Finish)
            },
        }
    }

    fn fail(self, err: BridgeError) -> (r: (RenderJobRun, RenderJobAction))
        ensures
            r.0.project_id == self.project_id,
            r.0.commit_hash == self.commit_hash,
            r.0.heap_mb == self.heap_mb,
            render_fails(self, err, r.0, r.1),
            render_wf(r.0),
    {
        let mut n = self;
        let staging = n.staging.clone();
        n.failure = Some(err);
        n.stage = RenderJobStage::CleaningStaging;
        (n, RenderJobAction::RemoveStaging(staging))
    }
}

/// The directory of the worker runtime inside a project's render cache.
pub const RUNTIME_DIR: &'static str = "render-runtime-v1";

/// Where the worker runtime lives for a project: the worker script beside the
/// `web-ifc` directory, which holds the Node API and the WebAssembly module.
#[derive(Debug, Clone, PartialEq, Eq)]
pub struct RuntimePaths {
    pub worker: String,
    pub web_ifc_api: String,
    pub wasm: String,
    pub wasm_dir: String,
}

pub fn runtime_paths(project_dir: &str) -> (r: RuntimePaths)
    ensures
        ({
            let base = path_join(crate::render_cache::spec_render_cache_root(project_dir@), RUNTIME_DIR@);
            &&& r.wasm_dir@ == path_join(base, "web-ifc"@)
            &&& r.worker@ == path_join(base, "vex-render-worker.mjs"@)
            &&& r.web_ifc_api@ == path_join(r.wasm_dir@, "web-ifc-api-node.js"@)
            &&& r.wasm@ == path_join(r.wasm_dir@, "web-ifc-node.wasm"@)
        }),
{
    let root = crate::render_cache::render_cache_root(project_dir);
    let base = path_join_vec(&chars_of(root.as_str()), &chars_of(RUNTIME_DIR));
    let wasm_dir = path_join_vec(&base, &chars_of("web-ifc"));
    RuntimePaths {
        worker: string_of(&path_join_vec(&base, &chars_of("vex-render-worker.mjs"))),
        web_ifc_api: string_of(&path_join_vec(&wasm_dir, &chars_of("web-ifc-api-node.js"))),
        wasm: string_of(&path_join_vec(&wasm_dir, &chars_of("web-ifc-node.wasm"))),
        wasm_dir: string_of(&wasm_dir),
    }
}

} // verus!
