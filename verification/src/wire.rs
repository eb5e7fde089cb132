//! Request and response shapes of the bridge's local HTTP API.
//!
//! These are plain data records shared by the daemon and its desktop clients.
//! Encoding them as JSON is done by mirror types outside the library; the
//! library builds and inspects the records themselves.

use vstd::prelude::*;
use crate::text::owned;
use crate::render_manifest::RenderArtifactManifest;
use crate::federation::FederationTransform;

verus! {

/// `GET /v1/health`: daemon liveness and version probe.
#[derive(Debug, Clone, PartialEq, Eq)]
pub struct Health {
    pub version: String,
    pub paired: bool,
    /// Path the daemon runs when shelling out to vex.
    pub vex_bin: String,
    pub vex_version: Option<String>,
    /// Visual-diff schema this bridge expects from the bundled engine.
    pub expected_visual_diff_schema: Option<String>,
    /// Whether the running engine reports a compatible schema.
    pub vex_schema_compatible: Option<bool>,
    pub uptime_seconds: u64,
}

/// `GET /v1/update/check`: whether a newer bridge release exists.
#[derive(Debug, Clone, PartialEq, Eq)]
pub struct UpdateInfo {
    pub current_version: String,
    pub latest_version: Option<String>,
    /// True when `latest_version` is strictly newer than `current_version`.
    pub update_available: bool,
    /// `stable` or `canary`.
    pub channel: String,
    pub release_url: Option<String>,
    pub release_notes: Option<String>,
    pub published_at: Option<String>,
    pub installer_url: Option<String>,
    /// Lowercase hex SHA-256 of the installer asset.
    pub installer_sha256: Option<String>,
    pub can_apply: bool,
    pub checked_at: String,
    pub error: Option<String>,
}

/// `POST /v1/update/apply`: outcome of an in-app update attempt.
#[derive(Debug, Clone, PartialEq, Eq)]
pub struct UpdateApplyResponse {
    pub launched: bool,
    pub target_version: Option<String>,
    pub release_url: Option<String>,
    pub error: Option<String>,
}

/// `POST /v1/pair/start`: begin pairing with the cloud account.
#[derive(Debug, Clone, PartialEq, Eq)]
pub struct PairStartRequest {
    pub device_label: String,
    /// Ask the daemon itself to open the pairing URL.
    pub open_browser: bool,
}

/// The code and URL shown to the user while pairing.
#[derive(Debug, Clone, PartialEq, Eq)]
pub struct PairStartResponse {
    pub code: String,
    pub pair_url: String,
    /// RFC 3339 expiry time.
    pub expires_at: String,
}

/// `GET /v1/pair/status`: the daemon's pairing state.
#[derive(Debug, Clone, PartialEq, Eq)]
pub enum PairStatus {
    Unpaired,
    Pending { code: String, pair_url: String, expires_at: String },
    Paired {
        device_label: String,
        key_fingerprint: String,
        paired_at: String,
        account_id: Option<String>,
        account_email: Option<String>,
        account_name: Option<String>,
    },
}

/// `POST /v1/repo/init`: create a local repository for a project.
#[derive(Debug, Clone, PartialEq, Eq)]
pub struct RepoInitRequest {
    pub project_id: String,
    pub project_name: String,
    pub local_path: Option<String>,
    pub remote_url: String,
}

#[derive(Debug, Clone, PartialEq, Eq)]
pub struct RepoInitResponse {
    pub local_path: String,
    pub already_existed: bool,
}

/// `POST /v1/repo/commit`: commit the current state of a repository.
#[derive(Debug, Clone, PartialEq, Eq)]
pub struct CommitRequest {
    pub project_id: String,
    pub message: String,
    pub author_name: Option<String>,
    pub author_email: Option<String>,
}

#[derive(Debug, Clone, PartialEq, Eq)]
pub struct CommitResponse {
    pub commit_hash: String,
    pub files_changed: u32,
}

/// `POST /v1/repo/push`: push a local repository to its remote.
#[derive(Debug, Clone, PartialEq, Eq)]
pub struct PushRequest {
    pub project_id: String,
    pub branch: Option<String>,
    /// Cloud repository chosen as this project's destination.
    pub cloud_project_id: Option<String>,
}

/// A cloud repository the paired account may push to.
#[derive(Debug, Clone, PartialEq, Eq)]
pub struct CloudProject {
    pub id: String,
    pub owner_slug: String,
    pub owner_name: String,
    pub slug: String,
    pub full_name: String,
    pub default_branch: String,
    pub has_commits: bool,
}

/// `POST /v1/repo/register`: bind a local directory to a project.
#[derive(Debug, Clone, PartialEq, Eq)]
pub struct RepoRegisterRequest {
    pub project_id: String,
    pub local_path: Option<String>,
    /// File globs to commit; `["*.ifc"]` when absent.
    pub include_globs: Option<Vec<String>>,
    /// `IfcProject.GlobalId` or `fingerprint:<hash>` route.
    pub ifc_project_guid: Option<String>,
    pub project_name: Option<String>,
    /// Whether remapping an existing project to another path is allowed.
    pub allow_replace: bool,
}

#[derive(Debug, Clone, PartialEq, Eq)]
pub struct RepoRegisterResponse {
    pub project_id: String,
    pub local_path: String,
    pub include_globs: Vec<String>,
    pub ifc_project_guid: Option<String>,
    pub project_name: Option<String>,
    /// A previous entry for this project was replaced.
    pub replaced: bool,
    /// The daemon now watches this project.
    pub watching: bool,
    pub project_id_auto_generated: Option<bool>,
}

/// `GET /v1/setup/status`: first-run UI state.
#[derive(Debug, Clone, PartialEq, Eq)]
pub struct SetupStatus {
    pub paired: bool,
    pub pair_status: PairStatus,
    pub default_device_label: String,
    pub inbox_root_path: String,
    pub needs_inbox: bool,
    pub suggested_inbox_path: String,
    pub config_path: String,
    pub state_path: String,
    pub watch: WatchStatus,
}

/// `POST /v1/setup/inbox`: create or update the first watched inbox.
#[derive(Debug, Clone, PartialEq, Eq)]
pub struct SetupInboxRequest {
    pub project_id: Option<String>,
    pub project_name: Option<String>,
    pub folder_name: Option<String>,
    pub local_path: Option<String>,
    pub include_globs: Option<Vec<String>>,
    pub ifc_project_guid: Option<String>,
}

#[derive(Debug, Clone, PartialEq, Eq)]
pub struct SetupInboxResponse {
    pub repo: RepoRegisterResponse,
    pub watch: WatchStatus,
}

/// `GET /v1/watch/status`: watcher overview for tray and dashboard.
#[derive(Debug, Clone, PartialEq, Eq)]
pub struct WatchStatus {
    pub active_watchers: usize,
    pub configured_projects: usize,
    pub seen_ifc_hash_count: usize,
    /// Commits made locally and not yet pushed.
    pub pending_push_count: usize,
    pub projects: Vec<ProjectSummary>,
}

/// One project row of the desktop UI.
#[derive(Debug, Clone, PartialEq, Eq)]
pub struct ProjectSummary {
    pub project_id: String,
    pub project_name: Option<String>,
    pub local_path: String,
    pub path_exists: bool,
    pub active: bool,
    pub include_globs: Vec<String>,
    pub ifc_project_guid: Option<String>,
    pub seen_import_count: usize,
    pub last_imported_at_unix: Option<i64>,
    pub pending_push_count: usize,
    pub cloud_project_id: Option<String>,
}

/// `GET /v1/projects/:project_id/history`.
#[derive(Debug, Clone, PartialEq, Eq)]
pub struct ProjectHistoryResponse {
    pub project_id: String,
    pub project_name: Option<String>,
    pub commits: Vec<CommitSummary>,
}

#[derive(Debug, Clone, PartialEq, Eq)]
pub struct CommitSummary {
    pub commit: String,
    pub author: String,
    pub email: String,
    pub timestamp: i64,
    pub message: String,
    pub parents: Vec<String>,
}

/// `DELETE /v1/projects/:project_id`.
#[derive(Debug, Clone, PartialEq, Eq)]
pub struct DeleteProjectRequest {
    /// `keep_folder`, `archive_folder` or `delete_folder`.
    pub deletion_policy: String,
}

/// The deletion policy used when a request names none.
pub fn default_delete_project_policy() -> (s: String)
    ensures
        s@ == "keep_folder"@,
{
    owned("keep_folder")
}

#[derive(Debug, Clone, PartialEq, Eq)]
pub struct DeleteProjectResponse {
    pub project_id: String,
    pub local_folder: String,
    pub deletion_policy: String,
    pub removed_from_config: bool,
    pub watcher_stopped: bool,
    pub folder_action: String,
    pub resulting_folder: Option<String>,
    pub policy_error: Option<String>,
}

/// `GET /v1/activity/recent`, newest event first.
#[derive(Debug, Clone, PartialEq, Eq)]
pub struct RecentActivityResponse {
    pub events: Vec<ActivityEvent>,
}

/// What happened to one IFC export in the intake pipeline.
#[derive(Debug, Clone, Copy, PartialEq, Eq)]
pub enum ActivityKind {
    ProcessingStarted,
    CommitCreated,
    DuplicateSkipped,
    RouteSkipped,
    NoChanges,
    /// Committed locally; the push was queued for retry.
    PushQueued,
    /// A queued push was retried successfully.
    PushSynced,
    Error,
}

/// One locally observed pipeline event.
#[derive(Debug, Clone, PartialEq, Eq)]
pub struct ActivityEvent {
    pub id: String,
    pub kind: ActivityKind,
    pub project_id: String,
    pub project_name: Option<String>,
    pub local_path: Option<String>,
    pub source_path: Option<String>,
    pub commit_hash: Option<String>,
    pub content_hash: Option<String>,
    pub message: String,
    pub detail: Option<String>,
    pub caught_at_unix: i64,
}

/// One frame of a streamed push.
#[derive(Debug, Clone, PartialEq, Eq)]
pub enum PushEvent {
    Started,
    Progress { phase: String, percent: u8 },
    Done { commit_hash: String },
    Error { message: String },
}

/// The JSON error envelope of every non-2xx response.
#[derive(Debug, Clone, PartialEq, Eq)]
pub struct ApiError {
    pub error: String,
    pub message: String,
    /// Stable snake_case code.
    pub code: Option<String>,
    pub hint: Option<String>,
    pub retryable: Option<bool>,
    pub correlation_id: Option<String>,
}

/// `DELETE /v1/federations/:federation_id`.
#[derive(Debug, Clone, PartialEq, Eq)]
pub struct DeleteFederationResponse {
    pub federation_id: String,
    pub removed: bool,
}

/// Per-member render status hint in a federation snapshot.
#[derive(Debug, Clone, Copy, PartialEq, Eq)]
pub enum FederationRenderStatus {
    /// The source project or its pinned commit is gone.
    Unavailable,
    NotRequested,
    Queued,
    Building,
    Ready,
    Failed,
}

/// Lifecycle of the derived render artifact of one commit.
#[derive(Debug, Clone, PartialEq, Eq)]
pub enum RenderArtifactStatus {
    /// Nothing was requested or published for this commit.
    NotRequested,
    Queued,
    Building {
        /// Tile objects written so far.
        completed_tiles: u32,
        /// Tiles expected, when known.
        total_tiles: Option<u32>,
    },
    Ready { manifest: Box<RenderArtifactManifest> },
    Failed { message: String, retryable: bool },
}

/// Versioned envelope of the render-artifact status endpoints.
#[derive(Debug, Clone, PartialEq, Eq)]
pub struct RenderArtifactStatusResponse {
    pub schema: String,
    pub project_id: String,
    pub commit_hash: String,
    pub status: RenderArtifactStatus,
}

/// One member as a client describes it when creating or updating a federation.
#[derive(Debug, Clone, PartialEq, Eq)]
pub struct FederationMemberInput {
    /// An existing member id keeps that member's identity; none mints a new one.
    pub member_id: Option<String>,
    pub source_project_id: String,
    /// The pinned commit; when absent the daemon pins the current HEAD.
    pub commit_hash: Option<String>,
    pub display_name: String,
    pub discipline: Option<String>,
    pub transform: Option<FederationTransform>,
    pub visible: Option<bool>,
}

/// `POST /v1/federations`.
#[derive(Debug, Clone, PartialEq, Eq)]
pub struct CreateFederationRequest {
    pub name: String,
    pub members: Vec<FederationMemberInput>,
}

/// `PATCH /v1/federations/:federation_id`: a present member list replaces the set.
#[derive(Debug, Clone, PartialEq, Eq, Default)]
pub struct UpdateFederationRequest {
    pub name: Option<String>,
    pub members: Option<Vec<FederationMemberInput>>,
}

/// One resolved member of a federation snapshot.
#[derive(Debug, Clone, PartialEq, Eq)]
pub struct FederationSnapshotMember {
    pub member_id: String,
    pub source_project_id: String,
    pub commit_hash: String,
    pub display_name: String,
    pub discipline: Option<String>,
    pub transform: FederationTransform,
    pub visible: bool,
    /// The source project is still configured locally.
    pub project_available: bool,
    /// The pinned commit is in the source project's history.
    pub commit_available: bool,
    pub render_status: FederationRenderStatus,
}

/// `GET /v1/federations/:federation_id/snapshot`.
#[derive(Debug, Clone, PartialEq, Eq)]
pub struct FederationSnapshot {
    pub schema: String,
    pub federation_id: String,
    pub name: String,
    pub created_at_unix: i64,
    pub updated_at_unix: i64,
    pub members: Vec<FederationSnapshotMember>,
}

} // verus!
