//! Data shapes of the server's `/api/v1` responses and requests (the JSON
//! field names are those of the fields).
use vstd::prelude::*;

verus! {

/// Declares serde_json's value type, carried through as opaque JSON.
#[verifier::external_type_specification]
#[verifier::external_body]
pub struct ExJsonValue(serde_json::Value);

/// The server's uniform error envelope body.
#[derive(Clone, Debug, PartialEq, Eq)]
pub struct ApiErrorBody {
    pub code: String,
    pub message: String,
    pub request_id: Option<String>,
}

#[derive(Clone, Debug, PartialEq, Eq)]
pub struct User {
    pub id: String,
    pub username: String,
    pub display_name: String,
    pub is_admin: bool,
    pub disabled: bool,
}

#[derive(Clone, Debug, PartialEq, Eq)]
pub struct UserResponse {
    pub user: User,
}

#[derive(Clone, Debug, PartialEq, Eq)]
pub struct Project {
    pub id: String,
    pub name: String,
    pub description: String,
    pub archived: bool,
    pub created_at: String,
    pub updated_at: String,
}

#[derive(Clone, Debug, PartialEq, Eq)]
pub struct ProjectsResponse {
    pub projects: Vec<Project>,
}

#[derive(Clone, Debug, PartialEq, Eq)]
pub struct ProjectResponse {
    pub project: Project,
}

#[derive(Clone, Debug, PartialEq, Eq)]
pub struct TreeEntry {
    pub name: String,
    /// `"tree"` for a directory, `"blob"` for a file (the JSON field `type`).
    pub entry_type: String,
    pub path: String,
    pub sha: String,
}

#[derive(Clone, Debug, PartialEq, Eq)]
pub struct TreeResponse {
    pub path: String,
    pub tree: Vec<TreeEntry>,
}

#[derive(Clone, Debug, PartialEq, Eq)]
pub struct DocPage {
    pub path: String,
    pub format: String,
    pub content: String,
    pub revision: String,
    pub encoding: String,
}

#[derive(Clone, Debug, PartialEq, Eq)]
pub struct RevisionResponse {
    pub revision: String,
}

#[derive(Clone, Debug, PartialEq, Eq)]
pub struct Change {
    pub op: String,
    pub path: String,
    pub new_path: Option<String>,
    pub content: Option<String>,
}

#[derive(Clone, Debug, PartialEq, Eq)]
pub struct ChangesetRequest {
    pub base_revision: String,
    pub message: String,
    pub changes: Vec<Change>,
}

/// The commit that a changeset produced; `preview` is whatever JSON the server attached.
#[derive(Debug)]
pub struct ChangesetResult {
    pub commit: String,
    pub revision: String,
    pub preview: Option<serde_json::Value>,
}

#[derive(Clone, Debug, PartialEq, Eq)]
pub struct Lock {
    pub path: String,
    pub user_id: String,
    pub username: String,
    pub acquired_at: String,
    pub expires_at: String,
}

#[derive(Clone, Debug, PartialEq, Eq)]
pub struct LockResponse {
    pub lock: Option<Lock>,
}

#[derive(Clone, Debug, PartialEq, Eq)]
pub struct ReleasedResponse {
    pub released: bool,
}

#[derive(Clone, Debug, PartialEq, Eq)]
pub struct Commit {
    pub sha: String,
    pub message: String,
    pub author: String,
    pub date: String,
}

#[derive(Clone, Debug, PartialEq, Eq)]
pub struct CommitListResponse {
    pub commits: Vec<Commit>,
    pub has_more: bool,
}

#[derive(Clone, Debug, PartialEq, Eq)]
pub struct CommitFile {
    pub status: String,
    pub path: String,
}

#[derive(Clone, Debug, PartialEq, Eq)]
pub struct CommitDetail {
    pub sha: String,
    pub message: String,
    pub author: String,
    pub date: String,
    pub files: Vec<CommitFile>,
}

#[derive(Clone, Debug, PartialEq, Eq)]
pub struct CommitDetailResponse {
    pub commit: CommitDetail,
}

#[derive(Clone, Debug, PartialEq, Eq)]
pub struct DiffStat {
    pub path: String,
    pub added: u32,
    pub deleted: u32,
}

#[derive(Clone, Debug, PartialEq, Eq)]
pub struct DiffStatsResponse {
    pub sha: String,
    pub format: String,
    pub stats: Vec<DiffStat>,
}

/// Patch diff for one commit (`format=patch`): the unified diff as a single text block.
#[derive(Clone, Debug, PartialEq, Eq)]
pub struct CommitPatchResponse {
    pub sha: String,
    pub format: String,
    pub patch: String,
}

#[derive(Clone, Debug, PartialEq, Eq)]
pub struct CommitPatch {
    pub sha: String,
    pub format: String,
    pub patch: String,
}

#[derive(Clone, Debug, PartialEq, Eq)]
pub struct CommitResponse {
    pub commit: Commit,
}

#[derive(Clone, Debug, PartialEq, Eq)]
pub struct SearchResult {
    pub path: String,
    pub snippet: String,
}

#[derive(Clone, Debug, PartialEq, Eq)]
pub struct SearchResponse {
    pub results: Vec<SearchResult>,
}

#[derive(Clone, Debug, PartialEq, Eq)]
pub struct Share {
    pub token: String,
    pub url: String,
}

#[derive(Clone, Debug, PartialEq, Eq)]
pub struct Backlink {
    pub source: String,
    pub snippet: String,
}

#[derive(Clone, Debug, PartialEq, Eq)]
pub struct BacklinksResponse {
    pub path: String,
    pub backlinks: Vec<Backlink>,
}

#[derive(Clone, Debug, PartialEq, Eq)]
pub struct FileHistoryResponse {
    pub path: String,
    pub commits: Vec<Commit>,
}

#[derive(Clone, Debug, PartialEq, Eq)]
pub struct ImportFile {
    pub path: String,
    pub content: String,
}

#[derive(Clone, Debug, PartialEq, Eq)]
pub struct ImportRequest {
    pub base_revision: String,
    pub message: String,
    pub files: Vec<ImportFile>,
}

#[derive(Clone, Debug, PartialEq, Eq)]
pub struct ImportResult {
    pub commit: String,
    pub revision: String,
    pub imported: u32,
}

#[derive(Clone, Debug, PartialEq, Eq)]
pub struct ImportProjectResult {
    pub project: Project,
    pub commits: u32,
}

/// One file of a folder import: its path relative to the folder and its bytes.
#[derive(Clone, Debug, PartialEq, Eq)]
pub struct UploadFile {
    pub path: String,
    pub content: Vec<u8>,
}

#[derive(Clone, Debug, PartialEq, Eq)]
pub struct Token {
    pub id: String,
    pub name: String,
    pub scope: String,
    pub project_ids: Vec<String>,
    pub created_at: String,
    pub revoked_at: String,
}

#[derive(Clone, Debug, PartialEq, Eq)]
pub struct TokenListResponse {
    pub tokens: Vec<Token>,
}

#[derive(Clone, Debug, PartialEq, Eq)]
pub struct TokenCreateResponse {
    pub token: Token,
    pub secret: String,
}

#[derive(Clone, Debug, PartialEq, Eq)]
pub struct UsersResponse {
    pub users: Vec<User>,
}

/// One row of a project's audit log.
#[derive(Clone, Debug, PartialEq, Eq)]
pub struct AuditEntry {
    pub id: String,
    pub actor_type: String,
    pub actor_id: String,
    pub project_id: String,
    pub action: String,
    pub path: String,
    pub detail: String,
    pub request_id: String,
    pub created_at: String,
}

/// One page of a project's audit log; `has_more` says whether another page follows.
#[derive(Clone, Debug, PartialEq, Eq)]
pub struct AuditResponse {
    pub entries: Vec<AuditEntry>,
    pub has_more: bool,
}

#[derive(Clone, Debug, PartialEq, Eq)]
pub struct Meta {
    pub version: String,
    pub api_version: String,
    pub limits: MetaLimits,
    pub capabilities: Vec<String>,
}

#[derive(Clone, Debug, PartialEq, Eq)]
pub struct GithubRelease {
    pub tag_name: String,
    pub name: String,
    pub html_url: String,
    pub published_at: Option<String>,
}

#[derive(Clone, Debug, PartialEq, Eq)]
pub struct MetaLimits {
    pub max_doc_bytes: u64,
    pub max_import_bytes: u64,
    pub max_diff_bytes: u64,
    pub max_changes_per_request: u64,
}

} // verus!
