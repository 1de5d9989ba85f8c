//! Where each call of the API client goes: its HTTP method, its path under
//! the server's base address, and its query parameters.
use vstd::prelude::*;

use crate::text::{decimal, decimal_string, push_str, to_owned_string};

verus! {

#[derive(Clone, Copy, Debug, PartialEq, Eq)]
pub enum Method {
    Get,
    Post,
    Patch,
    Delete,
}

/// One call of the API client, with what its route depends on.
#[derive(Clone, Debug)]
pub enum Endpoint {
    Meta,
    Login,
    Me,
    Projects,
    CreateProject,
    Project { project_id: String },
    RenameProject { project_id: String },
    DeleteProject { project_id: String },
    SetArchived { project_id: String, archived: bool },
    Tree { project_id: String, path: String },
    Page { project_id: String, path: String },
    PageAt { project_id: String, path: String, revision: String },
    Revision { project_id: String },
    Changesets { project_id: String },
    AcquireLock { project_id: String, path: String },
    HeartbeatLock { project_id: String, path: String },
    ReleaseLock { project_id: String, path: String },
    LockStatus { project_id: String, path: String },
    Commits { project_id: String, query: String, limit: u32, offset: u32 },
    CommitDetail { project_id: String, sha: String },
    DiffStats { project_id: String, sha: String },
    CommitPatch { project_id: String, sha: String },
    RevertCommit { project_id: String, sha: String },
    Purge { project_id: String },
    Search { project_id: String, q: String },
    CreateShare { project_id: String },
    Backlinks { project_id: String, path: String },
    FileHistory { project_id: String, path: String },
    ExportZip { project_id: String },
    ExportBundle { project_id: String },
    DownloadAttachment { project_id: String, path: String },
    OpenApi,
    ImportFiles { project_id: String },
    ImportRepo { name: String, url: String },
    ImportBundle { name: String },
    ImportFolder,
    Tokens,
    CreateToken,
    RevokeToken { id: String },
    Users,
    CreateUser,
    SetUserEnabled { id: String, enabled: bool },
    Audit { project_id: String, offset: usize },
    ForgotPassword,
    ResetPassword,
}

/// A route: method, path, query pairs.
pub struct Route {
    pub method: Method,
    pub path: String,
    pub query: Vec<(String, String)>,
}

pub open spec fn query_view(q: Seq<(String, String)>) -> Seq<(Seq<char>, Seq<char>)> {
    q.map_values(|p: (String, String)| (p.0@, p.1@))
}

pub open spec fn projects_path(id: Seq<char>, tail: Seq<char>) -> Seq<char> {
    "/api/v1/projects/"@ + id + tail
}

pub open spec fn commit_path(id: Seq<char>, sha: Seq<char>, tail: Seq<char>) -> Seq<char> {
    "/api/v1/projects/"@ + id + "/commits/"@ + sha + tail
}

/// The route of each call.
pub open spec fn route_of(e: Endpoint) -> (Method, Seq<char>, Seq<(Seq<char>, Seq<char>)>) {
    match e {
        Endpoint::Meta => (Method::Get, "/api/v1/meta"@, seq![]),
        Endpoint::Login => (Method::Post, "/api/v1/auth/login"@, seq![]),
        Endpoint::Me => (Method::Get, "/api/v1/auth/me"@, seq![]),
        Endpoint::Projects => (Method::Get, "/api/v1/projects"@, seq![]),
        Endpoint::CreateProject => (Method::Post, "/api/v1/projects"@, seq![]),
        Endpoint::Project { project_id } => (Method::Get, projects_path(project_id@, seq![]), seq![]),
        Endpoint::RenameProject { project_id } => (
            Method::Patch,
            projects_path(project_id@, seq![]),
            seq![],
        ),
        Endpoint::DeleteProject { project_id } => (
            Method::Delete,
            projects_path(project_id@, seq![]),
            seq![],
        ),
        Endpoint::SetArchived { project_id, archived } => (
            Method::Post,
            projects_path(
                project_id@,
                if archived {
                    "/archive"@
                } else {
                    "/unarchive"@
                },
            ),
            seq![],
        ),
        Endpoint::Tree { project_id, path } => (
            Method::Get,
            projects_path(project_id@, "/docs/tree"@),
            seq![("path"@, path@)],
        ),
        Endpoint::Page { project_id, path } => (
            Method::Get,
            projects_path(project_id@, "/docs/pages/"@ + path@),
            seq![("format"@, "raw"@)],
        ),
        Endpoint::PageAt { project_id, path, revision } => (
            Method::Get,
            projects_path(project_id@, "/docs/pages/"@ + path@),
            seq![("format"@, "raw"@), ("at"@, revision@)],
        ),
        Endpoint::Revision { project_id } => (
            Method::Get,
            projects_path(project_id@, "/revision"@),
            seq![],
        ),
        Endpoint::Changesets { project_id } => (
            Method::Post,
            projects_path(project_id@, "/changesets"@),
            seq![],
        ),
        Endpoint::AcquireLock { project_id, path } => (
            Method::Post,
            projects_path(project_id@, "/locks"@),
            seq![("path"@, path@)],
        ),
        Endpoint::HeartbeatLock { project_id, path } => (
            Method::Post,
            projects_path(project_id@, "/locks/heartbeat"@),
            seq![("path"@, path@)],
        ),
        Endpoint::ReleaseLock { project_id, path } => (
            Method::Delete,
            projects_path(project_id@, "/locks"@),
            seq![("path"@, path@)],
        ),
        Endpoint::LockStatus { project_id, path } => (
            Method::Get,
            projects_path(project_id@, "/locks"@),
            seq![("path"@, path@)],
        ),
        Endpoint::Commits { project_id, query, limit, offset } => (
            Method::Get,
            projects_path(project_id@, "/commits"@),
            seq![
                ("q"@, query@),
                ("limit"@, decimal(limit as nat)),
                ("offset"@, decimal(offset as nat)),
            ],
        ),
        Endpoint::CommitDetail { project_id, sha } => (
            Method::Get,
            commit_path(project_id@, sha@, seq![]),
            seq![],
        ),
        Endpoint::DiffStats { project_id, sha } => (
            Method::Get,
            commit_path(project_id@, sha@, "/diff"@),
            seq![("format"@, "numstat"@)],
        ),
        Endpoint::CommitPatch { project_id, sha } => (
            Method::Get,
            commit_path(project_id@, sha@, "/diff"@),
            seq![("format"@, "patch"@)],
        ),
        Endpoint::RevertCommit { project_id, sha } => (
            Method::Post,
            commit_path(project_id@, sha@, "/revert"@),
            seq![],
        ),
        Endpoint::Purge { project_id } => (
            Method::Post,
            projects_path(project_id@, "/purge"@),
            seq![],
        ),
        Endpoint::Search { project_id, q } => (
            Method::Get,
            projects_path(project_id@, "/search"@),
            seq![("q"@, q@)],
        ),
        Endpoint::CreateShare { project_id } => (
            Method::Post,
            projects_path(project_id@, "/shares"@),
            seq![],
        ),
        Endpoint::Backlinks { project_id, path } => (
            Method::Get,
            projects_path(project_id@, "/backlinks"@),
            seq![("path"@, path@)],
        ),
        Endpoint::FileHistory { project_id, path } => (
            Method::Get,
            projects_path(project_id@, "/files/history/"@ + path@),
            seq![],
        ),
        Endpoint::ExportZip { project_id } => (
            Method::Get,
            projects_path(project_id@, "/export.zip"@),
            seq![],
        ),
        Endpoint::ExportBundle { project_id } => (
            Method::Get,
            projects_path(project_id@, "/export.bundle"@),
            seq![],
        ),
        Endpoint::DownloadAttachment { project_id, path } => (
            Method::Get,
            projects_path(project_id@, "/attachments/"@ + path@),
            seq![],
        ),
        Endpoint::OpenApi => (Method::Get, "/api/openapi.json"@, seq![]),
        Endpoint::ImportFiles { project_id } => (
            Method::Post,
            projects_path(project_id@, "/import"@),
            seq![],
        ),
        Endpoint::ImportRepo { name, url } => (
            Method::Post,
            "/api/v1/import/repo"@,
            seq![("name"@, name@), ("url"@, url@)],
        ),
        Endpoint::ImportBundle { name } => (
            Method::Post,
            "/api/v1/import/bundle"@,
            seq![("name"@, name@)],
        ),
        Endpoint::ImportFolder => (Method::Post, "/api/v1/projects/import-folder"@, seq![]),
        Endpoint::Tokens => (Method::Get, "/api/v1/tokens"@, seq![]),
        Endpoint::CreateToken => (Method::Post, "/api/v1/tokens"@, seq![]),
        Endpoint::RevokeToken { id } => (Method::Delete, "/api/v1/tokens/"@ + id@, seq![]),
        Endpoint::Users => (Method::Get, "/api/v1/users"@, seq![]),
        Endpoint::CreateUser => (Method::Post, "/api/v1/users"@, seq![]),
        Endpoint::SetUserEnabled { id, enabled } => (
            Method::Post,
            "/api/v1/users/"@ + id@ + if enabled {
                "/enable"@
            } else {
                "/disable"@
            },
            seq![],
        ),
        Endpoint::Audit { project_id, offset } => (
            Method::Get,
            projects_path(project_id@, "/audit"@),
            seq![("offset"@, decimal(offset as nat))],
        ),
        Endpoint::ForgotPassword => (Method::Post, "/api/v1/auth/forgot-password"@, seq![]),
        Endpoint::ResetPassword => (Method::Post, "/api/v1/auth/reset-password"@, seq![]),
    }
}

fn text3(a: &str, b: &str, c: &str) -> (r: String)
    ensures
        r@ == a@ + b@ + c@,
{
    let mut r = to_owned_string(a);
    push_str(&mut r, b);
    push_str(&mut r, c);
    r
}

fn under_project(id: &String, tail: &str) -> (r: String)
    ensures
        r@ == projects_path(id@, tail@),
{
    text3("/api/v1/projects/", id.as_str(), tail)
}

fn under_project2(id: &String, mid: &str, last: &String) -> (r: String)
    ensures
        r@ == projects_path(id@, mid@ + last@),
{
    let mut r = text3("/api/v1/projects/", id.as_str(), mid);
    push_str(&mut r, last.as_str());
    r
}

fn under_commit(id: &String, sha: &String, tail: &str) -> (r: String)
    ensures
        r@ == commit_path(id@, sha@, tail@),
{
    let mut r = text3("/api/v1/projects/", id.as_str(), "/commits/");
    push_str(&mut r, sha.as_str());
    push_str(&mut r, tail);
    r
}

fn pair(k: &str, v: &str) -> (r: (String, String))
    ensures
        r.0@ == k@,
        r.1@ == v@,
{
    (to_owned_string(k), to_owned_string(v))
}

fn one_query(k: &str, v: &str) -> (r: Vec<(String, String)>)
    ensures
        query_view(r@) == seq![(k@, v@)],
{
    let mut q = Vec::new();
    q.push(pair(k, v));
    assert(query_view(q@) =~= seq![(k@, v@)]);
    q
}

fn two_query(k1: &str, v1: &str, k2: &str, v2: &str) -> (r: Vec<(String, String)>)
    ensures
        query_view(r@) == seq![(k1@, v1@), (k2@, v2@)],
{
    let mut q = Vec::new();
    q.push(pair(k1, v1));
    q.push(pair(k2, v2));
    assert(query_view(q@) =~= seq![(k1@, v1@), (k2@, v2@)]);
    q
}

fn simple(method: Method, path: &str) -> (r: Route)
    ensures
        r.method == method,
        r.path@ == path@,
        query_view(r.query@) == Seq::<(Seq<char>, Seq<char>)>::empty(),
{
    let r = Route { method, path: to_owned_string(path), query: Vec::new() };
    assert(query_view(r.query@) =~= Seq::<(Seq<char>, Seq<char>)>::empty());
    r
}

fn routed(method: Method, path: String, query: Vec<(String, String)>) -> (r: Route)
    ensures
        r.method == method,
        r.path@ == path@,
        r.query@ == query@,
{
    Route { method, path, query }
}

fn no_query() -> (r: Vec<(String, String)>)
    ensures
        query_view(r@) == Seq::<(Seq<char>, Seq<char>)>::empty(),
{
    let q = Vec::new();
    assert(query_view(q@) =~= Seq::<(Seq<char>, Seq<char>)>::empty());
    q
}

/// The calls whose route takes no argument.
fn fixed_route(e: &Endpoint) -> (r: Route)
    requires
        *e is Meta
            || *e is Login
            || *e is Me
            || *e is Projects
            || *e is CreateProject
            || *e is OpenApi
            || *e is ImportFolder
            || *e is Tokens
            || *e is CreateToken
            || *e is Users
            || *e is CreateUser
            || *e is ForgotPassword
            || *e is ResetPassword,
    ensures
        (r.method, r.path@, query_view(r.query@)) == route_of(*e),
{
    proof {
        reveal_strlit("");
    }
    match e {
        Endpoint::Meta => simple(Method::Get, "/api/v1/meta"),
        Endpoint::Login => simple(Method::Post, "/api/v1/auth/login"),
        Endpoint::Me => simple(Method::Get, "/api/v1/auth/me"),
        Endpoint::Projects => simple(Method::Get, "/api/v1/projects"),
        Endpoint::CreateProject => simple(Method::Post, "/api/v1/projects"),
        Endpoint::OpenApi => simple(Method::Get, "/api/openapi.json"),
        Endpoint::ImportFolder => simple(Method::Post, "/api/v1/projects/import-folder"),
        Endpoint::Tokens => simple(Method::Get, "/api/v1/tokens"),
        Endpoint::CreateToken => simple(Method::Post, "/api/v1/tokens"),
        Endpoint::Users => simple(Method::Get, "/api/v1/users"),
        Endpoint::CreateUser => simple(Method::Post, "/api/v1/users"),
        Endpoint::ForgotPassword => simple(Method::Post, "/api/v1/auth/forgot-password"),
        Endpoint::ResetPassword => simple(Method::Post, "/api/v1/auth/reset-password"),
        _ => simple(Method::Get, ""),
    }
}

/// The calls on a project as a whole.
fn project_route(e: &Endpoint) -> (r: Route)
    requires
        *e is Project
            || *e is RenameProject
            || *e is DeleteProject
            || *e is SetArchived
            || *e is Revision
            || *e is Changesets
            || *e is Purge
            || *e is CreateShare
            || *e is ExportZip
            || *e is ExportBundle
            || *e is ImportFiles
            || *e is Audit,
    ensures
        (r.method, r.path@, query_view(r.query@)) == route_of(*e),
{
    proof {
        reveal_strlit("");
    }
    match e {
        Endpoint::Project { project_id } => routed(
            Method::Get,
            under_project(project_id, ""),
            no_query(),
        ),
        Endpoint::RenameProject { project_id } => routed(
            Method::Patch,
            under_project(project_id, ""),
            no_query(),
        ),
        Endpoint::DeleteProject { project_id } => routed(
            Method::Delete,
            under_project(project_id, ""),
            no_query(),
        ),
        Endpoint::SetArchived { project_id, archived } => routed(
            Method::Post,
            under_project(
                project_id,
                if *archived {
                    "/archive"
                } else {
                    "/unarchive"
                },
            ),
            no_query(),
        ),
        Endpoint::Revision { project_id } => routed(
            Method::Get,
            under_project(project_id, "/revision"),
            no_query(),
        ),
        Endpoint::Changesets { project_id } => routed(
            Method::Post,
            under_project(project_id, "/changesets"),
            no_query(),
        ),
        Endpoint::Purge { project_id } => routed(
            Method::Post,
            under_project(project_id, "/purge"),
            no_query(),
        ),
        Endpoint::CreateShare { project_id } => routed(
            Method::Post,
            under_project(project_id, "/shares"),
            no_query(),
        ),
        Endpoint::ExportZip { project_id } => routed(
            Method::Get,
            under_project(project_id, "/export.zip"),
            no_query(),
        ),
        Endpoint::ExportBundle { project_id } => routed(
            Method::Get,
            under_project(project_id, "/export.bundle"),
            no_query(),
        ),
        Endpoint::ImportFiles { project_id } => routed(
            Method::Post,
            under_project(project_id, "/import"),
            no_query(),
        ),
        Endpoint::Audit { project_id, offset } => {
            let o = decimal_string(*offset as u64);
            routed(Method::Get, under_project(project_id, "/audit"), one_query("offset", o.as_str()))
        },
        _ => simple(Method::Get, ""),
    }
}

/// The calls on a document or a path of a project.
fn document_route(e: &Endpoint) -> (r: Route)
    requires
        *e is Tree
            || *e is Page
            || *e is PageAt
            || *e is AcquireLock
            || *e is HeartbeatLock
            || *e is ReleaseLock
            || *e is LockStatus
            || *e is Backlinks
            || *e is FileHistory
            || *e is DownloadAttachment
            || *e is Search,
    ensures
        (r.method, r.path@, query_view(r.query@)) == route_of(*e),
{
    proof {
        reveal_strlit("");
    }
    match e {
        Endpoint::Tree { project_id, path } => routed(
            Method::Get,
            under_project(project_id, "/docs/tree"),
            one_query("path", path.as_str()),
        ),
        Endpoint::Page { project_id, path } => routed(
            Method::Get,
            under_project2(project_id, "/docs/pages/", path),
            one_query("format", "raw"),
        ),
        Endpoint::PageAt { project_id, path, revision } => routed(
            Method::Get,
            under_project2(project_id, "/docs/pages/", path),
            two_query("format", "raw", "at", revision.as_str()),
        ),
        Endpoint::AcquireLock { project_id, path } => routed(
            Method::Post,
            under_project(project_id, "/locks"),
            one_query("path", path.as_str()),
        ),
        Endpoint::HeartbeatLock { project_id, path } => routed(
            Method::Post,
            under_project(project_id, "/locks/heartbeat"),
            one_query("path", path.as_str()),
        ),
        Endpoint::ReleaseLock { project_id, path } => routed(
            Method::Delete,
            under_project(project_id, "/locks"),
            one_query("path", path.as_str()),
        ),
        Endpoint::LockStatus { project_id, path } => routed(
            Method::Get,
            under_project(project_id, "/locks"),
            one_query("path", path.as_str()),
        ),
        Endpoint::Backlinks { project_id, path } => routed(
            Method::Get,
            under_project(project_id, "/backlinks"),
            one_query("path", path.as_str()),
        ),
        Endpoint::FileHistory { project_id, path } => routed(
            Method::Get,
            under_project2(project_id, "/files/history/", path),
            no_query(),
        ),
        Endpoint::DownloadAttachment { project_id, path } => routed(
            Method::Get,
            under_project2(project_id, "/attachments/", path),
            no_query(),
        ),
        Endpoint::Search { project_id, q } => routed(
            Method::Get,
            under_project(project_id, "/search"),
            one_query("q", q.as_str()),
        ),
        _ => simple(Method::Get, ""),
    }
}

/// The calls on the commits of a project.
fn commit_route(e: &Endpoint) -> (r: Route)
    requires
        *e is Commits
            || *e is CommitDetail
            || *e is DiffStats
            || *e is CommitPatch
            || *e is RevertCommit,
    ensures
        (r.method, r.path@, query_view(r.query@)) == route_of(*e),
{
    proof {
        reveal_strlit("");
    }
    match e {
        Endpoint::Commits { project_id, query, limit, offset } => {
            let mut q = Vec::new();
            q.push(pair("q", query.as_str()));
            let l = decimal_string(*limit as u64);
            q.push(pair("limit", l.as_str()));
            let o = decimal_string(*offset as u64);
            q.push(pair("offset", o.as_str()));
            assert(query_view(q@) =~= seq![
                ("q"@, query@),
                ("limit"@, decimal(*limit as nat)),
                ("offset"@, decimal(*offset as nat)),
            ]);
            routed(Method::Get, under_project(project_id, "/commits"), q)
        },
        Endpoint::CommitDetail { project_id, sha } => routed(
            Method::Get,
            under_commit(project_id, sha, ""),
            no_query(),
        ),
        Endpoint::DiffStats { project_id, sha } => routed(
            Method::Get,
            under_commit(project_id, sha, "/diff"),
            one_query("format", "numstat"),
        ),
        Endpoint::CommitPatch { project_id, sha } => routed(
            Method::Get,
            under_commit(project_id, sha, "/diff"),
            one_query("format", "patch"),
        ),
        Endpoint::RevertCommit { project_id, sha } => routed(
            Method::Post,
            under_commit(project_id, sha, "/revert"),
            no_query(),
        ),
        _ => simple(Method::Get, ""),
    }
}

/// Imports, tokens and users.
fn account_route(e: &Endpoint) -> (r: Route)
    requires
        *e is ImportRepo
            || *e is ImportBundle
            || *e is RevokeToken
            || *e is SetUserEnabled,
    ensures
        (r.method, r.path@, query_view(r.query@)) == route_of(*e),
{
    proof {
        reveal_strlit("");
    }
    match e {
        Endpoint::ImportRepo { name, url } => routed(
            Method::Post,
            to_owned_string("/api/v1/import/repo"),
            two_query("name", name.as_str(), "url", url.as_str()),
        ),
        Endpoint::ImportBundle { name } => routed(
            Method::Post,
            to_owned_string("/api/v1/import/bundle"),
            one_query("name", name.as_str()),
        ),
        Endpoint::RevokeToken { id } => {
            let mut p = to_owned_string("/api/v1/tokens/");
            push_str(&mut p, id.as_str());
            routed(Method::Delete, p, no_query())
        },
        Endpoint::SetUserEnabled { id, enabled } => routed(
            Method::Post,
            text3(
                "/api/v1/users/",
                id.as_str(),
                if *enabled {
                    "/enable"
                } else {
                    "/disable"
                },
            ),
            no_query(),
        ),
        _ => simple(Method::Get, ""),
    }
}

/// The route of a call (see [`route_of`]).
pub fn route(e: &Endpoint) -> (r: Route)
    ensures
        (r.method, r.path@, query_view(r.query@)) == route_of(*e),
{
    match e {
        Endpoint::Meta
        | Endpoint::Login
        | Endpoint::Me
        | Endpoint::Projects
        | Endpoint::CreateProject
        | Endpoint::OpenApi
        | Endpoint::ImportFolder
        | Endpoint::Tokens
        | Endpoint::CreateToken
        | Endpoint::Users
        | Endpoint::CreateUser
        | Endpoint::ForgotPassword
        | Endpoint::ResetPassword => fixed_route(e),
        Endpoint::Project { .. }
        | Endpoint::RenameProject { .. }
        | Endpoint::DeleteProject { .. }
        | Endpoint::SetArchived { .. }
        | Endpoint::Revision { .. }
        | Endpoint::Changesets { .. }
        | Endpoint::Purge { .. }
        | Endpoint::CreateShare { .. }
        | Endpoint::ExportZip { .. }
        | Endpoint::ExportBundle { .. }
        | Endpoint::ImportFiles { .. }
        | Endpoint::Audit { .. } => project_route(e),
        Endpoint::Tree { .. }
        | Endpoint::Page { .. }
        | Endpoint::PageAt { .. }
        | Endpoint::AcquireLock { .. }
        | Endpoint::HeartbeatLock { .. }
        | Endpoint::ReleaseLock { .. }
        | Endpoint::LockStatus { .. }
        | Endpoint::Backlinks { .. }
        | Endpoint::FileHistory { .. }
        | Endpoint::DownloadAttachment { .. }
        | Endpoint::Search { .. } => document_route(e),
        Endpoint::Commits { .. }
        | Endpoint::CommitDetail { .. }
        | Endpoint::DiffStats { .. }
        | Endpoint::CommitPatch { .. }
        | Endpoint::RevertCommit { .. } => commit_route(e),
        Endpoint::ImportRepo { .. }
        | Endpoint::ImportBundle { .. }
        | Endpoint::RevokeToken { .. }
        | Endpoint::SetUserEnabled { .. } => account_route(e),
    }
}

/// The `Authorization` value for an API token.
pub fn bearer_value(token: &str) -> (r: String)
    ensures
        r@ == "Bearer "@ + token@,
{
    let mut r = to_owned_string("Bearer ");
    push_str(&mut r, token);
    r
}

/// The GitHub API address of a repository's latest release.
pub fn latest_release_url(owner: &str, repo: &str) -> (r: String)
    ensures
        r@ == "https://api.github.com/repos/"@ + owner@ + "/"@ + repo@ + "/releases/latest"@,
{
    let mut r = text3("https://api.github.com/repos/", owner, "/");
    push_str(&mut r, repo);
    push_str(&mut r, "/releases/latest");
    r
}

} // verus!
