# xwiki

The desktop client of an XWiki-style documentation server (projects of
Markdown documents kept in Git, edited under a lock and saved as
changesets), with its logic verified by Verus.

## Layout

- `src/` — the verified library.
  - `text.rs` — the string model (trimming, searching, splitting,
    decimal numbers) and the executable text operations.
  - `api/` — the API client's rules that need no network: errors from the
    server's error envelope, the session cookie, the base address, the
    buffering limit (`mod.rs`); the data shapes (`dto.rs`); the route of
    every call (`routes.rs`).
  - `outline.rs` — the outline and sections of a Markdown document.
  - `project_changes.rs` — the document changes read from a unified Git
    patch.
  - `editing.rs`, `session.rs` — what a save sends, and the editing
    session around it (lock, its renewal, save in flight, conflicts,
    drafts).
  - `changes.rs` — the paged list of a project's commits and the unfolded
    commit.
  - `history.rs` — the history view and restoring a version.
  - `workspace.rs`, `commands.rs`, `tree.rs`, `settings.rs` — the
    workspace's decisions: project list, window title, audit paging, command
    palette, quick open, document tree and its breadcrumbs, settings lists
    and forms.
  - `import.rs`, `ota.rs`, `messages.rs` — imports, the update check, and
    the texts shown to the user.
- `tests/` — tests of the library.
- `app/` — the program around it: the HTTP client on reqwest and tokio,
  the wire format of the JSON (serde copies of the data shapes), and the
  files on disk.

Each public function states its result in its contract; the laws that
span several calls are public proof functions named `law_…`.
