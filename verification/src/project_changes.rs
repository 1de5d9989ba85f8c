//! Reading a commit's unified Git patch as per-document change lists: the
//! changed file, each hunk's Markdown section and the old/new line numbers
//! of every added, deleted and context line.
use vstd::prelude::*;

use crate::text::{
    before_char, char_pos_at, char_pos_from, chars_of, count_leading, count_leading_at,
    char_pos, contains, equals_at, find_at, lemma_split_once_iff, lemma_trim_idempotent, lemma_char_pos_bounds, lemma_find_from_bounds, lemma_lines_concat, lines, lines_from,
    parse_u32, parse_u32_at, split_once, starts_with, starts_with_at, string_from_chars,
    strip_cr, strip_prefix, strip_prefix_or_self, trim, trim_at, trim_end_char,
    trim_end_char_at, trim_start, trim_start_at,
};

verus! {

#[derive(Clone, Copy, Debug, PartialEq, Eq, Structural)]
pub enum PatchLineKind {
    Add,
    Delete,
    Context,
}

#[derive(Clone, Debug, PartialEq, Eq)]
pub struct PatchLine {
    pub kind: PatchLineKind,
    pub content: String,
    pub old_line: Option<u32>,
    pub new_line: Option<u32>,
}

#[derive(Clone, Debug, PartialEq, Eq)]
pub struct PatchHunk {
    pub old_start: u32,
    pub new_start: u32,
    pub heading: String,
    pub lines: Vec<PatchLine>,
}

#[derive(Clone, Debug, PartialEq, Eq)]
pub struct FilePatch {
    pub path: String,
    pub hunks: Vec<PatchHunk>,
}

pub struct PatchLineView {
    pub kind: PatchLineKind,
    pub content: Seq<char>,
    pub old_line: Option<u32>,
    pub new_line: Option<u32>,
}

pub struct HunkView {
    pub old_start: u32,
    pub new_start: u32,
    pub heading: Seq<char>,
    pub lines: Seq<PatchLineView>,
}

pub struct FileView {
    pub path: Seq<char>,
    pub hunks: Seq<HunkView>,
}

impl View for PatchLine {
    type V = PatchLineView;

    open spec fn view(&self) -> PatchLineView {
        PatchLineView {
            kind: self.kind,
            content: self.content@,
            old_line: self.old_line,
            new_line: self.new_line,
        }
    }
}

impl View for PatchHunk {
    type V = HunkView;

    open spec fn view(&self) -> HunkView {
        HunkView {
            old_start: self.old_start,
            new_start: self.new_start,
            heading: self.heading@,
            lines: self.lines@.map_values(|l: PatchLine| l@),
        }
    }
}

impl View for FilePatch {
    type V = FileView;

    open spec fn view(&self) -> FileView {
        FileView { path: self.path@, hunks: self.hunks@.map_values(|h: PatchHunk| h@) }
    }
}

pub open spec fn files_view(files: Seq<FilePatch>) -> Seq<FileView> {
    files.map_values(|f: FilePatch| f@)
}

// ---------------------------------------------------------------------------
// The patch reading rules
// ---------------------------------------------------------------------------

/// What reading a patch line by line has gathered so far. `in_file` and
/// `in_hunk` say whether the last file and its last hunk are still open;
/// `broken` marks a hunk line whose first character is not ASCII, a line
/// that a byte-indexed reader cannot split.
pub struct PatchScan {
    pub files: Seq<FileView>,
    pub in_file: bool,
    pub in_hunk: bool,
    pub old_line: u32,
    pub new_line: u32,
    pub broken: bool,
}

pub open spec fn scan_start() -> PatchScan {
    PatchScan {
        files: seq![],
        in_file: false,
        in_hunk: false,
        old_line: 0,
        new_line: 0,
        broken: false,
    }
}

/// The shape that every reading state keeps: an open hunk belongs to the
/// open file, which is the last file.
pub open spec fn scan_wf(st: PatchScan) -> bool {
    &&& st.in_file ==> st.files.len() > 0
    &&& st.in_hunk ==> st.in_file && st.files.last().hunks.len() > 0
}

/// `u32` addition of one that wraps at the top.
pub open spec fn wrap_inc(x: u32) -> u32 {
    if x == u32::MAX {
        0
    } else {
        (x + 1) as u32
    }
}

pub open spec fn all_context(lines: Seq<PatchLineView>) -> bool {
    forall|i: int| 0 <= i < lines.len() ==> (#[trigger] lines[i]).kind == PatchLineKind::Context
}

pub open spec fn set_last_file(files: Seq<FileView>, f: FileView) -> Seq<FileView> {
    files.update(files.len() - 1, f)
}

pub open spec fn set_last_hunk(files: Seq<FileView>, h: HunkView) -> Seq<FileView> {
    let f = files.last();
    set_last_file(files, FileView { path: f.path, hunks: f.hunks.update(f.hunks.len() - 1, h) })
}

/// A Markdown ATX heading line (`#` to `######`, then a space): its text
/// without surrounding spaces and closing `#`s, when that text is not empty.
pub open spec fn md_heading(line: Seq<char>) -> Option<Seq<char>> {
    let t = trim_start(line);
    let level = count_leading(t, '#');
    if level < 1 || level > 6 || level >= t.len() || t[level as int] != ' ' {
        None
    } else {
        let h = trim(trim_end_char(trim(t.skip(level as int + 1)), '#'));
        if h.len() == 0 {
            None
        } else {
            Some(h)
        }
    }
}

/// A hunk header `@@ -<old>[,n] +<new>[,n] @@<heading>`: the two start
/// lines and the trimmed heading.
pub open spec fn hunk_header(line: Seq<char>) -> Option<(u32, u32, Seq<char>)> {
    if !starts_with(line, "@@ -"@) {
        None
    } else {
        match split_once(strip_prefix(line, "@@ -"@), " +"@) {
            None => None,
            Some((old_range, rest)) => match split_once(rest, " @@"@) {
                None => None,
                Some((new_range, heading)) => match (
                    parse_u32(before_char(old_range, ',')),
                    parse_u32(before_char(new_range, ',')),
                ) {
                    (Some(o), Some(n)) => Some((o, n, trim(heading))),
                    _ => None,
                },
            },
        }
    }
}

/// A line inside an open hunk, after its one-character marker: the hunk's
/// heading follows the first Markdown heading among its leading context
/// and added lines, and `+`, `-` and ` ` lines are recorded with their line
/// numbers.
pub open spec fn scan_hunk_line(st: PatchScan, marker: char, content: Seq<char>) -> PatchScan {
    let h = st.files.last().hunks.last();
    let heading = match md_heading(content) {
        Some(t) => if marker != '-' && all_context(h.lines) {
            t
        } else {
            h.heading
        },
        None => h.heading,
    };
    let h2 = HunkView { heading, ..h };
    if marker == '+' {
        let l = PatchLineView {
            kind: PatchLineKind::Add,
            content,
            old_line: None,
            new_line: Some(st.new_line),
        };
        PatchScan {
            files: set_last_hunk(st.files, HunkView { lines: h2.lines.push(l), ..h2 }),
            new_line: wrap_inc(st.new_line),
            ..st
        }
    } else if marker == '-' {
        let l = PatchLineView {
            kind: PatchLineKind::Delete,
            content,
            old_line: Some(st.old_line),
            new_line: None,
        };
        PatchScan {
            files: set_last_hunk(st.files, HunkView { lines: h2.lines.push(l), ..h2 }),
            old_line: wrap_inc(st.old_line),
            ..st
        }
    } else if marker == ' ' {
        let l = PatchLineView {
            kind: PatchLineKind::Context,
            content,
            old_line: Some(st.old_line),
            new_line: Some(st.new_line),
        };
        PatchScan {
            files: set_last_hunk(st.files, HunkView { lines: h2.lines.push(l), ..h2 }),
            old_line: wrap_inc(st.old_line),
            new_line: wrap_inc(st.new_line),
            ..st
        }
    } else {
        PatchScan { files: set_last_hunk(st.files, h2), ..st }
    }
}

/// One line of the patch.
pub open spec fn scan_line(st: PatchScan, line: Seq<char>) -> PatchScan {
    if st.broken {
        st
    } else if starts_with(line, "diff --git "@) {
        PatchScan {
            files: st.files.push(FileView { path: seq![], hunks: seq![] }),
            in_file: true,
            in_hunk: false,
            ..st
        }
    } else if !st.in_file {
        st
    } else if starts_with(line, "+++ "@) {
        let p = trim(strip_prefix(line, "+++ "@));
        if p == "/dev/null"@ {
            st
        } else {
            let f = st.files.last();
            PatchScan {
                files: set_last_file(
                    st.files,
                    FileView { path: strip_prefix_or_self(p, "b/"@), hunks: f.hunks },
                ),
                ..st
            }
        }
    } else if st.files.last().path.len() == 0 && starts_with(line, "--- "@) {
        let p = trim(strip_prefix(line, "--- "@));
        if p == "/dev/null"@ {
            st
        } else {
            let f = st.files.last();
            PatchScan {
                files: set_last_file(
                    st.files,
                    FileView { path: strip_prefix_or_self(p, "a/"@), hunks: f.hunks },
                ),
                ..st
            }
        }
    } else if hunk_header(line) is Some {
        let (o, n, heading) = hunk_header(line)->0;
        let f = st.files.last();
        let h = HunkView { old_start: o, new_start: n, heading, lines: seq![] };
        PatchScan {
            files: set_last_file(st.files, FileView { path: f.path, hunks: f.hunks.push(h) }),
            in_hunk: true,
            old_line: o,
            new_line: n,
            ..st
        }
    } else if !st.in_hunk {
        st
    } else if starts_with(line, "\\ No newline"@) || line.len() == 0 {
        st
    } else if line[0] as u32 >= 0x80 {
        PatchScan { broken: true, ..st }
    } else {
        scan_hunk_line(st, line[0], line.drop_first())
    }
}

pub open spec fn scan_lines(st: PatchScan, ls: Seq<Seq<char>>) -> PatchScan
    decreases ls.len(),
{
    if ls.len() == 0 {
        st
    } else {
        scan_lines(scan_line(st, ls[0]), ls.drop_first())
    }
}

pub open spec fn keeps_file(f: FileView) -> bool {
    f.path.len() > 0 && f.hunks.len() > 0
}

/// The document changes of a patch: every file that got a path and at least
/// one hunk, in patch order; `None` where a hunk line starts with a
/// non-ASCII character.
pub open spec fn document_patch(patch: Seq<char>) -> Option<Seq<FileView>> {
    let st = scan_lines(scan_start(), lines(patch));
    if st.broken {
        None
    } else {
        Some(st.files.filter(|f: FileView| keeps_file(f)))
    }
}

// ---------------------------------------------------------------------------
// Lemmas
// ---------------------------------------------------------------------------

proof fn lemma_scan_line_wf(st: PatchScan, line: Seq<char>)
    requires
        scan_wf(st),
    ensures
        scan_wf(scan_line(st, line)),
{
}

// ---------------------------------------------------------------------------
// Executable reader
// ---------------------------------------------------------------------------

/// The fixed texts that the reader looks for, as characters.
struct Patterns {
    diff_git: Vec<char>,
    plus3: Vec<char>,
    minus3: Vec<char>,
    dev_null: Vec<char>,
    b_slash: Vec<char>,
    a_slash: Vec<char>,
    no_newline: Vec<char>,
    at_minus: Vec<char>,
    sp_plus: Vec<char>,
    sp_at: Vec<char>,
}

impl Patterns {
    spec fn wf(&self) -> bool {
        &&& self.diff_git@ == "diff --git "@
        &&& self.plus3@ == "+++ "@
        &&& self.minus3@ == "--- "@
        &&& self.dev_null@ == "/dev/null"@
        &&& self.b_slash@ == "b/"@
        &&& self.a_slash@ == "a/"@
        &&& self.no_newline@ == "\\ No newline"@
        &&& self.at_minus@ == "@@ -"@
        &&& self.sp_plus@ == " +"@
        &&& self.sp_at@ == " @@"@
    }

    fn new() -> (r: Patterns)
        ensures
            r.wf(),
    {
        Patterns {
            diff_git: chars_of("diff --git "),
            plus3: chars_of("+++ "),
            minus3: chars_of("--- "),
            dev_null: chars_of("/dev/null"),
            b_slash: chars_of("b/"),
            a_slash: chars_of("a/"),
            no_newline: chars_of("\\ No newline"),
            at_minus: chars_of("@@ -"),
            sp_plus: chars_of(" +"),
            sp_at: chars_of(" @@"),
        }
    }
}

/// `markdown_heading` over `s[lo..hi]`.
fn markdown_heading_at(s: &[char], lo: usize, hi: usize) -> (r: Option<String>)
    requires
        lo <= hi <= s@.len(),
    ensures
        match r {
            Some(h) => md_heading(s@.subrange(lo as int, hi as int)) == Some(h@),
            None => md_heading(s@.subrange(lo as int, hi as int)) is None,
        },
{
    let ghost line = s@.subrange(lo as int, hi as int);
    let t0 = trim_start_at(s, lo, hi);
    let ghost t = s@.subrange(t0 as int, hi as int);
    let level = count_leading_at(s, t0, hi, '#');
    if level < 1 || level > 6 || t0 + level >= hi || s[t0 + level] != ' ' {
        proof {
            if t0 + level < hi {
                assert(t[level as int] == s@[t0 + level]);
            }
        }
        return None;
    }
    assert(t[level as int] == s@[t0 + level]);
    let (x, y) = trim_at(s, t0 + level + 1, hi);
    assert(t.skip(level + 1) =~= s@.subrange(t0 + level + 1, hi as int));
    let y2 = trim_end_char_at(s, x, y, '#');
    let (x3, y3) = trim_at(s, x, y2);
    if x3 == y3 {
        return None;
    }
    Some(string_from_chars(&s[x3..y3]))
}

/// `parse_hunk_header` over `s[lo..hi]`.
fn hunk_header_at(s: &[char], lo: usize, hi: usize, pats: &Patterns) -> (r: Option<
    (u32, u32, String),
>)
    requires
        lo <= hi <= s@.len(),
        pats.wf(),
    ensures
        match r {
            Some((o, n, h)) => hunk_header(s@.subrange(lo as int, hi as int)) == Some(
                (o, n, h@),
            ),
            None => hunk_header(s@.subrange(lo as int, hi as int)) is None,
        },
{
    let ghost line = s@.subrange(lo as int, hi as int);
    if !starts_with_at(s, lo, hi, pats.at_minus.as_slice()) {
        return None;
    }
    let r0 = lo + pats.at_minus.len();
    let ghost rest0 = s@.subrange(r0 as int, hi as int);
    assert(strip_prefix(line, "@@ -"@) =~= rest0);
    let k1 = match find_at(s, r0, hi, pats.sp_plus.as_slice()) {
        Some(k) => k,
        None => {
            return None;
        },
    };
    proof {
        lemma_find_from_bounds(rest0, " +"@, 0);
    }
    let old_end = r0 + k1;
    let r1 = old_end + pats.sp_plus.len();
    let ghost old_range = s@.subrange(r0 as int, old_end as int);
    let ghost rest1 = s@.subrange(r1 as int, hi as int);
    assert(rest0.take(k1 as int) =~= old_range);
    assert(rest0.skip(k1 + " +"@.len()) =~= rest1);
    let k2 = match find_at(s, r1, hi, pats.sp_at.as_slice()) {
        Some(k) => k,
        None => {
            return None;
        },
    };
    proof {
        lemma_find_from_bounds(rest1, " @@"@, 0);
    }
    let new_end = r1 + k2;
    let h0 = new_end + pats.sp_at.len();
    let ghost new_range = s@.subrange(r1 as int, new_end as int);
    let ghost heading = s@.subrange(h0 as int, hi as int);
    assert(rest1.take(k2 as int) =~= new_range);
    assert(rest1.skip(k2 + " @@"@.len()) =~= heading);
    let oc = char_pos_at(s, r0, old_end, ',');
    assert(before_char(old_range, ',') =~= s@.subrange(r0 as int, (r0 + oc) as int));
    let nc = char_pos_at(s, r1, new_end, ',');
    assert(before_char(new_range, ',') =~= s@.subrange(r1 as int, (r1 + nc) as int));
    let o = match parse_u32_at(s, r0, r0 + oc) {
        Some(v) => v,
        None => {
            return None;
        },
    };
    let n = match parse_u32_at(s, r1, r1 + nc) {
        Some(v) => v,
        None => {
            return None;
        },
    };
    let (x, y) = trim_at(s, h0, hi);
    Some((o, n, string_from_chars(&s[x..y])))
}

/// The executable reading state; its view is a [`PatchScan`].
struct Scanner {
    files: Vec<FilePatch>,
    in_file: bool,
    in_hunk: bool,
    old_line: u32,
    new_line: u32,
    /// Whether every line of the open hunk so far is a context line.
    context_only: bool,
}

impl Scanner {
    spec fn scan(&self) -> PatchScan {
        PatchScan {
            files: files_view(self.files@),
            in_file: self.in_file,
            in_hunk: self.in_hunk,
            old_line: self.old_line,
            new_line: self.new_line,
            broken: false,
        }
    }

    spec fn wf(&self) -> bool {
        &&& scan_wf(self.scan())
        &&& self.in_hunk ==> self.context_only == all_context(
            self.scan().files.last().hunks.last().lines,
        )
    }

    /// Reads the line `s[lo..hi]`; returns `false` where the line cannot be
    /// split (see [`PatchScan`]).
    fn read_line(&mut self, s: &[char], lo: usize, hi: usize, pats: &Patterns) -> (ok: bool)
        requires
            old(self).wf(),
            lo <= hi <= s@.len(),
            pats.wf(),
        ensures
            ok ==> final(self).wf() && final(self).scan() == scan_line(
                old(self).scan(),
                s@.subrange(lo as int, hi as int),
            ),
            !ok ==> scan_line(old(self).scan(), s@.subrange(lo as int, hi as int)).broken,
    {
        let ghost line = s@.subrange(lo as int, hi as int);
        let ghost st = self.scan();
        if starts_with_at(s, lo, hi, pats.diff_git.as_slice()) {
            let fresh = FilePatch { path: String::new(), hunks: Vec::new() };
            assert(fresh@.hunks =~= Seq::<HunkView>::empty());
            assert(fresh@.path =~= Seq::<char>::empty());
            assert(fresh@ == FileView { path: seq![], hunks: seq![] });
            self.files.push(fresh);
            self.in_file = true;
            self.in_hunk = false;
            proof {
                assert(files_view(self.files@) =~= st.files.push(
                    FileView { path: seq![], hunks: seq![] },
                ));
            }
            return true;
        }
        if !self.in_file {
            return true;
        }
        if starts_with_at(s, lo, hi, pats.plus3.as_slice()) {
            let (x, y) = trim_at(s, lo + pats.plus3.len(), hi);
            assert(strip_prefix(line, "+++ "@) =~= s@.subrange(lo + "+++ "@.len(), hi as int));
            if equals_at(s, x, y, pats.dev_null.as_slice()) {
                return true;
            }
            let x2 = if starts_with_at(s, x, y, pats.b_slash.as_slice()) {
                x + pats.b_slash.len()
            } else {
                x
            };
            assert(strip_prefix_or_self(s@.subrange(x as int, y as int), "b/"@) =~= s@.subrange(
                x2 as int,
                y as int,
            ));
            self.set_last_path(string_from_chars(&s[x2..y]));
            return true;
        }
        let path_empty = self.last_path_is_empty();
        if path_empty && starts_with_at(s, lo, hi, pats.minus3.as_slice()) {
            let (x, y) = trim_at(s, lo + pats.minus3.len(), hi);
            assert(strip_prefix(line, "--- "@) =~= s@.subrange(lo + "--- "@.len(), hi as int));
            if equals_at(s, x, y, pats.dev_null.as_slice()) {
                return true;
            }
            let x2 = if starts_with_at(s, x, y, pats.a_slash.as_slice()) {
                x + pats.a_slash.len()
            } else {
                x
            };
            assert(strip_prefix_or_self(s@.subrange(x as int, y as int), "a/"@) =~= s@.subrange(
                x2 as int,
                y as int,
            ));
            self.set_last_path(string_from_chars(&s[x2..y]));
            return true;
        }
        match hunk_header_at(s, lo, hi, pats) {
            Some((o, n, heading)) => {
                let hk = PatchHunk { old_start: o, new_start: n, heading, lines: Vec::new() };
                assert(hk@.lines =~= Seq::<PatchLineView>::empty());
                self.push_hunk(hk);
                self.in_hunk = true;
                self.old_line = o;
                self.new_line = n;
                self.context_only = true;
                return true;
            },
            None => {},
        }
        if !self.in_hunk {
            return true;
        }
        if starts_with_at(s, lo, hi, pats.no_newline.as_slice()) || lo == hi {
            return true;
        }
        let marker = s[lo];
        if marker as u32 >= 0x80 {
            return false;
        }
        assert(line[0] == marker);
        assert(line.drop_first() =~= s@.subrange(lo + 1, hi as int));
        self.read_hunk_line(s, lo + 1, hi, marker);
        true
    }

    fn last_path_is_empty(&self) -> (b: bool)
        requires
            self.wf(),
            self.in_file,
        ensures
            b == (self.scan().files.last().path.len() == 0),
    {
        let i = self.files.len() - 1;
        assert(self.scan().files.last() == self.files@[i as int]@);
        self.files[i].path.as_str().is_empty()
    }

    fn set_last_path(&mut self, path: String)
        requires
            old(self).wf(),
            old(self).in_file,
        ensures
            final(self).wf(),
            final(self).in_file == old(self).in_file,
            final(self).in_hunk == old(self).in_hunk,
            final(self).old_line == old(self).old_line,
            final(self).new_line == old(self).new_line,
            final(self).scan().files == set_last_file(
                old(self).scan().files,
                FileView { path: path@, hunks: old(self).scan().files.last().hunks },
            ),
    {
        let ghost before = self.files@;
        let mut f = self.files.pop().unwrap();
        assert(before.last() == f);
        f.path = path;
        self.files.push(f);
        assert(files_view(self.files@) =~= set_last_file(
            files_view(before),
            FileView { path: path@, hunks: files_view(before).last().hunks },
        ));
    }

    fn push_hunk(&mut self, h: PatchHunk)
        requires
            old(self).wf(),
            old(self).in_file,
            h.lines@.len() == 0,
        ensures
            final(self).files@.len() == old(self).files@.len(),
            final(self).in_file == old(self).in_file,
            final(self).old_line == old(self).old_line,
            final(self).new_line == old(self).new_line,
            final(self).in_hunk == old(self).in_hunk,
            final(self).context_only == old(self).context_only,
            final(self).scan().files == set_last_file(
                old(self).scan().files,
                FileView {
                    path: old(self).scan().files.last().path,
                    hunks: old(self).scan().files.last().hunks.push(h@),
                },
            ),
            final(self).scan().files.last().hunks.len() > 0,
            final(self).scan().files.last().hunks.last() == h@,
    {
        let ghost before = self.files@;
        let mut f = self.files.pop().unwrap();
        assert(before.last() == f);
        let ghost fh = f.hunks@;
        f.hunks.push(h);
        assert(f.hunks@.map_values(|x: PatchHunk| x@) =~= fh.map_values(|x: PatchHunk| x@).push(
            h@,
        ));
        self.files.push(f);
        assert(files_view(self.files@) =~= set_last_file(
            files_view(before),
            FileView {
                path: files_view(before).last().path,
                hunks: files_view(before).last().hunks.push(h@),
            },
        ));
    }

    /// A `marker`-led line of the open hunk whose text is `s[lo..hi]`.
    fn read_hunk_line(&mut self, s: &[char], lo: usize, hi: usize, marker: char)
        requires
            old(self).wf(),
            old(self).in_hunk,
            lo <= hi <= s@.len(),
        ensures
            final(self).wf(),
            final(self).scan() == scan_hunk_line(
                old(self).scan(),
                marker,
                s@.subrange(lo as int, hi as int),
            ),
    {
        let ghost content = s@.subrange(lo as int, hi as int);
        let ghost st = self.scan();
        let ghost before = self.files@;
        let mut f = self.files.pop().unwrap();
        assert(before.last() == f);
        let ghost fh = f.hunks@;
        let mut h = f.hunks.pop().unwrap();
        assert(fh.last() == h);
        assert(st.files.last().hunks.last() == h@);
        let ghost old_lines = h.lines@;
        if marker != '-' && self.context_only {
            match markdown_heading_at(s, lo, hi) {
                Some(t) => {
                    h.heading = t;
                },
                None => {},
            }
        }
        let ghost hv2 = h@;
        let c = string_from_chars(&s[lo..hi]);
        if marker == '+' {
            h.lines.push(
                PatchLine {
                    kind: PatchLineKind::Add,
                    content: c,
                    old_line: None,
                    new_line: Some(self.new_line),
                },
            );
            self.new_line = if self.new_line == u32::MAX {
                0
            } else {
                self.new_line + 1
            };
            self.context_only = false;
        } else if marker == '-' {
            h.lines.push(
                PatchLine {
                    kind: PatchLineKind::Delete,
                    content: c,
                    old_line: Some(self.old_line),
                    new_line: None,
                },
            );
            self.old_line = if self.old_line == u32::MAX {
                0
            } else {
                self.old_line + 1
            };
            self.context_only = false;
        } else if marker == ' ' {
            h.lines.push(
                PatchLine {
                    kind: PatchLineKind::Context,
                    content: c,
                    old_line: Some(self.old_line),
                    new_line: Some(self.new_line),
                },
            );
            self.old_line = if self.old_line == u32::MAX {
                0
            } else {
                self.old_line + 1
            };
            self.new_line = if self.new_line == u32::MAX {
                0
            } else {
                self.new_line + 1
            };
        }
        proof {
            let ov = old_lines.map_values(|l: PatchLine| l@);
            if h.lines@.len() > old_lines.len() {
                let nv = h.lines@.map_values(|l: PatchLine| l@);
                assert(nv =~= ov.push(h.lines@.last()@));
                if marker == ' ' {
                    assert(all_context(nv) == all_context(ov)) by {
                        if all_context(ov) {
                            assert forall|i: int| 0 <= i < nv.len() implies (#[trigger] nv[i]).kind
                                == PatchLineKind::Context by {
                                if i < ov.len() {
                                    assert(nv[i] == ov[i]);
                                }
                            }
                        } else {
                            let j = choose|j: int|
                                0 <= j < ov.len() && (#[trigger] ov[j]).kind
                                    != PatchLineKind::Context;
                            assert(nv[j] == ov[j]);
                        }
                    }
                } else {
                    assert(nv[nv.len() - 1].kind != PatchLineKind::Context);
                }
            } else {
                assert(h.lines@ == old_lines);
            }
        }
        let ghost hv = h@;
        f.hunks.push(h);
        assert(f.hunks@.map_values(|x: PatchHunk| x@) =~= fh.map_values(|x: PatchHunk| x@).update(
            fh.len() - 1,
            hv,
        ));
        self.files.push(f);
        assert(files_view(self.files@) =~= set_last_hunk(files_view(before), hv));
    }

    /// The files gathered, keeping those with a path and a hunk.
    fn finish(self) -> (r: Vec<FilePatch>)
        ensures
            files_view(r@) == self.scan().files.filter(|f: FileView| keeps_file(f)),
    {
        let ghost all = files_view(self.files@);
        let mut out: Vec<FilePatch> = Vec::new();
        let n = self.files.len();
        for f in it: self.files
            invariant
                it.seq() == self.files@,
                all == files_view(self.files@),
                files_view(out@) == all.take(it.index() as int).filter(|f: FileView| keeps_file(f)),
        {
            let ghost i = it.index();
            proof {
                reveal_with_fuel(Seq::<_>::filter, 1);
                assert(all.take(i + 1).drop_last() =~= all.take(i as int));
                assert(all[i as int] == f@);
            }
            if !f.path.as_str().is_empty() && f.hunks.len() > 0 {
                let ghost before = out@;
                out.push(f);
                assert(files_view(out@) =~= files_view(before).push(f@));
            }
        }
        assert(all.take(n as int) =~= all);
        out
    }
}

/// Reads the document changes of a unified Git patch (see
/// [`document_patch`]); `None` where a hunk line starts with a non-ASCII
/// character.
pub fn try_parse_document_patch(patch: &str) -> (r: Option<Vec<FilePatch>>)
    ensures
        match r {
            Some(files) => document_patch(patch@) == Some(files_view(files@)),
            None => document_patch(patch@) is None,
        },
{
    let chars = chars_of(patch);
    let s = chars.as_slice();
    let pats = Patterns::new();
    let mut sc = Scanner {
        files: Vec::new(),
        in_file: false,
        in_hunk: false,
        old_line: 0,
        new_line: 0,
        context_only: true,
    };
    assert(files_view(sc.files@) =~= Seq::<FileView>::empty());
    assert(sc.scan() == scan_start());
    let n = s.len();
    let mut pos: usize = 0;
    while pos < n
        invariant
            s@ == patch@,
            n == s@.len(),
            pos <= n,
            pats.wf(),
            sc.wf(),
            scan_lines(scan_start(), lines(s@)) == scan_lines(sc.scan(), lines_from(s@, pos as int)),
        decreases n - pos,
    {
        let e = char_pos_from(s, '\n', pos);
        let ghost line = if e < n {
            strip_cr(s@.subrange(pos as int, e as int))
        } else {
            s@.subrange(pos as int, n as int)
        };
        let next = if e < n {
            e + 1
        } else {
            n
        };
        let hi = if e < n && e > pos && s[e - 1] == '\r' {
            e - 1
        } else {
            e
        };
        proof {
            lemma_char_pos_bounds(s@, '\n', pos as int);
            if e < n {
                if e > pos && s@[e - 1] == '\r' {
                    assert(s@.subrange(pos as int, e as int).drop_last() =~= s@.subrange(
                        pos as int,
                        hi as int,
                    ));
                }
                assert(lines_from(s@, pos as int) == seq![line] + lines_from(s@, next as int));
            } else {
                assert(lines_from(s@, next as int) == Seq::<Seq<char>>::empty());
                assert(lines_from(s@, pos as int) == seq![line] + lines_from(s@, next as int));
            }
            assert(line == s@.subrange(pos as int, hi as int));
            assert((seq![line] + lines_from(s@, next as int)).drop_first() =~= lines_from(
                s@,
                next as int,
            ));
        }
        let ghost prev = sc.scan();
        let ok = sc.read_line(s, pos, hi, &pats);
        if !ok {
            proof {
                lemma_scan_broken_stays(
                    scan_line(prev, line),
                    lines_from(s@, next as int),
                );
            }
            return None;
        }
        pos = next;
    }
    assert(lines_from(s@, pos as int) == Seq::<Seq<char>>::empty());
    Some(sc.finish())
}

proof fn lemma_scan_broken_stays(st: PatchScan, ls: Seq<Seq<char>>)
    requires
        st.broken,
    ensures
        scan_lines(st, ls) == st,
    decreases ls.len(),
{
    if ls.len() > 0 {
        lemma_scan_broken_stays(scan_line(st, ls[0]), ls.drop_first());
    }
}

proof fn lemma_scan_lines_concat(st: PatchScan, ls1: Seq<Seq<char>>, ls2: Seq<Seq<char>>)
    ensures
        scan_lines(st, ls1 + ls2) == scan_lines(scan_lines(st, ls1), ls2),
    decreases ls1.len(),
{
    if ls1.len() == 0 {
        assert(ls1 + ls2 =~= ls2);
    } else {
        assert((ls1 + ls2).drop_first() =~= ls1.drop_first() + ls2);
        assert((ls1 + ls2)[0] == ls1[0]);
        lemma_scan_lines_concat(scan_line(st, ls1[0]), ls1.drop_first(), ls2);
    }
}

/// Two reading states that differ only by files read before: `a` holds the
/// files `pre` in front of those of `b`, and reads on as `b` does.
pub open spec fn scan_follows(a: PatchScan, b: PatchScan, pre: Seq<FileView>) -> bool {
    &&& a.files == pre + b.files
    &&& a.in_file == b.in_file
    &&& a.in_hunk == b.in_hunk
    &&& a.broken == b.broken
    &&& a.in_hunk ==> a.old_line == b.old_line && a.new_line == b.new_line
}

proof fn lemma_set_last_after(pre: Seq<FileView>, files: Seq<FileView>)
    requires
        files.len() > 0,
    ensures
        (pre + files).last() == files.last(),
        forall|f: FileView| #[trigger] set_last_file(pre + files, f) == pre + set_last_file(files, f),
{
    assert forall|f: FileView| #[trigger] set_last_file(pre + files, f) == pre + set_last_file(files, f) by {
        assert(set_last_file(pre + files, f) =~= pre + set_last_file(files, f));
    }
}

proof fn lemma_scan_line_follows(a: PatchScan, b: PatchScan, pre: Seq<FileView>, line: Seq<char>)
    requires
        scan_follows(a, b, pre),
        scan_wf(b),
    ensures
        scan_follows(scan_line(a, line), scan_line(b, line), pre),
        scan_wf(scan_line(b, line)),
{
    lemma_scan_line_wf(b, line);
    if b.in_file {
        lemma_set_last_after(pre, b.files);
    }
    if !b.broken && starts_with(line, "diff --git "@) {
        assert(a.files.push(FileView { path: seq![], hunks: seq![] }) =~= pre + b.files.push(
            FileView { path: seq![], hunks: seq![] },
        ));
    }
}

proof fn lemma_scan_lines_follow(a: PatchScan, b: PatchScan, pre: Seq<FileView>, ls: Seq<Seq<char>>)
    requires
        scan_follows(a, b, pre),
        scan_wf(b),
    ensures
        scan_follows(scan_lines(a, ls), scan_lines(b, ls), pre),
    decreases ls.len(),
{
    if ls.len() > 0 {
        lemma_scan_line_follows(a, b, pre, ls[0]);
        lemma_scan_lines_follow(scan_line(a, ls[0]), scan_line(b, ls[0]), pre, ls.drop_first());
    }
}

/// File sections are read independently: a patch that is one patch after
/// another, split at a `diff --git ` line, gives the changes of the first
/// followed by those of the second, and is refused where either is.
pub proof fn law_patches_concatenate(p1: Seq<char>, p2: Seq<char>)
    requires
        p1.len() == 0 || p1.last() == '\n',
        starts_with(p2, "diff --git "@),
    ensures
        document_patch(p1 + p2) == (match (document_patch(p1), document_patch(p2)) {
            (Some(f1), Some(f2)) => Some(f1 + f2),
            _ => None,
        }),
{
    let d = "diff --git "@;
    lemma_lines_concat(p1, p2);
    let ls1 = lines(p1);
    let ls2 = lines(p2);
    lemma_scan_lines_concat(scan_start(), ls1, ls2);
    let s1 = scan_lines(scan_start(), ls1);
    // the first line of the second part opens a file section
    reveal_strlit("diff --git ");
    lemma_char_pos_bounds(p2, '\n', 0);
    let e = char_pos(p2, '\n', 0);
    if e < d.len() {
        assert(p2[e] == d[e]);
    }
    let first = p2.subrange(0, e);
    assert(first.subrange(0, d.len() as int) =~= d);
    assert(strip_cr(first).subrange(0, d.len() as int) =~= d);
    assert(ls2.len() > 0 && (ls2[0] == strip_cr(first) || ls2[0] == first));
    assert(starts_with(ls2[0], d));
    let rest = ls2.drop_first();
    assert(scan_lines(s1, ls2) == scan_lines(scan_line(s1, ls2[0]), rest));
    assert(scan_lines(scan_start(), ls2) == scan_lines(scan_line(scan_start(), ls2[0]), rest));
    if s1.broken {
        lemma_scan_broken_stays(s1, ls2);
    } else {
        let a = scan_line(s1, ls2[0]);
        let b = scan_line(scan_start(), ls2[0]);
        assert(a.files =~= s1.files + b.files);
        assert(scan_follows(a, b, s1.files));
        lemma_scan_lines_follow(a, b, s1.files, rest);
        let fa = scan_lines(a, rest);
        let fb = scan_lines(b, rest);
        if !fb.broken {
            Seq::filter_distributes_over_add(s1.files, fb.files, |f: FileView| keeps_file(f));
        }
    }
}

/// The reading state inside the one file section of a patch: one file,
/// with the given path and at least one hunk.
pub open spec fn in_single_file(st: PatchScan, p: Seq<char>) -> bool {
    &&& scan_wf(st)
    &&& st.in_file
    &&& st.files.len() == 1
    &&& st.files[0].path == p
    &&& st.files[0].hunks.len() > 0
}

proof fn lemma_single_file_stays(st: PatchScan, p: Seq<char>, body: Seq<Seq<char>>)
    requires
        in_single_file(st, p),
        p.len() > 0,
        forall|i: int|
            0 <= i < body.len() ==> !starts_with(#[trigger] body[i], "diff --git "@) && !starts_with(
                body[i],
                "+++ "@,
            ),
    ensures
        in_single_file(scan_lines(st, body), p),
    decreases body.len(),
{
    if body.len() > 0 {
        let l = body[0];
        lemma_scan_line_wf(st, l);
        let next = scan_line(st, l);
        assert(in_single_file(next, p));
        assert forall|i: int| 0 <= i < body.drop_first().len() implies !starts_with(
            #[trigger] body.drop_first()[i],
            "diff --git "@,
        ) && !starts_with(body.drop_first()[i], "+++ "@) by {
            assert(body.drop_first()[i] == body[i + 1]);
        }
        lemma_single_file_stays(next, p, body.drop_first());
    }
}

/// The path of a single file section whose `---` side is `a` and whose
/// `+++` side is `b`: the `+++` path without `b/`, or, for a deleted file,
/// the `---` path without `a/`.
pub open spec fn section_path(a: Seq<char>, b: Seq<char>) -> Seq<char> {
    if trim(b) != "/dev/null"@ {
        strip_prefix_or_self(trim(b), "b/"@)
    } else {
        strip_prefix_or_self(trim(a), "a/"@)
    }
}

/// A patch of one file section (a `diff --git ` line, the `--- ` and
/// `+++ ` lines, a hunk header, then lines that neither open a file
/// section nor name a `+++ ` path) changes one document, whose path is the
/// `+++` path without `b/`, or for a deleted file the `---` path without
/// `a/` (where that path is not empty).
pub proof fn law_single_section_path(
    patch: Seq<char>,
    d: Seq<char>,
    a: Seq<char>,
    b: Seq<char>,
    h: Seq<char>,
    body: Seq<Seq<char>>,
)
    requires
        lines(patch) == seq![d, "--- "@ + a, "+++ "@ + b, h] + body,
        starts_with(d, "diff --git "@),
        hunk_header(h) is Some,
        trim(a) != "/dev/null"@ || trim(b) != "/dev/null"@,
        section_path(a, b).len() > 0,
        forall|i: int|
            0 <= i < body.len() ==> !starts_with(#[trigger] body[i], "diff --git "@) && !starts_with(
                body[i],
                "+++ "@,
            ),
    ensures
        document_patch(patch) matches Some(files) ==> files.len() == 1 && files[0].path == section_path(
            a,
            b,
        ),
{
    reveal_strlit("diff --git ");
    reveal_strlit("--- ");
    reveal_strlit("+++ ");
    reveal_strlit("@@ -");
    reveal_strlit("/dev/null");
    let ls = lines(patch);
    let minus = "--- "@ + a;
    let plus = "+++ "@ + b;
    let p = section_path(a, b);
    // the four lines that open the section
    let s0 = scan_start();
    let s1 = scan_line(s0, d);
    assert(s1.files.len() == 1 && s1.files[0].path.len() == 0 && s1.in_file && !s1.in_hunk);
    assert(minus[0] == '-');
    assert(!starts_with(minus, "diff --git "@)) by {
        if starts_with(minus, "diff --git "@) {
            assert(minus.take(11)[0] == minus[0]);
        }
    }
    assert(!starts_with(minus, "+++ "@)) by {
        if starts_with(minus, "+++ "@) {
            assert(minus.take(4)[0] == minus[0]);
        }
    }
    assert(starts_with(minus, "--- "@)) by {
        assert(minus.take(4) =~= "--- "@);
    }
    assert(strip_prefix(minus, "--- "@) =~= a);
    let s2 = scan_line(s1, minus);
    assert(s2.files.len() == 1 && s2.in_file && !s2.in_hunk);
    assert(trim(a) != "/dev/null"@ ==> s2.files[0].path == strip_prefix_or_self(trim(a), "a/"@));
    assert(trim(a) == "/dev/null"@ ==> s2.files[0].path.len() == 0);
    assert(plus[0] == '+');
    assert(!starts_with(plus, "diff --git "@)) by {
        if starts_with(plus, "diff --git "@) {
            assert(plus.take(11)[0] == plus[0]);
        }
    }
    assert(starts_with(plus, "+++ "@)) by {
        assert(plus.take(4) =~= "+++ "@);
    }
    assert(strip_prefix(plus, "+++ "@) =~= b);
    let s3 = scan_line(s2, plus);
    assert(s3.files.len() == 1 && s3.in_file && s3.files[0].path == p);
    assert(starts_with(h, "@@ -"@));
    assert(h[0] == '@') by {
        assert(h.take(4)[0] == h[0]);
    }
    assert(!starts_with(h, "diff --git "@)) by {
        if starts_with(h, "diff --git "@) {
            assert(h.take(11)[0] == h[0]);
        }
    }
    assert(!starts_with(h, "+++ "@)) by {
        if starts_with(h, "+++ "@) {
            assert(h.take(4)[0] == h[0]);
        }
    }
    assert(!starts_with(h, "--- "@)) by {
        if starts_with(h, "--- "@) {
            assert(h.take(4)[0] == h[0]);
        }
    }
    let s4 = scan_line(s3, h);
    assert(in_single_file(s4, p));
    // reading the section's lines
    let l1 = seq![minus, plus, h] + body;
    let l2 = seq![plus, h] + body;
    let l3 = seq![h] + body;
    assert(ls[0] == d && ls.drop_first() =~= l1);
    assert(l1[0] == minus && l1.drop_first() =~= l2);
    assert(l2[0] == plus && l2.drop_first() =~= l3);
    assert(l3[0] == h && l3.drop_first() =~= body);
    assert(scan_lines(s0, ls) == scan_lines(s1, l1));
    assert(scan_lines(s1, l1) == scan_lines(s2, l2));
    assert(scan_lines(s2, l2) == scan_lines(s3, l3));
    assert(scan_lines(s3, l3) == scan_lines(s4, body));
    lemma_single_file_stays(s4, p, body);
    let fin = scan_lines(s4, body);
    if !fin.broken {
        reveal(Seq::filter);
        let pred = |f: FileView| keeps_file(f);
        assert(fin.files.drop_last() =~= Seq::<FileView>::empty());
        assert(fin.files.drop_last().filter(pred) =~= Seq::<FileView>::empty());
        assert(fin.files.filter(pred) =~= seq![fin.files[0]]);
    }
}

/// The text of a hunk header line with old range `a`, new range `b` and
/// trailing text `d`.
pub open spec fn hunk_line(a: Seq<char>, b: Seq<char>, d: Seq<char>) -> Seq<char> {
    "@@ -"@ + a + " +"@ + b + " @@"@ + d
}

proof fn lemma_separators()
    ensures
        forall|m: int| 0 < m < " +"@.len() ==> #[trigger] " +"@[m] != " +"@[0],
        forall|m: int| 0 < m < " @@"@.len() ==> #[trigger] " @@"@[m] != " @@"@[0],
        " +"@.len() > 0,
        " @@"@.len() > 0,
{
    reveal_strlit(" +");
    reveal_strlit(" @@");
}

/// A line of the form `@@ -A +B @@D`, where `A` holds no ` +` and `B` no
/// ` @@`, is a hunk header exactly when the first comma pieces of `A` and
/// `B` read as `u32`; it then gives those two numbers and `D` trimmed.
pub proof fn law_hunk_header_form(a: Seq<char>, b: Seq<char>, d: Seq<char>)
    requires
        !contains(a, " +"@),
        !contains(b, " @@"@),
    ensures
        hunk_header(hunk_line(a, b, d)) == (match (
            parse_u32(before_char(a, ',')),
            parse_u32(before_char(b, ',')),
        ) {
            (Some(o), Some(n)) => Some((o, n, trim(d))),
            _ => None,
        }),
{
    reveal_strlit("@@ -");
    lemma_separators();
    let line = hunk_line(a, b, d);
    let r2 = b + " @@"@ + d;
    let rest = a + " +"@ + r2;
    assert(line =~= "@@ -"@ + rest);
    assert(line.take(4) =~= "@@ -"@);
    assert(strip_prefix(line, "@@ -"@) =~= rest);
    lemma_split_once_iff(rest, " +"@, a, r2);
    lemma_split_once_iff(r2, " @@"@, b, d);
}

/// Every line that reads as a hunk header has the form `@@ -A +B @@D`,
/// with no ` +` in `A` and no ` @@` in `B`.
pub proof fn law_hunk_header_has_form(line: Seq<char>)
    ensures
        hunk_header(line) is Some ==> exists|a: Seq<char>, b: Seq<char>, d: Seq<char>|
            line == #[trigger] hunk_line(a, b, d) && !contains(a, " +"@) && !contains(b, " @@"@),
{
    if hunk_header(line) is Some {
        reveal_strlit("@@ -");
        lemma_separators();
        let rest = strip_prefix(line, "@@ -"@);
        let (a, r2) = split_once(rest, " +"@)->0;
        let (b, d) = split_once(r2, " @@"@)->0;
        lemma_split_once_iff(rest, " +"@, a, r2);
        lemma_split_once_iff(r2, " @@"@, b, d);
        assert(line =~= line.take(4) + rest);
        assert(line =~= hunk_line(a, b, d));
    }
}

/// A line is a Markdown heading exactly when, after its leading
/// whitespace, it has one to six `#` marks, then a space, then text that is
/// not empty once trimmed and stripped of closing `#`s; that text is what
/// it gives, and it is already trimmed.
pub proof fn law_markdown_heading_form(line: Seq<char>)
    ensures
        ({
            let t = trim_start(line);
            let k = count_leading(t, '#');
            let h = trim(trim_end_char(trim(t.skip(k as int + 1)), '#'));
            let form = 1 <= k <= 6 && k < t.len() && t[k as int] == ' ' && h.len() > 0;
            &&& form ==> md_heading(line) == Some(h)
            &&& !form ==> md_heading(line) is None
        }),
        md_heading(line) matches Some(h) ==> h.len() > 0 && trim(h) == h,
{
    let t = trim_start(line);
    let k = count_leading(t, '#');
    lemma_trim_idempotent(trim_end_char(trim(t.skip(k as int + 1)), '#'));
}

proof fn lemma_ascii_lines_keep_reading(st: PatchScan, ls: Seq<Seq<char>>)
    requires
        !st.broken,
        forall|i: int| 0 <= i < ls.len() ==> (#[trigger] ls[i]).len() == 0 || (ls[i][0] as u32) < 0x80,
    ensures
        !scan_lines(st, ls).broken,
    decreases ls.len(),
{
    if ls.len() > 0 {
        assert forall|i: int| 0 <= i < ls.drop_first().len() implies (#[trigger] ls.drop_first()[i]).len()
            == 0 || (ls.drop_first()[i][0] as u32) < 0x80 by {
            assert(ls.drop_first()[i] == ls[i + 1]);
        }
        lemma_ascii_lines_keep_reading(scan_line(st, ls[0]), ls.drop_first());
    }
}

/// A patch whose every line is empty or starts with an ASCII character (as
/// the lines of a Git unified diff do) is always accepted.
pub proof fn law_ascii_patch_is_accepted(patch: Seq<char>)
    requires
        forall|i: int|
            0 <= i < lines(patch).len() ==> (#[trigger] lines(patch)[i]).len() == 0 || (lines(
                patch,
            )[i][0] as u32) < 0x80,
    ensures
        document_patch(patch) is Some,
{
    lemma_ascii_lines_keep_reading(scan_start(), lines(patch));
}

/// The reading state after the first body line of the only file's first
/// hunk gave that hunk the heading `t`: the hunk holds a line already, and
/// it starts with an addition.
pub open spec fn first_hunk_named(st: PatchScan, t: Seq<char>) -> bool {
    &&& scan_wf(st)
    &&& st.in_file
    &&& st.files.len() == 1
    &&& st.files[0].hunks.len() >= 1
    &&& st.files[0].hunks[0].heading == t
    &&& st.files[0].hunks[0].lines.len() > 0
    &&& st.files[0].hunks[0].lines[0].kind == PatchLineKind::Add
}

proof fn lemma_first_hunk_keeps_name(st: PatchScan, t: Seq<char>, body: Seq<Seq<char>>)
    requires
        first_hunk_named(st, t),
        forall|i: int| 0 <= i < body.len() ==> !starts_with(#[trigger] body[i], "diff --git "@),
    ensures
        first_hunk_named(scan_lines(st, body), t),
    decreases body.len(),
{
    if body.len() > 0 {
        let l = body[0];
        lemma_scan_line_wf(st, l);
        let h0 = st.files[0].hunks[0];
        assert(!all_context(h0.lines)) by {
            assert(h0.lines[0].kind == PatchLineKind::Add);
        }
        let next = scan_line(st, l);
        assert(st.files.last() == st.files[0]);
        if st.files[0].hunks.len() == 1 {
            assert(st.files[0].hunks.last() == h0);
        }
        assert(next.files[0].hunks[0].lines[0] == h0.lines[0]);
        assert(first_hunk_named(next, t));
        assert forall|i: int| 0 <= i < body.drop_first().len() implies !starts_with(
            #[trigger] body.drop_first()[i],
            "diff --git "@,
        ) by {
            assert(body.drop_first()[i] == body[i + 1]);
        }
        lemma_first_hunk_keeps_name(next, t, body.drop_first());
    }
}

/// An added Markdown heading line that opens a hunk names the hunk's
/// section: in a patch of one file section (`diff --git `, `--- `, `+++ `,
/// a hunk header) whose first hunk line is `+` and a heading with text
/// `t`, the hunk's heading is `t`, whatever follows in that section.
pub proof fn law_added_heading_names_the_hunk(
    patch: Seq<char>,
    d: Seq<char>,
    a: Seq<char>,
    b: Seq<char>,
    hdr: Seq<char>,
    h: Seq<char>,
    t: Seq<char>,
    body: Seq<Seq<char>>,
)
    requires
        lines(patch) == seq![d, "--- "@ + a, "+++ "@ + b, hdr, "+"@ + h] + body,
        starts_with(d, "diff --git "@),
        hunk_header(hdr) is Some,
        md_heading(h) == Some(t),
        forall|i: int| 0 <= i < body.len() ==> !starts_with(#[trigger] body[i], "diff --git "@),
    ensures
        document_patch(patch) matches Some(files) ==> forall|i: int|
            0 <= i < files.len() ==> (#[trigger] files[i]).hunks[0].heading == t,
{
    reveal_strlit("diff --git ");
    reveal_strlit("--- ");
    reveal_strlit("+++ ");
    reveal_strlit("@@ -");
    reveal_strlit("+");
    reveal_strlit("\\ No newline");
    let ls = lines(patch);
    let minus = "--- "@ + a;
    let plus = "+++ "@ + b;
    let add = "+"@ + h;
    let s0 = scan_start();
    let s1 = scan_line(s0, d);
    assert(s1.files.len() == 1 && s1.files[0].hunks.len() == 0 && s1.in_file && !s1.in_hunk);
    assert(minus[0] == '-');
    assert(!starts_with(minus, "diff --git "@)) by {
        if starts_with(minus, "diff --git "@) {
            assert(minus.take(11)[0] == minus[0]);
        }
    }
    assert(!starts_with(minus, "+++ "@)) by {
        if starts_with(minus, "+++ "@) {
            assert(minus.take(4)[0] == minus[0]);
        }
    }
    assert(starts_with(minus, "--- "@)) by {
        assert(minus.take(4) =~= "--- "@);
    }
    let s2 = scan_line(s1, minus);
    assert(s2.files.len() == 1 && s2.files[0].hunks.len() == 0 && s2.in_file && !s2.in_hunk
        && !s2.broken);
    assert(plus[0] == '+');
    assert(!starts_with(plus, "diff --git "@)) by {
        if starts_with(plus, "diff --git "@) {
            assert(plus.take(11)[0] == plus[0]);
        }
    }
    assert(starts_with(plus, "+++ "@)) by {
        assert(plus.take(4) =~= "+++ "@);
    }
    let s3 = scan_line(s2, plus);
    assert(s3.files.len() == 1 && s3.files[0].hunks.len() == 0 && s3.in_file && !s3.in_hunk
        && !s3.broken);
    assert(starts_with(hdr, "@@ -"@));
    assert(hdr[0] == '@') by {
        assert(hdr.take(4)[0] == hdr[0]);
    }
    assert(!starts_with(hdr, "diff --git "@)) by {
        if starts_with(hdr, "diff --git "@) {
            assert(hdr.take(11)[0] == hdr[0]);
        }
    }
    assert(!starts_with(hdr, "+++ "@)) by {
        if starts_with(hdr, "+++ "@) {
            assert(hdr.take(4)[0] == hdr[0]);
        }
    }
    assert(!starts_with(hdr, "--- "@)) by {
        if starts_with(hdr, "--- "@) {
            assert(hdr.take(4)[0] == hdr[0]);
        }
    }
    let s4 = scan_line(s3, hdr);
    assert(s4.files.len() == 1 && s4.files[0].hunks.len() == 1 && s4.in_file && s4.in_hunk
        && !s4.broken && s4.files[0].hunks[0].lines.len() == 0);
    // the added heading line
    assert(add[0] == '+' && add.drop_first() =~= h);
    assert(!starts_with(add, "diff --git "@)) by {
        if starts_with(add, "diff --git "@) {
            assert(add.take(11)[0] == add[0]);
        }
    }
    assert(!starts_with(add, "+++ "@)) by {
        if starts_with(add, "+++ "@) {
            assert(add.take(4)[1] == add[1]);
            assert(h[0] == '+');
            assert(trim_start(h) == h);
            assert(count_leading(h, '#') == 0);
        }
    }
    assert(!starts_with(add, "--- "@)) by {
        if starts_with(add, "--- "@) {
            assert(add.take(4)[0] == add[0]);
        }
    }
    assert(!starts_with(add, "@@ -"@)) by {
        if starts_with(add, "@@ -"@) {
            assert(add.take(4)[0] == add[0]);
        }
    }
    assert(hunk_header(add) is None);
    assert(!starts_with(add, "\\ No newline"@)) by {
        if starts_with(add, "\\ No newline"@) {
            assert(add.take(12)[0] == add[0]);
        }
    }
    assert(s4.files.last().hunks.last() == s4.files[0].hunks[0]);
    assert(all_context(s4.files[0].hunks[0].lines));
    let s5 = scan_line(s4, add);
    assert(s5 == scan_hunk_line(s4, '+', h));
    assert(first_hunk_named(s5, t));
    // reading the rest of the section
    let l1 = seq!["--- "@ + a, "+++ "@ + b, hdr, "+"@ + h] + body;
    let l2 = seq!["+++ "@ + b, hdr, "+"@ + h] + body;
    let l3 = seq![hdr, "+"@ + h] + body;
    let l4 = seq!["+"@ + h] + body;
    assert(ls[0] == d && ls.drop_first() =~= l1);
    assert(l1[0] == minus && l1.drop_first() =~= l2);
    assert(l2[0] == plus && l2.drop_first() =~= l3);
    assert(l3[0] == hdr && l3.drop_first() =~= l4);
    assert(l4[0] == add && l4.drop_first() =~= body);
    assert(scan_lines(s0, ls) == scan_lines(s1, l1));
    assert(scan_lines(s1, l1) == scan_lines(s2, l2));
    assert(scan_lines(s2, l2) == scan_lines(s3, l3));
    assert(scan_lines(s3, l3) == scan_lines(s4, l4));
    assert(scan_lines(s4, l4) == scan_lines(s5, body));
    lemma_first_hunk_keeps_name(s5, t, body);
    let fin = scan_lines(s5, body);
    if !fin.broken {
        reveal(Seq::filter);
        let pred = |f: FileView| keeps_file(f);
        assert(fin.files.drop_last() =~= Seq::<FileView>::empty());
        assert(fin.files.drop_last().filter(pred) =~= Seq::<FileView>::empty());
        let files = fin.files.filter(pred);
        assert(files.len() == 0 || files =~= seq![fin.files[0]]);
    }
}

/// Extracts document paths, Markdown section context and line numbers from a
/// unified Git patch. Binary changes and patches without hunks are omitted.
pub fn parse_document_patch(patch: &str) -> (r: Vec<FilePatch>)
    requires
        document_patch(patch@) is Some,
    ensures
        document_patch(patch@) == Some(files_view(r@)),
{
    match try_parse_document_patch(patch) {
        Some(files) => files,
        None => Vec::new(),
    }
}

/// The start lines and the trimmed heading of a hunk header line.
pub fn parse_hunk_header(line: &str) -> (r: Option<(u32, u32, String)>)
    ensures
        match r {
            Some((o, n, h)) => hunk_header(line@) == Some((o, n, h@)),
            None => hunk_header(line@) is None,
        },
{
    let chars = chars_of(line);
    let pats = Patterns::new();
    let r = hunk_header_at(chars.as_slice(), 0, chars.len(), &pats);
    assert(chars@.subrange(0, chars@.len() as int) =~= line@);
    r
}

/// The text of a Markdown ATX heading line (levels one to six).
pub fn markdown_heading(line: &str) -> (r: Option<String>)
    ensures
        match r {
            Some(h) => md_heading(line@) == Some(h@),
            None => md_heading(line@) is None,
        },
{
    let chars = chars_of(line);
    let r = markdown_heading_at(chars.as_slice(), 0, chars.len());
    assert(chars@.subrange(0, chars@.len() as int) =~= line@);
    r
}

// ---------------------------------------------------------------------------
// Laws
// ---------------------------------------------------------------------------

/// What a patch line's kind says of its line numbers: an added line has
/// only a new-side number, a deleted line only an old-side one, a context
/// line both.
pub open spec fn numbers_fit_kind(l: PatchLineView) -> bool {
    match l.kind {
        PatchLineKind::Add => l.old_line is None && l.new_line is Some,
        PatchLineKind::Delete => l.old_line is Some && l.new_line is None,
        PatchLineKind::Context => l.old_line is Some && l.new_line is Some,
    }
}

pub open spec fn file_numbers_fit(f: FileView) -> bool {
    forall|h: int, i: int|
        0 <= h < f.hunks.len() && 0 <= i < f.hunks[h].lines.len() ==> numbers_fit_kind(
            #[trigger] f.hunks[h].lines[i],
        )
}

pub open spec fn all_numbers_fit(files: Seq<FileView>) -> bool {
    forall|k: int| 0 <= k < files.len() ==> file_numbers_fit(#[trigger] files[k])
}

proof fn lemma_scan_line_numbers(st: PatchScan, line: Seq<char>)
    requires
        scan_wf(st),
        all_numbers_fit(st.files),
    ensures
        scan_wf(scan_line(st, line)),
        all_numbers_fit(scan_line(st, line).files),
{
    let next = scan_line(st, line);
    if !st.broken && !starts_with(line, "diff --git "@) && st.in_file && !starts_with(line, "+++ "@)
        && !(st.files.last().path.len() == 0 && starts_with(line, "--- "@)) && hunk_header(line) is None
        && st.in_hunk && !(starts_with(line, "\\ No newline"@) || line.len() == 0) && !(line[0] as u32
        >= 0x80) {
        let f = st.files.last();
        let h = f.hunks.last();
        assert forall|k: int| 0 <= k < next.files.len() implies file_numbers_fit(
            #[trigger] next.files[k],
        ) by {
            if k == next.files.len() - 1 {
                let nf = next.files[k];
                assert forall|a: int, i: int|
                    0 <= a < nf.hunks.len() && 0 <= i < nf.hunks[a].lines.len() implies numbers_fit_kind(
                    #[trigger] nf.hunks[a].lines[i],
                ) by {
                    if a < f.hunks.len() - 1 {
                        assert(nf.hunks[a] == f.hunks[a]);
                    } else if i < h.lines.len() {
                        assert(nf.hunks[a].lines[i] == h.lines[i]);
                    }
                }
            } else {
                assert(next.files[k] == st.files[k]);
            }
        }
    } else if !st.broken && !starts_with(line, "diff --git "@) && st.in_file && hunk_header(line)
        is Some && !starts_with(line, "+++ "@) && !(st.files.last().path.len() == 0 && starts_with(
        line,
        "--- "@,
    )) {
        let f = st.files.last();
        assert forall|k: int| 0 <= k < next.files.len() implies file_numbers_fit(
            #[trigger] next.files[k],
        ) by {
            if k == next.files.len() - 1 {
                let nf = next.files[k];
                assert forall|a: int, i: int|
                    0 <= a < nf.hunks.len() && 0 <= i < nf.hunks[a].lines.len() implies numbers_fit_kind(
                    #[trigger] nf.hunks[a].lines[i],
                ) by {
                    if a < f.hunks.len() {
                        assert(nf.hunks[a] == f.hunks[a]);
                    }
                }
            } else {
                assert(next.files[k] == st.files[k]);
            }
        }
    } else if !st.broken && starts_with(line, "diff --git "@) {
        assert forall|k: int| 0 <= k < next.files.len() implies file_numbers_fit(
            #[trigger] next.files[k],
        ) by {
            if k < st.files.len() {
                assert(next.files[k] == st.files[k]);
            }
        }
    } else {
        assert forall|k: int| 0 <= k < next.files.len() implies file_numbers_fit(
            #[trigger] next.files[k],
        ) by {
            if k < next.files.len() - 1 || !st.in_file {
                assert(next.files[k] == st.files[k]);
            } else {
                assert(next.files[k].hunks == st.files[k].hunks);
            }
        }
    }
}

proof fn lemma_scan_lines_numbers(st: PatchScan, ls: Seq<Seq<char>>)
    requires
        scan_wf(st),
        all_numbers_fit(st.files),
    ensures
        all_numbers_fit(scan_lines(st, ls).files),
    decreases ls.len(),
{
    if ls.len() > 0 {
        lemma_scan_line_numbers(st, ls[0]);
        lemma_scan_lines_numbers(scan_line(st, ls[0]), ls.drop_first());
    }
}

proof fn lemma_filter_keeps<A>(s: Seq<A>, pred: spec_fn(A) -> bool, p: spec_fn(A) -> bool)
    requires
        forall|i: int| 0 <= i < s.len() ==> p(#[trigger] s[i]),
    ensures
        forall|i: int| 0 <= i < s.filter(pred).len() ==> p(#[trigger] s.filter(pred)[i]),
    decreases s.len(),
{
    reveal(Seq::filter);
    if s.len() > 0 {
        lemma_filter_keeps(s.drop_last(), pred, p);
        let sub = s.drop_last().filter(pred);
        assert forall|i: int| 0 <= i < s.filter(pred).len() implies p(#[trigger] s.filter(pred)[i]) by {
            if i < sub.len() {
                assert(s.filter(pred)[i] == sub[i]);
            } else {
                assert(s.filter(pred)[i] == s.last());
            }
        }
    }
}

/// The changes read from a patch are documents: every file kept has a path
/// and at least one hunk.
pub proof fn law_changed_files_have_path_and_hunks(patch: Seq<char>)
    ensures
        document_patch(patch) matches Some(files) ==> forall|i: int|
            0 <= i < files.len() ==> #[trigger] files[i].path.len() > 0 && files[i].hunks.len() > 0,
{
    let st = scan_lines(scan_start(), lines(patch));
    if !st.broken {
        broadcast use vstd::seq_lib::group_filter_ensures;
        let files = st.files.filter(|f: FileView| keeps_file(f));
        assert forall|i: int| 0 <= i < files.len() implies #[trigger] files[i].path.len() > 0
            && files[i].hunks.len() > 0 by {
            assert(keeps_file(files[i]));
        }
    }
}

/// How many of `ls` open a file section (start with `diff --git `).
pub open spec fn file_header_count(ls: Seq<Seq<char>>) -> nat
    decreases ls.len(),
{
    if ls.len() == 0 {
        0
    } else {
        (if starts_with(ls[0], "diff --git "@) {
            1nat
        } else {
            0nat
        }) + file_header_count(ls.drop_first())
    }
}

proof fn lemma_scan_lines_file_count(st: PatchScan, ls: Seq<Seq<char>>)
    requires
        scan_wf(st),
    ensures
        scan_lines(st, ls).files.len() <= st.files.len() + file_header_count(ls),
    decreases ls.len(),
{
    if ls.len() > 0 {
        lemma_scan_line_wf(st, ls[0]);
        lemma_scan_lines_file_count(scan_line(st, ls[0]), ls.drop_first());
    }
}

/// A patch names no more changed documents than it has file sections:
/// each kept file comes from its own `diff --git ` line.
pub proof fn law_changed_files_at_most_file_sections(patch: Seq<char>)
    ensures
        document_patch(patch) matches Some(files) ==> files.len() <= file_header_count(lines(patch)),
{
    let st = scan_lines(scan_start(), lines(patch));
    lemma_scan_lines_file_count(scan_start(), lines(patch));
    st.files.lemma_filter_len(|f: FileView| keeps_file(f));
}

/// Every changed line carries the line numbers of its kind: an added line
/// a new-side number only, a deleted line an old-side number only, a
/// context line both.
pub proof fn law_changed_lines_numbered_by_kind(patch: Seq<char>)
    ensures
        document_patch(patch) matches Some(files) ==> all_numbers_fit(files),
{
    let st = scan_lines(scan_start(), lines(patch));
    assert(all_numbers_fit(scan_start().files));
    lemma_scan_lines_numbers(scan_start(), lines(patch));
    if !st.broken {
        lemma_filter_keeps(
            st.files,
            |f: FileView| keeps_file(f),
            |f: FileView| file_numbers_fit(f),
        );
    }
}

/// How many of `lines` carry a number on the new side (`new_side`) or on
/// the old side.
pub open spec fn numbered_lines(lines: Seq<PatchLineView>, new_side: bool) -> nat
    decreases lines.len(),
{
    if lines.len() == 0 {
        0
    } else {
        numbered_lines(lines.drop_last(), new_side) + if (if new_side {
            lines.last().new_line is Some
        } else {
            lines.last().old_line is Some
        }) {
            1nat
        } else {
            0nat
        }
    }
}

/// `a` counted on `k` times, wrapping as a `u32`.
pub open spec fn count_on(a: u32, k: nat) -> u32
    decreases k,
{
    if k == 0 {
        a
    } else {
        wrap_inc(count_on(a, (k - 1) as nat))
    }
}

/// Within a hunk, the numbers count on from the hunk header: a line's
/// new-side number is the header's new start plus the number of earlier
/// lines that have a new-side number, and likewise on the old side.
pub open spec fn hunk_counts_on(h: HunkView) -> bool {
    forall|i: int|
        0 <= i < h.lines.len() ==> {
            &&& ((#[trigger] h.lines[i]).new_line matches Some(n) ==> n == count_on(
                h.new_start,
                numbered_lines(h.lines.take(i), true),
            ))
            &&& (h.lines[i].old_line matches Some(o) ==> o == count_on(
                h.old_start,
                numbered_lines(h.lines.take(i), false),
            ))
        }
}

pub open spec fn files_count_on(files: Seq<FileView>) -> bool {
    forall|k: int, a: int|
        0 <= k < files.len() && 0 <= a < files[k].hunks.len() ==> hunk_counts_on(
            #[trigger] files[k].hunks[a],
        )
}

/// The reading state keeps the numbering: every hunk counts on from its
/// header, and the open hunk's next numbers are where its count stands.
pub open spec fn scan_counts_on(st: PatchScan) -> bool {
    &&& files_count_on(st.files)
    &&& st.in_hunk ==> {
        let h = st.files.last().hunks.last();
        &&& st.new_line == count_on(h.new_start, numbered_lines(h.lines, true))
        &&& st.old_line == count_on(h.old_start, numbered_lines(h.lines, false))
    }
}

proof fn lemma_push_counts_on(h: HunkView, l: PatchLineView, new_line: u32, old_line: u32)
    requires
        hunk_counts_on(h),
        new_line == count_on(h.new_start, numbered_lines(h.lines, true)),
        old_line == count_on(h.old_start, numbered_lines(h.lines, false)),
        l.new_line is Some ==> l.new_line == Some(new_line),
        l.old_line is Some ==> l.old_line == Some(old_line),
    ensures
        hunk_counts_on(HunkView { lines: h.lines.push(l), ..h }),
        numbered_lines(h.lines.push(l), true) == numbered_lines(h.lines, true) + if l.new_line is Some {
            1nat
        } else {
            0nat
        },
        numbered_lines(h.lines.push(l), false) == numbered_lines(h.lines, false) + if l.old_line is Some {
            1nat
        } else {
            0nat
        },
{
    let ls = h.lines.push(l);
    assert(ls.drop_last() =~= h.lines);
    let h2 = HunkView { lines: ls, ..h };
    assert forall|i: int| 0 <= i < ls.len() implies {
        &&& ((#[trigger] h2.lines[i]).new_line matches Some(n) ==> n == count_on(
            h2.new_start,
            numbered_lines(h2.lines.take(i), true),
        ))
        &&& (h2.lines[i].old_line matches Some(o) ==> o == count_on(
            h2.old_start,
            numbered_lines(h2.lines.take(i), false),
        ))
    } by {
        if i < h.lines.len() {
            assert(ls.take(i) =~= h.lines.take(i));
            assert(ls[i] == h.lines[i]);
        } else {
            assert(ls.take(i) =~= h.lines);
        }
    }
}

proof fn lemma_scan_line_counts_on(st: PatchScan, line: Seq<char>)
    requires
        scan_wf(st),
        scan_counts_on(st),
    ensures
        scan_counts_on(scan_line(st, line)),
{
    let next = scan_line(st, line);
    lemma_scan_line_wf(st, line);
    if !st.broken && !starts_with(line, "diff --git "@) && st.in_file && !starts_with(line, "+++ "@)
        && !(st.files.last().path.len() == 0 && starts_with(line, "--- "@)) && hunk_header(line) is None
        && st.in_hunk && !(starts_with(line, "\\ No newline"@) || line.len() == 0) && !(line[0] as u32
        >= 0x80) {
        let f = st.files.last();
        let h = f.hunks.last();
        let marker = line[0];
        let content = line.drop_first();
        let heading = match md_heading(content) {
            Some(t) => if marker != '-' && all_context(h.lines) {
                t
            } else {
                h.heading
            },
            None => h.heading,
        };
        let h2 = HunkView { heading, ..h };
        assert(hunk_counts_on(h2));
        let nh = next.files.last().hunks.last();
        if marker == '+' {
            let l = PatchLineView {
                kind: PatchLineKind::Add,
                content,
                old_line: None,
                new_line: Some(st.new_line),
            };
            lemma_push_counts_on(h2, l, st.new_line, st.old_line);
            assert(nh == HunkView { lines: h2.lines.push(l), ..h2 });
        } else if marker == '-' {
            let l = PatchLineView {
                kind: PatchLineKind::Delete,
                content,
                old_line: Some(st.old_line),
                new_line: None,
            };
            lemma_push_counts_on(h2, l, st.new_line, st.old_line);
            assert(nh == HunkView { lines: h2.lines.push(l), ..h2 });
        } else if marker == ' ' {
            let l = PatchLineView {
                kind: PatchLineKind::Context,
                content,
                old_line: Some(st.old_line),
                new_line: Some(st.new_line),
            };
            lemma_push_counts_on(h2, l, st.new_line, st.old_line);
            assert(nh == HunkView { lines: h2.lines.push(l), ..h2 });
        } else {
            assert(nh == h2);
        }
        assert forall|k: int, a: int|
            0 <= k < next.files.len() && 0 <= a < next.files[k].hunks.len() implies hunk_counts_on(
            #[trigger] next.files[k].hunks[a],
        ) by {
            if k == next.files.len() - 1 && a == f.hunks.len() - 1 {
                assert(next.files[k].hunks[a] == nh);
            } else if k == next.files.len() - 1 {
                assert(next.files[k].hunks[a] == f.hunks[a]);
            } else {
                assert(next.files[k] == st.files[k]);
            }
        }
    } else if !st.broken && !starts_with(line, "diff --git "@) && st.in_file && hunk_header(line)
        is Some && !starts_with(line, "+++ "@) && !(st.files.last().path.len() == 0 && starts_with(
        line,
        "--- "@,
    )) {
        let f = st.files.last();
        let (o, n, heading) = hunk_header(line)->0;
        let nh = HunkView { old_start: o, new_start: n, heading, lines: seq![] };
        assert(hunk_counts_on(nh));
        assert(next.files.last().hunks.last() == nh);
        assert forall|k: int, a: int|
            0 <= k < next.files.len() && 0 <= a < next.files[k].hunks.len() implies hunk_counts_on(
            #[trigger] next.files[k].hunks[a],
        ) by {
            if k == next.files.len() - 1 && a < f.hunks.len() {
                assert(next.files[k].hunks[a] == f.hunks[a]);
            } else if k < next.files.len() - 1 {
                assert(next.files[k] == st.files[k]);
            }
        }
    } else if !st.broken && starts_with(line, "diff --git "@) {
        assert forall|k: int, a: int|
            0 <= k < next.files.len() && 0 <= a < next.files[k].hunks.len() implies hunk_counts_on(
            #[trigger] next.files[k].hunks[a],
        ) by {
            if k < st.files.len() {
                assert(next.files[k] == st.files[k]);
            }
        }
    } else {
        assert forall|k: int, a: int|
            0 <= k < next.files.len() && 0 <= a < next.files[k].hunks.len() implies hunk_counts_on(
            #[trigger] next.files[k].hunks[a],
        ) by {
            if k < next.files.len() - 1 || !st.in_file {
                assert(next.files[k] == st.files[k]);
            } else {
                assert(next.files[k].hunks == st.files[k].hunks);
            }
        }
        if st.in_hunk && next.in_hunk {
            assert(next.files.last().hunks == st.files.last().hunks);
        }
    }
}

proof fn lemma_scan_lines_counts_on(st: PatchScan, ls: Seq<Seq<char>>)
    requires
        scan_wf(st),
        scan_counts_on(st),
    ensures
        files_count_on(scan_lines(st, ls).files),
    decreases ls.len(),
{
    if ls.len() > 0 {
        lemma_scan_line_wf(st, ls[0]);
        lemma_scan_line_counts_on(st, ls[0]);
        lemma_scan_lines_counts_on(scan_line(st, ls[0]), ls.drop_first());
    }
}

/// The line numbers of a hunk count on from its header: each changed or
/// context line's new-side number is the header's new start plus the number
/// of earlier lines of the hunk that have a new-side number (wrapping as a
/// `u32`), and likewise on the old side.
pub proof fn law_line_numbers_count_from_header(patch: Seq<char>)
    ensures
        document_patch(patch) matches Some(files) ==> files_count_on(files),
{
    let st = scan_lines(scan_start(), lines(patch));
    lemma_scan_lines_counts_on(scan_start(), lines(patch));
    if !st.broken {
        let kept = st.files.filter(|f: FileView| keeps_file(f));
        lemma_filter_keeps(
            st.files,
            |f: FileView| keeps_file(f),
            |f: FileView|
                forall|a: int| 0 <= a < f.hunks.len() ==> hunk_counts_on(#[trigger] f.hunks[a]),
        );
        assert forall|k: int, a: int|
            0 <= k < kept.len() && 0 <= a < kept[k].hunks.len() implies hunk_counts_on(
            #[trigger] kept[k].hunks[a],
        ) by {
            let p = |f: FileView|
                forall|a: int| 0 <= a < f.hunks.len() ==> hunk_counts_on(#[trigger] f.hunks[a]);
            assert(p(kept[k]));
        }
    }
}

} // verus!
