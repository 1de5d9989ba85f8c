//! Rules for importing local files: which paths count as Markdown, where an
//! imported file lands in the project, and the limits on a folder import.
use vstd::prelude::*;

use crate::api::dto::{ImportFile, UploadFile};
use crate::text::{
    chars_of, decimal, decimal_string, join_with, last_pos, last_pos_at, last_pos_before,
    lemma_last_pos_bounds, lowercase_ascii, lowercase_ascii_at, push_char, push_str, str_eq,
    starts_with, string_from_chars, to_owned_string, trim_char, trim_end_char_at,
    trim_start_char_at,
};

verus! {

/// Files larger than this are not read (5 MiB).
pub const MAX_IMPORT_FILE_BYTES: usize = 5242880;

/// A folder import reads at most this many bytes in all (128 MiB).
pub const MAX_IMPORT_TOTAL_BYTES: usize = 134217728;

/// A folder import takes at most this many files.
pub const MAX_IMPORT_FILES: usize = 10000;

/// A folder import walks at most this many directories.
pub const MAX_IMPORT_DIRECTORIES: usize = 100000;

// ---------------------------------------------------------------------------
// Paths
// ---------------------------------------------------------------------------

/// The file name of a `/`-separated path (`Path::file_name`): its last
/// component that is a name, skipping empty and `.` components; `None` when
/// that component is `..` or there is none.
pub open spec fn path_file_name(p: Seq<char>) -> Option<Seq<char>>
    decreases p.len(),
{
    let k = last_pos(p, '/');
    let seg = p.skip(k + 1);
    if seg.len() == 0 || seg == "."@ {
        if k < 0 {
            None
        } else {
            proof {
                lemma_last_pos_bounds(p, '/', p.len() as int);
            }
            path_file_name(p.take(k))
        }
    } else if seg == ".."@ {
        None
    } else {
        Some(seg)
    }
}

/// The extension of a file name (`Path::extension`): the text after its
/// last `.`, when something other than that dot comes before it.
pub open spec fn name_extension(name: Seq<char>) -> Option<Seq<char>> {
    let d = last_pos(name, '.');
    if name == ".."@ || d <= 0 {
        None
    } else {
        Some(name.skip(d + 1))
    }
}

/// Paths whose extension is `md` or `markdown`, in any ASCII case.
pub open spec fn is_markdown_path(p: Seq<char>) -> bool {
    match path_file_name(p) {
        Some(name) => match name_extension(name) {
            Some(e) => lowercase_ascii(e) == "md"@ || lowercase_ascii(e) == "markdown"@,
            None => false,
        },
        None => false,
    }
}

/// `s` with every backslash turned into a slash.
pub open spec fn backslash_to_slash(s: Seq<char>) -> Seq<char> {
    s.map_values(|c: char| if c == '\\' { '/' } else { c })
}

/// Where an imported file lands: the relative path (outer slashes removed,
/// backslashes made slashes) under the base directory (outer slashes
/// removed), with one `/` between them.
pub open spec fn import_path(base: Seq<char>, relative: Seq<char>) -> Seq<char> {
    let rel = backslash_to_slash(trim_char(relative, '/'));
    let b = trim_char(base, '/');
    if b.len() == 0 {
        rel
    } else if rel.len() == 0 {
        b
    } else {
        b + "/"@ + rel
    }
}

/// An imported file lands inside the base directory: below the base (its
/// outer slashes removed) and one `/`, whenever both are non-empty.
pub proof fn law_import_lands_under_base(base: Seq<char>, relative: Seq<char>)
    requires
        trim_char(base, '/').len() > 0,
        trim_char(relative, '/').len() > 0,
    ensures
        starts_with(import_path(base, relative), trim_char(base, '/') + "/"@),
{
    let b = trim_char(base, '/');
    let rel = backslash_to_slash(trim_char(relative, '/'));
    assert(rel.len() == trim_char(relative, '/').len());
    let t = b + "/"@ + rel;
    assert(t.take((b + "/"@).len() as int) =~= b + "/"@);
}

/// The file name of `path` (see [`path_file_name`]).
pub fn file_name(path: &str) -> (r: Option<String>)
    ensures
        match r {
            Some(n) => path_file_name(path@) == Some(n@),
            None => path_file_name(path@) is None,
        },
{
    let cs = chars_of(path);
    let s = cs.as_slice();
    let dot = chars_of(".");
    let dotdot = chars_of("..");
    let mut end = s.len();
    assert(s@.take(end as int) =~= path@);
    loop
        invariant
            end <= s@.len(),
            s@ == path@,
            dot@ == "."@,
            dotdot@ == ".."@,
            path_file_name(path@) == path_file_name(s@.take(end as int)),
        decreases end,
    {
        let ghost p = s@.take(end as int);
        proof {
            lemma_last_pos_bounds(p, '/', p.len() as int);
            lemma_last_pos_before_prefix(s@, '/', end as int);
        }
        let k = last_pos_at(s, '/', end);
        let start = match k {
            Some(k) => k + 1,
            None => 0,
        };
        assert(p.skip(last_pos(p, '/') + 1) =~= s@.subrange(start as int, end as int));
        let is_dot = crate::text::equals_at(s, start, end, dot.as_slice());
        if start == end || is_dot {
            match k {
                None => {
                    return None;
                },
                Some(k) => {
                    assert(p.take(k as int) =~= s@.take(k as int));
                    end = k;
                },
            }
        } else if crate::text::equals_at(s, start, end, dotdot.as_slice()) {
            return None;
        } else {
            return Some(string_from_chars(&s[start..end]));
        }
    }
}

proof fn lemma_last_pos_before_prefix(s: Seq<char>, c: char, i: int)
    requires
        0 <= i <= s.len(),
    ensures
        last_pos(s.take(i), c) == last_pos_before(s, c, i),
{
    lemma_last_pos_before_take(s, c, i, i);
}

proof fn lemma_last_pos_before_take(s: Seq<char>, c: char, i: int, j: int)
    requires
        0 <= j <= i <= s.len(),
    ensures
        last_pos_before(s.take(i), c, j) == last_pos_before(s, c, j),
    decreases j,
{
    if j > 0 {
        lemma_last_pos_before_take(s, c, i, j - 1);
    }
}

/// Whether `path` names a Markdown file (see [`is_markdown_path`]).
pub fn is_markdown_import_path(path: &str) -> (b: bool)
    ensures
        b == is_markdown_path(path@),
{
    let name = match file_name(path) {
        Some(n) => n,
        None => {
            return false;
        },
    };
    if str_eq(name.as_str(), "..") {
        return false;
    }
    let cs = chars_of(name.as_str());
    let s = cs.as_slice();
    proof {
        lemma_last_pos_bounds(s@, '.', s@.len() as int);
    }
    let d = match last_pos_at(s, '.', s.len()) {
        Some(d) => d,
        None => {
            return false;
        },
    };
    if d == 0 {
        return false;
    }
    let e = lowercase_ascii_at(s, d + 1, s.len());
    assert(s@.subrange(d + 1, s@.len() as int) =~= name@.skip(d + 1));
    let md = chars_of("md");
    let markdown = chars_of("markdown");
    assert(e@.subrange(0, e@.len() as int) =~= e@);
    let is_md = crate::text::equals_at(e.as_slice(), 0, e.len(), md.as_slice());
    let is_markdown = crate::text::equals_at(e.as_slice(), 0, e.len(), markdown.as_slice());
    is_md || is_markdown
}

/// Joins an imported file's relative path under a base directory (see
/// [`import_path`]).
pub fn join_document_import_path(base: &str, relative: &str) -> (r: String)
    ensures
        r@ == import_path(base@, relative@),
{
    let rc = chars_of(relative);
    let rs = rc.as_slice();
    let a = trim_start_char_at(rs, 0, rs.len(), '/');
    let b = trim_end_char_at(rs, a, rs.len(), '/');
    assert(rs@.subrange(0, rs@.len() as int) =~= relative@);
    let mut rel = String::new();
    let mut i = a;
    while i < b
        invariant
            a <= i <= b <= rs@.len(),
            rel@ == backslash_to_slash(rs@.subrange(a as int, i as int)),
        decreases b - i,
    {
        let c = if rs[i] == '\\' {
            '/'
        } else {
            rs[i]
        };
        assert(backslash_to_slash(rs@.subrange(a as int, i + 1)) =~= backslash_to_slash(
            rs@.subrange(a as int, i as int),
        ).push(c));
        push_char(&mut rel, c);
        i = i + 1;
    }
    let bc = chars_of(base);
    let bs = bc.as_slice();
    let x = trim_start_char_at(bs, 0, bs.len(), '/');
    let y = trim_end_char_at(bs, x, bs.len(), '/');
    assert(bs@.subrange(0, bs@.len() as int) =~= base@);
    if x == y {
        rel
    } else if rel.as_str().is_empty() {
        string_from_chars(&bs[x..y])
    } else {
        let mut r = string_from_chars(&bs[x..y]);
        push_str(&mut r, "/");
        push_str(&mut r, rel.as_str());
        r
    }
}

// ---------------------------------------------------------------------------
// Document import
// ---------------------------------------------------------------------------

/// Decodes bytes as UTF-8 text (std's `String::from_utf8`): `None` exactly
/// when the bytes are not valid UTF-8.
#[verifier::external_body]
fn utf8_text(bytes: Vec<u8>) -> (r: Option<String>)
    ensures
        match r {
            Some(s) => vstd::utf8::valid_utf8(bytes@) && s@ == vstd::utf8::decode_utf8(bytes@),
            None => !vstd::utf8::valid_utf8(bytes@),
        },
{
    String::from_utf8(bytes).ok()
}

/// The Markdown files of a folder, ready to import under `base`: other files
/// are left out; `Err` names the first Markdown file that is not UTF-8.
pub open spec fn markdown_imports(base: Seq<char>, files: Seq<UploadFile>) -> Result<
    Seq<(Seq<char>, Seq<char>)>,
    Seq<char>,
>
    decreases files.len(),
{
    if files.len() == 0 {
        Ok(seq![])
    } else {
        match markdown_imports(base, files.drop_last()) {
            Err(e) => Err(e),
            Ok(prev) => {
                let f = files.last();
                if !is_markdown_path(f.path@) {
                    Ok(prev)
                } else if !vstd::utf8::valid_utf8(f.content@) {
                    Err("文件 "@ + f.path@ + " 不是 UTF-8 Markdown。"@)
                } else {
                    Ok(
                        prev.push(
                            (import_path(base, f.path@), vstd::utf8::decode_utf8(f.content@)),
                        ),
                    )
                }
            },
        }
    }
}

pub open spec fn import_file_view(f: ImportFile) -> (Seq<char>, Seq<char>) {
    (f.path@, f.content@)
}

/// Turns the files of a folder into Markdown imports under `base` (see
/// [`markdown_imports`]).
pub fn markdown_import_files(base: &str, files: Vec<UploadFile>) -> (r: Result<
    Vec<ImportFile>,
    String,
>)
    ensures
        match r {
            Ok(v) => markdown_imports(base@, files@) == Ok::<
                Seq<(Seq<char>, Seq<char>)>,
                Seq<char>,
            >(v@.map_values(|f: ImportFile| import_file_view(f))),
            Err(e) => markdown_imports(base@, files@) == Err::<
                Seq<(Seq<char>, Seq<char>)>,
                Seq<char>,
            >(e@),
        },
{
    let ghost all = files@;
    let mut out: Vec<ImportFile> = Vec::new();
    let n = files.len();
    assert(all.take(0) =~= Seq::<UploadFile>::empty());
    assert(out@.map_values(|f: ImportFile| import_file_view(f)) =~= Seq::<
        (Seq<char>, Seq<char>),
    >::empty());
    for f in it: files
        invariant
            it.seq() == all,
            n == all.len(),
            markdown_imports(base@, all.take(it.index() as int)) == Ok::<
                Seq<(Seq<char>, Seq<char>)>,
                Seq<char>,
            >(out@.map_values(|f: ImportFile| import_file_view(f))),
    {
        let ghost k = it.index();
        assert(all.take(k + 1).drop_last() =~= all.take(k as int));
        assert(all.take(k + 1).last() == f);
        if is_markdown_import_path(f.path.as_str()) {
            let path = f.path;
            let ghost content = f.content@;
            match utf8_text(f.content) {
                None => {
                    let mut m = to_owned_string("文件 ");
                    push_str(&mut m, path.as_str());
                    push_str(&mut m, " 不是 UTF-8 Markdown。");
                    proof {
                        lemma_imports_error_stays(base@, all, k + 1);
                    }
                    return Err(m);
                },
                Some(content) => {
                    let ghost before = out@;
                    let item = ImportFile {
                        path: join_document_import_path(base, path.as_str()),
                        content,
                    };
                    out.push(item);
                    assert(out@.map_values(|f: ImportFile| import_file_view(f)) =~= before.map_values(
                        |f: ImportFile| import_file_view(f),
                    ).push(import_file_view(item)));
                },
            }
        }
    }
    assert(all.take(n as int) =~= all);
    Ok(out)
}

/// Once a prefix of the files gives an error, the whole list gives it.
proof fn lemma_imports_error_stays(base: Seq<char>, files: Seq<UploadFile>, k: int)
    requires
        0 <= k <= files.len(),
        markdown_imports(base, files.take(k)) is Err,
    ensures
        markdown_imports(base, files) == markdown_imports(base, files.take(k)),
    decreases files.len() - k,
{
    if k < files.len() {
        assert(files.take(k + 1).drop_last() =~= files.take(k));
        lemma_imports_error_stays(base, files, k + 1);
    } else {
        assert(files.take(k) =~= files);
    }
}

/// `将导入 <n> 个文件：<first five paths joined by 、>`, then ` 等 <n-5> 个文件`
/// when there are more than five.
pub open spec fn import_summary_text(paths: Seq<Seq<char>>) -> Seq<char> {
    let n = paths.len();
    let shown = if n <= 5 {
        paths
    } else {
        paths.take(5)
    };
    let head = "将导入 "@ + decimal(n) + " 个文件："@ + join_with(shown, "、"@);
    if n > 5 {
        head + " 等 "@ + decimal((n - 5) as nat) + " 个文件"@
    } else {
        head
    }
}

/// The confirmation text of a document import.
pub fn import_summary(files: &[ImportFile]) -> (r: String)
    ensures
        r@ == import_summary_text(files@.map_values(|f: ImportFile| f.path@)),
{
    let ghost paths = files@.map_values(|f: ImportFile| f.path@);
    let n = files.len();
    let shown = if n <= 5 {
        n
    } else {
        5
    };
    let mut joined = String::new();
    let mut i: usize = 0;
    while i < shown
        invariant
            i <= shown <= n == files@.len(),
            paths == files@.map_values(|f: ImportFile| f.path@),
            joined@ == join_with(paths.take(i as int), "、"@),
        decreases shown - i,
    {
        assert(paths.take(i + 1).drop_last() =~= paths.take(i as int));
        if i > 0 {
            push_str(&mut joined, "、");
        } else {
            assert(paths.take(1) =~= seq![paths[0]]);
        }
        push_str(&mut joined, files[i].path.as_str());
        i = i + 1;
    }
    assert(paths.take(shown as int) =~= (if n <= 5 {
        paths
    } else {
        paths.take(5)
    }));
    let mut r = to_owned_string("将导入 ");
    let count = decimal_string(n as u64);
    push_str(&mut r, count.as_str());
    push_str(&mut r, " 个文件：");
    push_str(&mut r, joined.as_str());
    if n > 5 {
        push_str(&mut r, " 等 ");
        let more = decimal_string((n - 5) as u64);
        push_str(&mut r, more.as_str());
        push_str(&mut r, " 个文件");
    }
    r
}

// ---------------------------------------------------------------------------
// Folder import limits
// ---------------------------------------------------------------------------

/// What a folder walk has taken in so far.
pub struct ImportTally {
    pub files: usize,
    pub total_bytes: usize,
    pub directories: usize,
}

impl ImportTally {
    pub fn new() -> (t: ImportTally)
        ensures
            t.files == 0 && t.total_bytes == 0 && t.directories == 0,
    {
        ImportTally { files: 0, total_bytes: 0, directories: 0 }
    }

    /// Counts one more directory (saturating); refuses the walk once more
    /// than [`MAX_IMPORT_DIRECTORIES`] were seen.
    pub fn note_directory(&mut self) -> (r: Option<String>)
        ensures
            final(self).files == old(self).files,
            final(self).total_bytes == old(self).total_bytes,
            final(self).directories == (if old(self).directories == usize::MAX {
                usize::MAX
            } else {
                (old(self).directories + 1) as usize
            }),
            match r {
                None => final(self).directories <= MAX_IMPORT_DIRECTORIES,
                Some(m) => final(self).directories > MAX_IMPORT_DIRECTORIES && m@
                    == "文件夹层级项目过多，超过 "@ + decimal(MAX_IMPORT_DIRECTORIES as nat)
                    + " 个目录限制"@,
            },
    {
        self.directories = if self.directories == usize::MAX {
            usize::MAX
        } else {
            self.directories + 1
        };
        if self.directories > MAX_IMPORT_DIRECTORIES {
            let mut m = to_owned_string("文件夹层级项目过多，超过 ");
            let d = decimal_string(MAX_IMPORT_DIRECTORIES as u64);
            push_str(&mut m, d.as_str());
            push_str(&mut m, " 个目录限制");
            Some(m)
        } else {
            None
        }
    }

    /// Whether another file may be taken; refuses once
    /// [`MAX_IMPORT_FILES`] files were taken.
    pub fn file_slot_error(&self) -> (r: Option<String>)
        ensures
            match r {
                None => self.files < MAX_IMPORT_FILES,
                Some(m) => self.files >= MAX_IMPORT_FILES && m@ == "文件数量超过 "@ + decimal(
                    MAX_IMPORT_FILES as nat,
                ) + " 个限制"@,
            },
    {
        if self.files >= MAX_IMPORT_FILES {
            let mut m = to_owned_string("文件数量超过 ");
            let d = decimal_string(MAX_IMPORT_FILES as u64);
            push_str(&mut m, d.as_str());
            push_str(&mut m, " 个限制");
            Some(m)
        } else {
            None
        }
    }

    /// Takes a file of `len` bytes: the total grows (saturating) and the
    /// walk is refused once it passes [`MAX_IMPORT_TOTAL_BYTES`]; otherwise
    /// the file is counted.
    pub fn add_file(&mut self, len: usize) -> (r: Option<String>)
        requires
            old(self).files < MAX_IMPORT_FILES,
        ensures
            final(self).directories == old(self).directories,
            final(self).total_bytes == (if old(self).total_bytes + len > usize::MAX {
                usize::MAX
            } else {
                (old(self).total_bytes + len) as usize
            }),
            match r {
                None => final(self).total_bytes <= MAX_IMPORT_TOTAL_BYTES && final(self).files
                    == old(self).files + 1,
                Some(m) => final(self).total_bytes > MAX_IMPORT_TOTAL_BYTES && final(self).files
                    == old(self).files && m@ == "导入内容超过 "@ + decimal(128) + " MiB 总大小限制"@,
            },
    {
        self.total_bytes = if self.total_bytes > usize::MAX - len {
            usize::MAX
        } else {
            self.total_bytes + len
        };
        if self.total_bytes > MAX_IMPORT_TOTAL_BYTES {
            let mut m = to_owned_string("导入内容超过 ");
            let d = decimal_string((MAX_IMPORT_TOTAL_BYTES / 1048576) as u64);
            push_str(&mut m, d.as_str());
            push_str(&mut m, " MiB 总大小限制");
            Some(m)
        } else {
            self.files = self.files + 1;
            None
        }
    }
}

/// Entries a folder walk never takes.
pub fn skipped_entry_name(name: &str) -> (b: bool)
    ensures
        b == (name@ == ".git"@ || name@ == ".DS_Store"@),
{
    str_eq(name, ".git") || str_eq(name, ".DS_Store")
}

/// The path of a folder entry relative to the imported folder.
pub fn child_relative_path(relative: &str, name: &str) -> (r: String)
    ensures
        r@ == (if relative@.len() == 0 {
            name@
        } else {
            relative@ + "/"@ + name@
        }),
{
    if relative.is_empty() {
        to_owned_string(name)
    } else {
        let mut r = to_owned_string(relative);
        push_str(&mut r, "/");
        push_str(&mut r, name);
        r
    }
}

/// The refusal of a file read that produced more than `max_bytes` bytes.
pub fn oversize_error(len: usize, max_bytes: usize) -> (r: Option<String>)
    ensures
        match r {
            None => len <= max_bytes,
            Some(m) => len > max_bytes && m@ == "文件超过 "@ + decimal(
                (max_bytes / 1048576) as nat,
            ) + " MiB 限制"@,
        },
{
    if len > max_bytes {
        let mut m = to_owned_string("文件超过 ");
        let d = decimal_string((max_bytes / 1048576) as u64);
        push_str(&mut m, d.as_str());
        push_str(&mut m, " MiB 限制");
        Some(m)
    } else {
        None
    }
}

// ---------------------------------------------------------------------------
// Order of the files found
// ---------------------------------------------------------------------------

/// Text order: character by character, a proper prefix first (for UTF-8
/// text this is the byte order that `str` compares by).
pub open spec fn text_lt(a: Seq<char>, b: Seq<char>) -> bool
    decreases a.len(),
{
    if a.len() == 0 {
        b.len() > 0
    } else if b.len() == 0 {
        false
    } else if a[0] != b[0] {
        (a[0] as u32) < (b[0] as u32)
    } else {
        text_lt(a.drop_first(), b.drop_first())
    }
}

pub proof fn lemma_text_lt_irreflexive(a: Seq<char>)
    ensures
        !text_lt(a, a),
    decreases a.len(),
{
    if a.len() > 0 {
        lemma_text_lt_irreflexive(a.drop_first());
    }
}

pub proof fn lemma_text_lt_transitive(a: Seq<char>, b: Seq<char>, c: Seq<char>)
    requires
        text_lt(a, b),
        text_lt(b, c),
    ensures
        text_lt(a, c),
    decreases a.len(),
{
    if a.len() > 0 && b.len() > 0 && c.len() > 0 && a[0] == b[0] && b[0] == c[0] {
        lemma_text_lt_transitive(a.drop_first(), b.drop_first(), c.drop_first());
    }
}

/// Whether `a` sorts before `b`.
fn text_less(a: &str, b: &str) -> (r: bool)
    ensures
        r == text_lt(a@, b@),
{
    let x = chars_of(a);
    let y = chars_of(b);
    let mut i: usize = 0;
    assert(x@.skip(0) =~= x@);
    assert(y@.skip(0) =~= y@);
    while i < x.len() && i < y.len() && x[i] == y[i]
        invariant
            i <= x@.len(),
            i <= y@.len(),
            x@ == a@,
            y@ == b@,
            text_lt(a@, b@) == text_lt(x@.skip(i as int), y@.skip(i as int)),
        decreases x@.len() - i,
    {
        assert(x@.skip(i as int).drop_first() =~= x@.skip(i + 1));
        assert(y@.skip(i as int).drop_first() =~= y@.skip(i + 1));
        i = i + 1;
    }
    assert(x@.skip(i as int).len() == x@.len() - i);
    if i == x.len() {
        i < y.len()
    } else if i == y.len() {
        false
    } else {
        assert(x@.skip(i as int)[0] == x@[i as int]);
        assert(y@.skip(i as int)[0] == y@[i as int]);
        (x[i] as u32) < (y[i] as u32)
    }
}

/// The files ordered by path (no path after a later one).
pub open spec fn sorted_by_path(files: Seq<UploadFile>) -> bool {
    forall|i: int, j: int| 0 <= i < j < files.len() ==> !text_lt(#[trigger] files[j].path@, #[trigger] files[i].path@)
}

/// The files found in a folder, ordered by path: the same files, each as
/// often, none after a file whose path sorts later.
pub fn sort_by_path(files: Vec<UploadFile>) -> (r: Vec<UploadFile>)
    ensures
        r@.to_multiset() == files@.to_multiset(),
        sorted_by_path(r@),
{
    let ghost all = files@;
    let mut out: Vec<UploadFile> = Vec::new();
    assert(all.take(0) =~= Seq::<UploadFile>::empty());
    assert(out@.to_multiset() =~= all.take(0).to_multiset());
    for f in it: files
        invariant
            it.seq() == all,
            out@.to_multiset() == all.take(it.index() as int).to_multiset(),
            sorted_by_path(out@),
    {
        let ghost k = it.index();
        assert(all.take(k + 1) =~= all.take(k as int).push(f));
        let mut pos: usize = 0;
        while pos < out.len() && !text_less(f.path.as_str(), out[pos].path.as_str())
            invariant
                pos <= out@.len(),
                forall|j: int| 0 <= j < pos ==> !text_lt(f.path@, #[trigger] out@[j].path@),
            decreases out@.len() - pos,
        {
            pos = pos + 1;
        }
        let ghost before = out@;
        out.insert(pos, f);
        proof {
            assert(out@.to_multiset() == before.insert(pos as int, f).to_multiset());
            vstd::seq_lib::to_multiset_insert(before, pos as int, f);
            vstd::seq_lib::to_multiset_build(all.take(k as int), f);
            assert forall|i: int, j: int| 0 <= i < j < out@.len() implies !text_lt(
                #[trigger] out@[j].path@,
                #[trigger] out@[i].path@,
            ) by {
                if j < pos {
                    assert(out@[i] == before[i] && out@[j] == before[j]);
                } else if j == pos {
                    assert(out@[i] == before[i]);
                } else if i == pos {
                    assert(out@[j] == before[j - 1]);
                    if text_lt(before[j - 1].path@, f.path@) {
                        if j - 1 == pos {
                            lemma_text_lt_transitive(before[j - 1].path@, f.path@, before[pos as int].path@);
                            lemma_text_lt_irreflexive(before[pos as int].path@);
                        } else {
                            lemma_text_lt_transitive(before[j - 1].path@, f.path@, before[pos as int].path@);
                        }
                    }
                } else if i < pos {
                    assert(out@[i] == before[i] && out@[j] == before[j - 1]);
                } else {
                    assert(out@[i] == before[i - 1] && out@[j] == before[j - 1]);
                }
            }
        }
    }
    assert(all.take(all.len() as int) =~= all);
    out
}

} // verus!
