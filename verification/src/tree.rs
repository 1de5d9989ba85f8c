//! The document tree of a directory: which entries are listed, and where
//! the keyboard moves in it.
use vstd::prelude::*;

use crate::api::dto::TreeEntry;
use crate::text::{
    before_last, char_pos, char_pos_from, chars_of, decimal, decimal_string, join_with, lemma_char_pos_bounds,
    push_str, rsplit_once_char, str_eq, string_from_chars, to_owned_string,
};

verus! {

/// The listed rows of a directory: every entry but `_sidebar.md`, as its
/// path and whether it is a directory.
pub open spec fn tree_rows_of(entries: Seq<TreeEntry>) -> Seq<(Seq<char>, bool)>
    decreases entries.len(),
{
    if entries.len() == 0 {
        seq![]
    } else {
        let prev = tree_rows_of(entries.drop_last());
        let e = entries.last();
        if e.path@ == "_sidebar.md"@ {
            prev
        } else {
            prev.push((e.path@, e.entry_type@ == "tree"@))
        }
    }
}

pub open spec fn rows_view(rows: Seq<(String, bool)>) -> Seq<(Seq<char>, bool)> {
    rows.map_values(|r: (String, bool)| (r.0@, r.1))
}

pub fn tree_rows(entries: &[TreeEntry]) -> (r: Vec<(String, bool)>)
    ensures
        rows_view(r@) == tree_rows_of(entries@),
{
    let mut out: Vec<(String, bool)> = Vec::new();
    let mut k: usize = 0;
    assert(entries@.take(0) =~= Seq::<TreeEntry>::empty());
    assert(rows_view(out@) =~= Seq::<(Seq<char>, bool)>::empty());
    while k < entries.len()
        invariant
            k <= entries@.len(),
            rows_view(out@) == tree_rows_of(entries@.take(k as int)),
        decreases entries@.len() - k,
    {
        let e = &entries[k];
        assert(entries@.take(k + 1).drop_last() =~= entries@.take(k as int));
        assert(entries@.take(k + 1).last() == *e);
        if !str_eq(e.path.as_str(), "_sidebar.md") {
            let ghost before = out@;
            let row = (to_owned_string(e.path.as_str()), str_eq(e.entry_type.as_str(), "tree"));
            out.push(row);
            assert(rows_view(out@) =~= rows_view(before).push((row.0@, row.1)));
        }
        k = k + 1;
    }
    assert(entries@.take(entries@.len() as int) =~= entries@);
    out
}

/// The heading of the listing: `root · <n> item`, or `items` for any other
/// count.
pub fn tree_count_label(count: usize) -> (r: String)
    ensures
        r@ == "root · "@ + decimal(count as nat) + if count == 1 {
            " item"@
        } else {
            " items"@
        },
{
    let mut r = to_owned_string("root · ");
    let d = decimal_string(count as u64);
    push_str(&mut r, d.as_str());
    if count == 1 {
        push_str(&mut r, " item");
    } else {
        push_str(&mut r, " items");
    }
    r
}

/// What a key does in the listing.
#[derive(Clone, Debug, PartialEq, Eq)]
pub enum TreeKey {
    /// Nothing happens.
    Ignore,
    /// The focus moves to this row.
    Focus(usize),
    /// The directory is entered.
    EnterDir(String),
    /// The document is opened.
    OpenDoc(String),
    /// The key was taken, with nothing to do.
    Stay,
}

/// Whether the row at `i` is where its path first appears and some row of
/// that path is a directory.
pub open spec fn first_dir_row(rows: Seq<(Seq<char>, bool)>, i: int) -> bool {
    &&& forall|j: int| 0 <= j < i ==> (#[trigger] rows[j]).0 != rows[i].0
    &&& exists|j: int| 0 <= j < rows.len() && (#[trigger] rows[j]).1 && rows[j].0 == rows[i].0
}

/// The directory above `path`: what comes before its last `/`, or the top.
pub open spec fn parent_dir(path: Seq<char>) -> Seq<char> {
    match rsplit_once_char(path, '/') {
        Some((p, _)) => p,
        None => seq![],
    }
}

pub open spec fn focused_row(focus: Option<usize>, n: int) -> int {
    let f: int = match focus {
        Some(f) => f as int,
        None => 0,
    };
    if f < n - 1 {
        f
    } else {
        n - 1
    }
}

/// What a key does, with the focus (kept inside the listing) at
/// `cur = min(focus or 0, n - 1)`: up and down move it round the listing;
/// right enters the focused directory; left goes up to the parent of
/// `tree_path`; enter enters the focused directory or opens the focused
/// document; other keys, and any key on an empty listing, are ignored.
pub open spec fn key_effect(key: Seq<char>, focus: Option<usize>, rows: Seq<(Seq<char>, bool)>, tree_path: Seq<char>) -> TreeKeyView {
    let n = rows.len() as int;
    if n == 0 {
        TreeKeyView::Ignore
    } else {
        let cur = focused_row(focus, n);
        if key == "up"@ {
            TreeKeyView::Focus((cur + n - 1) % n)
        } else if key == "down"@ {
            TreeKeyView::Focus((cur + 1) % n)
        } else if key == "right"@ {
            if first_dir_row(rows, cur) {
                TreeKeyView::EnterDir(rows[cur].0)
            } else {
                TreeKeyView::Stay
            }
        } else if key == "left"@ {
            TreeKeyView::EnterDir(parent_dir(tree_path))
        } else if key == "enter"@ {
            if rows[cur].1 {
                TreeKeyView::EnterDir(rows[cur].0)
            } else {
                TreeKeyView::OpenDoc(rows[cur].0)
            }
        } else {
            TreeKeyView::Ignore
        }
    }
}

pub enum TreeKeyView {
    Ignore,
    Focus(int),
    EnterDir(Seq<char>),
    OpenDoc(Seq<char>),
    Stay,
}

pub open spec fn tree_key_view(k: TreeKey) -> TreeKeyView {
    match k {
        TreeKey::Ignore => TreeKeyView::Ignore,
        TreeKey::Focus(i) => TreeKeyView::Focus(i as int),
        TreeKey::EnterDir(p) => TreeKeyView::EnterDir(p@),
        TreeKey::OpenDoc(p) => TreeKeyView::OpenDoc(p@),
        TreeKey::Stay => TreeKeyView::Stay,
    }
}

fn is_first_dir_row(rows: &[(String, bool)], cur: usize) -> (b: bool)
    requires
        cur < rows@.len(),
    ensures
        b == first_dir_row(rows_view(rows@), cur as int),
{
    let ghost v = rows_view(rows@);
    let p = rows[cur].0.as_str();
    let mut j: usize = 0;
    while j < cur
        invariant
            cur < rows@.len(),
            v == rows_view(rows@),
            p@ == v[cur as int].0,
            j <= cur,
            forall|i: int| 0 <= i < j ==> (#[trigger] v[i]).0 != v[cur as int].0,
        decreases cur - j,
    {
        if str_eq(rows[j].0.as_str(), p) {
            assert(v[j as int].0 == v[cur as int].0);
            return false;
        }
        j = j + 1;
    }
    let mut k: usize = 0;
    while k < rows.len()
        invariant
            cur < rows@.len(),
            v == rows_view(rows@),
            p@ == v[cur as int].0,
            k <= rows@.len(),
            forall|i: int| 0 <= i < cur ==> (#[trigger] v[i]).0 != v[cur as int].0,
            forall|i: int| 0 <= i < k ==> !((#[trigger] v[i]).1 && v[i].0 == v[cur as int].0),
        decreases rows@.len() - k,
    {
        if rows[k].1 && str_eq(rows[k].0.as_str(), p) {
            assert(v[k as int].1 && v[k as int].0 == v[cur as int].0);
            return true;
        }
        k = k + 1;
    }
    false
}

pub fn tree_key(key: &str, focus: Option<usize>, rows: &[(String, bool)], tree_path: &str) -> (r: TreeKey)
    ensures
        tree_key_view(r) == key_effect(key@, focus, rows_view(rows@), tree_path@),
{
    let n = rows.len();
    if n == 0 {
        return TreeKey::Ignore;
    }
    let f = match focus {
        Some(f) => f,
        None => 0,
    };
    let cur = if f < n - 1 {
        f
    } else {
        n - 1
    };
    if str_eq(key, "up") {
        let to = if cur == 0 {
            n - 1
        } else {
            cur - 1
        };
        assert(to as int == (cur + n - 1) % (n as int)) by (nonlinear_arith)
            requires
                cur < n,
                to == if cur == 0 {
                    n - 1
                } else {
                    cur - 1
                },
        ;
        TreeKey::Focus(to)
    } else if str_eq(key, "down") {
        let to = if cur + 1 == n {
            0
        } else {
            cur + 1
        };
        assert(to as int == (cur + 1) % (n as int)) by (nonlinear_arith)
            requires
                cur < n,
                to == if cur + 1 == n {
                    0
                } else {
                    cur + 1
                },
        ;
        TreeKey::Focus(to)
    } else if str_eq(key, "right") {
        if is_first_dir_row(rows, cur) {
            TreeKey::EnterDir(to_owned_string(rows[cur].0.as_str()))
        } else {
            TreeKey::Stay
        }
    } else if str_eq(key, "left") {
        match before_last(tree_path, '/') {
            Some(p) => TreeKey::EnterDir(p),
            None => TreeKey::EnterDir(String::new()),
        }
    } else if str_eq(key, "enter") {
        if rows[cur].1 {
            TreeKey::EnterDir(to_owned_string(rows[cur].0.as_str()))
        } else {
            TreeKey::OpenDoc(to_owned_string(rows[cur].0.as_str()))
        }
    } else {
        TreeKey::Ignore
    }
}

/// The keyboard never moves the focus out of the listing.
pub proof fn law_focus_stays_in_listing(
    key: Seq<char>,
    focus: Option<usize>,
    rows: Seq<(Seq<char>, bool)>,
    tree_path: Seq<char>,
)
    ensures
        key_effect(key, focus, rows, tree_path) matches TreeKeyView::Focus(i) ==> 0 <= i < rows.len(),
{
    let n = rows.len() as int;
    if n > 0 {
        let cur = focused_row(focus, n);
        assert(0 <= (cur + n - 1) % n < n) by (nonlinear_arith)
            requires
                n > 0,
        ;
        assert(0 <= (cur + 1) % n < n) by (nonlinear_arith)
            requires
                n > 0,
        ;
    }
}


/// The pieces of `s.split('/')` that start at position `i` or later, empty
/// pieces left out.
pub open spec fn path_pieces_from(s: Seq<char>, i: int) -> Seq<Seq<char>>
    decreases s.len() - i,
{
    if i < 0 || i >= s.len() {
        seq![]
    } else {
        proof {
            lemma_char_pos_bounds(s, '/', i);
        }
        let j = char_pos(s, '/', i);
        if j == i {
            path_pieces_from(s, j + 1)
        } else if j == s.len() {
            seq![s.subrange(i, j)]
        } else {
            seq![s.subrange(i, j)] + path_pieces_from(s, j + 1)
        }
    }
}

/// The non-empty pieces of a tree path split at `/`.
pub open spec fn path_pieces(s: Seq<char>) -> Seq<Seq<char>> {
    path_pieces_from(s, 0)
}

/// The breadcrumb trail of a list of path pieces: for each piece, the path
/// of the pieces up to it joined by `/` (where the crumb leads) and the
/// piece itself (what the crumb shows).
pub open spec fn crumbs_of(pieces: Seq<Seq<char>>) -> Seq<(Seq<char>, Seq<char>)> {
    Seq::new(pieces.len(), |k: int| (join_with(pieces.take(k + 1), "/"@), pieces[k]))
}

pub open spec fn crumbs_view(r: Seq<(String, String)>) -> Seq<(Seq<char>, Seq<char>)> {
    r.map_values(|p: (String, String)| (p.0@, p.1@))
}

/// The breadcrumbs of the directory shown in the tree: one per non-empty
/// piece of the path, each with the directory it leads to and its name.
pub fn breadcrumbs(tree_path: &str) -> (r: Vec<(String, String)>)
    ensures
        crumbs_view(r@) == crumbs_of(path_pieces(tree_path@)),
{
    proof {
        reveal_strlit("/");
        reveal_strlit("");
    }
    let cs = chars_of(tree_path);
    let mut r: Vec<(String, String)> = Vec::new();
    let mut acc = to_owned_string("");
    let ghost mut done: Seq<Seq<char>> = seq![];
    let mut i: usize = 0;
    while i < cs.len()
        invariant
            i <= cs@.len(),
            cs@ == tree_path@,
            path_pieces(cs@) == done + path_pieces_from(cs@, i as int),
            crumbs_view(r@) == crumbs_of(done),
            r@.len() == done.len(),
            acc@ == join_with(done, "/"@),
            forall|k: int| 0 <= k < done.len() ==> #[trigger] done[k].len() > 0,
        decreases cs@.len() - i,
    {
        let j = char_pos_from(cs.as_slice(), '/', i);
        proof {
            lemma_char_pos_bounds(cs@, '/', i as int);
        }
        if j > i {
            let piece = string_from_chars(&cs.as_slice()[i..j]);
            if r.len() == 0 {
                acc = to_owned_string(piece.as_str());
            } else {
                push_str(&mut acc, "/");
                push_str(&mut acc, piece.as_str());
            }
            let target = to_owned_string(acc.as_str());
            let ghost old_r = r@;
            r.push((target, piece));
            proof {
                let old_done = done;
                done = done.push(piece@);
                assert(done.drop_last() =~= old_done);
                assert(acc@ == join_with(done, "/"@));
                assert(r@ == old_r.push((target, piece)));
                assert forall|k: int| 0 <= k < done.len() implies #[trigger] crumbs_view(r@)[k] == crumbs_of(done)[k] by {
                    if k < old_done.len() {
                        assert(r@[k] == old_r[k]);
                        assert(crumbs_view(old_r)[k] == crumbs_of(old_done)[k]);
                        assert(done.take(k + 1) =~= old_done.take(k + 1));
                    } else {
                        assert(done.take(k + 1) =~= done);
                    }
                }
                assert(crumbs_view(r@) =~= crumbs_of(done));
                assert(path_pieces(cs@) =~= done + path_pieces_from(cs@, j + 1));
            }
        }
        if j < cs.len() {
            i = j + 1;
        } else {
            i = cs.len();
        }
    }
    assert(done =~= done + path_pieces_from(cs@, i as int));
    r
}

} // verus!
