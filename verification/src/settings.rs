//! The settings and document panels' rules on what the server lists: which
//! tokens and attachments are shown, and how the token form is read.
use vstd::prelude::*;

use crate::api::dto::{Token, TreeEntry};
use crate::api::ApiError;
use crate::messages::{friendly_api_error, friendly_error_text};
use crate::text::{
    char_pos, char_pos_from, chars_of, is_blank, lemma_char_pos_bounds, push_str, str_eq,
    string_from_chars, to_owned_string, trim, trim_at,
};

verus! {

/// Revoked tokens stay in the server's list but are no credentials any
/// more: only tokens without a revocation time are shown.
pub open spec fn token_active(t: Token) -> bool {
    t.revoked_at@.len() == 0
}

pub fn active_tokens(tokens: Vec<Token>) -> (r: Vec<Token>)
    ensures
        r@ == tokens@.filter(|t: Token| token_active(t)),
{
    let ghost all = tokens@;
    let mut out: Vec<Token> = Vec::new();
    proof {
        reveal(Seq::filter);
    }
    assert(all.take(0) =~= Seq::<Token>::empty());
    for t in it: tokens
        invariant
            it.seq() == all,
            out@ == all.take(it.index() as int).filter(|t: Token| token_active(t)),
    {
        let ghost k = it.index();
        assert(all.take(k + 1).drop_last() =~= all.take(k as int));
        assert(all.take(k + 1).last() == t);
        proof {
            reveal(Seq::filter);
        }
        if t.revoked_at.as_str().is_empty() {
            out.push(t);
        }
    }
    assert(all.take(all.len() as int) =~= all);
    out
}

/// The attachments panel lists the files of `attachments/`, not its
/// directories.
pub open spec fn is_file_entry(e: TreeEntry) -> bool {
    e.entry_type@ == "blob"@
}

pub fn attachment_entries(entries: Vec<TreeEntry>) -> (r: Vec<TreeEntry>)
    ensures
        r@ == entries@.filter(|e: TreeEntry| is_file_entry(e)),
{
    let ghost all = entries@;
    let mut out: Vec<TreeEntry> = Vec::new();
    proof {
        reveal(Seq::filter);
    }
    assert(all.take(0) =~= Seq::<TreeEntry>::empty());
    for e in it: entries
        invariant
            it.seq() == all,
            out@ == all.take(it.index() as int).filter(|e: TreeEntry| is_file_entry(e)),
    {
        let ghost k = it.index();
        assert(all.take(k + 1).drop_last() =~= all.take(k as int));
        assert(all.take(k + 1).last() == e);
        proof {
            reveal(Seq::filter);
        }
        if str_eq(e.entry_type.as_str(), "blob") {
            out.push(e);
        }
    }
    assert(all.take(all.len() as int) =~= all);
    out
}

/// The project ids typed into the token form, from position `i` on: the
/// comma-separated pieces, trimmed, the empty ones left out.
pub open spec fn ids_from(s: Seq<char>, i: int) -> Seq<Seq<char>>
    decreases s.len() - i,
{
    if i < 0 || i > s.len() {
        seq![]
    } else {
        let k = char_pos(s, ',', i);
        let piece = trim(s.subrange(i, k));
        let rest = if k >= s.len() {
            seq![]
        } else {
            proof {
                lemma_char_pos_bounds(s, ',', i);
            }
            ids_from(s, k + 1)
        };
        if piece.len() > 0 {
            seq![piece] + rest
        } else {
            rest
        }
    }
}

pub open spec fn typed_ids(s: Seq<char>) -> Seq<Seq<char>> {
    ids_from(s, 0)
}

pub fn token_project_ids(text: &str) -> (r: Vec<String>)
    ensures
        r@.map_values(|s: String| s@) == typed_ids(text@),
{
    let x = chars_of(text);
    let mut out: Vec<String> = Vec::new();
    let mut start: usize = 0;
    assert(out@.map_values(|s: String| s@) + ids_from(x@, 0) =~= ids_from(x@, 0));
    loop
        invariant
            x@ == text@,
            start <= x@.len(),
            out@.map_values(|s: String| s@) + ids_from(x@, start as int) == ids_from(x@, 0),
        decreases x@.len() - start,
    {
        let k = char_pos_from(x.as_slice(), ',', start);
        proof {
            lemma_char_pos_bounds(x@, ',', start as int);
        }
        let (a, b) = trim_at(x.as_slice(), start, k);
        let ghost before = out@.map_values(|s: String| s@);
        let ghost piece = trim(x@.subrange(start as int, k as int));
        if a < b {
            let id = string_from_chars(&x.as_slice()[a..b]);
            out.push(id);
            assert(out@.map_values(|s: String| s@) =~= before.push(piece));
        }
        if k >= x.len() {
            assert(ids_from(x@, start as int) =~= if piece.len() > 0 {
                seq![piece]
            } else {
                seq![]
            });
            assert(out@.map_values(|s: String| s@) =~= ids_from(x@, 0));
            return out;
        }
        assert(out@.map_values(|s: String| s@) + ids_from(x@, k + 1) =~= ids_from(x@, 0));
        start = k + 1;
    }
}

/// Why the token form cannot be sent: a blank name or scope, or no project.
pub open spec fn token_form_problem(name: Seq<char>, scope: Seq<char>, ids: Seq<Seq<char>>) -> Option<
    Seq<char>,
> {
    if trim(name).len() == 0 || trim(scope).len() == 0 {
        Some("Token 名称和权限范围不能为空"@)
    } else if ids.len() == 0 {
        Some("至少选择一个项目"@)
    } else {
        None
    }
}

pub fn token_form_error(name: &str, scope: &str, project_ids: &[String]) -> (r: Option<String>)
    ensures
        match r {
            Some(e) => token_form_problem(name@, scope@, project_ids@.map_values(|s: String| s@))
                == Some(e@),
            None => token_form_problem(name@, scope@, project_ids@.map_values(|s: String| s@))
                is None,
        },
{
    if is_blank(name) || is_blank(scope) {
        Some(to_owned_string("Token 名称和权限范围不能为空"))
    } else if project_ids.len() == 0 {
        Some(to_owned_string("至少选择一个项目"))
    } else {
        None
    }
}

/// The settings page's error after loading tokens and users: each failure
/// as `Token：<reason>` or `用户：<reason>`, joined by `；` after
/// `访问控制加载失败：`; none when both loaded.
pub open spec fn access_problem(tokens: Option<ApiError>, users: Option<ApiError>) -> Option<
    Seq<char>,
> {
    let t = match tokens {
        Some(e) => seq!["Token："@ + friendly_error_text(e)],
        None => seq![],
    };
    let u = match users {
        Some(e) => seq!["用户："@ + friendly_error_text(e)],
        None => seq![],
    };
    let parts = t + u;
    if parts.len() == 0 {
        None
    } else if parts.len() == 1 {
        Some("访问控制加载失败："@ + parts[0])
    } else {
        Some("访问控制加载失败："@ + parts[0] + "；"@ + parts[1])
    }
}

pub fn access_load_error(tokens: Option<&ApiError>, users: Option<&ApiError>) -> (r: Option<String>)
    ensures
        match r {
            Some(e) => access_problem(
                match tokens {
                    Some(t) => Some(*t),
                    None => None,
                },
                match users {
                    Some(u) => Some(*u),
                    None => None,
                },
            ) == Some(e@),
            None => tokens is None && users is None,
        },
{
    if tokens.is_none() && users.is_none() {
        return None;
    }
    let mut r = to_owned_string("访问控制加载失败：");
    if let Some(t) = tokens {
        push_str(&mut r, "Token：");
        let f = friendly_api_error(t);
        push_str(&mut r, f.as_str());
        if users.is_some() {
            push_str(&mut r, "；");
        }
    }
    if let Some(u) = users {
        push_str(&mut r, "用户：");
        let f = friendly_api_error(u);
        push_str(&mut r, f.as_str());
    }
    Some(r)
}

} // verus!
