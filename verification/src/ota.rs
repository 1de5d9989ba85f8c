//! The desktop update check against GitHub Releases: reading release tags
//! as `major.minor.patch` and deciding what the settings page reports.
use vstd::prelude::*;

use crate::api::ApiError;
use crate::messages::{github_error_text, github_release_error};
use crate::text::{
    all_digits, is_digit, lemma_char_pos_skips, lemma_decimal_reads_back, before_char, char_pos, char_pos_at, chars_of, decimal, decimal_string, parse_u32,
    parse_u32_at, push_str, starts_with, starts_with_at, strip_prefix, to_owned_string,
};

verus! {

/// A tag without its `app-v` or `v` prefix and without any `-suffix`.
pub open spec fn version_core(v: Seq<char>) -> Seq<char> {
    let w = if starts_with(v, "app-v"@) {
        strip_prefix(v, "app-v"@)
    } else if starts_with(v, "v"@) {
        strip_prefix(v, "v"@)
    } else {
        v
    };
    before_char(w, '-')
}

/// The first three `.`-separated pieces of `core`, when there are three.
pub open spec fn three_pieces(core: Seq<char>) -> Option<(Seq<char>, Seq<char>, Seq<char>)> {
    let i1 = char_pos(core, '.', 0);
    if i1 >= core.len() {
        None
    } else {
        let rest1 = core.skip(i1 + 1);
        let i2 = char_pos(rest1, '.', 0);
        if i2 >= rest1.len() {
            None
        } else {
            let rest2 = rest1.skip(i2 + 1);
            Some((core.take(i1), rest1.take(i2), before_char(rest2, '.')))
        }
    }
}

/// A release tag read as a version: three decimal numbers, the rest of the
/// tag ignored.
pub open spec fn ota_version(v: Seq<char>) -> Option<(u32, u32, u32)> {
    match three_pieces(version_core(v)) {
        Some((a, b, c)) => match (parse_u32(a), parse_u32(b), parse_u32(c)) {
            (Some(x), Some(y), Some(z)) => Some((x, y, z)),
            _ => None,
        },
        None => None,
    }
}

pub open spec fn version_text(v: (u32, u32, u32)) -> Seq<char> {
    "v"@ + decimal(v.0 as nat) + "."@ + decimal(v.1 as nat) + "."@ + decimal(v.2 as nat)
}

/// Whether version `a` comes after `b` (compared part by part).
pub open spec fn version_newer(a: (u32, u32, u32), b: (u32, u32, u32)) -> bool {
    a.0 > b.0 || (a.0 == b.0 && (a.1 > b.1 || (a.1 == b.1 && a.2 > b.2)))
}

/// Reads a release tag (`v1.2.3`, `app-v1.2.3-rc1`, ...) as a version.
#[verifier::spinoff_prover]
#[verifier::rlimit(40)]
pub fn parse_ota_version(version: &str) -> (r: Option<(u32, u32, u32)>)
    ensures
        r == ota_version(version@),
{
    let cs = chars_of(version);
    let s = cs.as_slice();
    let n = s.len();
    let app_v = chars_of("app-v");
    let v = chars_of("v");
    let start = if starts_with_at(s, 0, n, app_v.as_slice()) {
        app_v.len()
    } else if starts_with_at(s, 0, n, v.as_slice()) {
        v.len()
    } else {
        0
    };
    assert(s@.subrange(0, n as int) =~= version@);
    let ghost w = s@.subrange(start as int, n as int);
    assert(w =~= (if starts_with(version@, "app-v"@) {
        strip_prefix(version@, "app-v"@)
    } else if starts_with(version@, "v"@) {
        strip_prefix(version@, "v"@)
    } else {
        version@
    }));
    let end = start + char_pos_at(s, start, n, '-');
    let ghost core = s@.subrange(start as int, end as int);
    assert(core =~= before_char(w, '-'));
    let i1 = char_pos_at(s, start, end, '.');
    if i1 >= end - start {
        return None;
    }
    let r1 = start + i1 + 1;
    let ghost rest1 = s@.subrange(r1 as int, end as int);
    assert(rest1 =~= core.skip(i1 + 1));
    let i2 = char_pos_at(s, r1, end, '.');
    if i2 >= end - r1 {
        return None;
    }
    let r2 = r1 + i2 + 1;
    let ghost rest2 = s@.subrange(r2 as int, end as int);
    assert(rest2 =~= rest1.skip(i2 + 1));
    let i3 = char_pos_at(s, r2, end, '.');
    assert(core.take(i1 as int) =~= s@.subrange(start as int, (start + i1) as int));
    assert(rest1.take(i2 as int) =~= s@.subrange(r1 as int, (r1 + i2) as int));
    assert(before_char(rest2, '.') =~= s@.subrange(r2 as int, (r2 + i3) as int));
    let a = parse_u32_at(s, start, start + i1);
    let b = parse_u32_at(s, r1, r1 + i2);
    let c = parse_u32_at(s, r2, r2 + i3);
    match (a, b, c) {
        (Some(x), Some(y), Some(z)) => Some((x, y, z)),
        _ => None,
    }
}

/// `v<major>.<minor>.<patch>`.
pub fn format_ota_version(version: (u32, u32, u32)) -> (r: String)
    ensures
        r@ == version_text(version),
{
    let mut r = to_owned_string("v");
    let a = decimal_string(version.0 as u64);
    push_str(&mut r, a.as_str());
    push_str(&mut r, ".");
    let b = decimal_string(version.1 as u64);
    push_str(&mut r, b.as_str());
    push_str(&mut r, ".");
    let c = decimal_string(version.2 as u64);
    push_str(&mut r, c.as_str());
    r
}

/// What the settings page says after a successful release lookup: a newer
/// release with its page, the current version when it is not older, or that
/// the versions cannot be read. The flag is `false` only in the last case.
pub open spec fn ota_report(current: Seq<char>, tag: Seq<char>, url: Seq<char>) -> (bool, Seq<char>) {
    match (ota_version(current), ota_version(tag)) {
        (Some(c), Some(l)) => if version_newer(l, c) {
            (true, "发现新版本 "@ + version_text(l) + " · "@ + url)
        } else {
            (true, "当前已是最新版本 "@ + version_text(c) + " · GitHub Releases"@)
        },
        _ => (false, "无法识别 GitHub Release 版本号："@ + tag),
    }
}

pub fn ota_status(current: &str, tag: &str, html_url: &str) -> (r: (bool, String))
    ensures
        (r.0, r.1@) == ota_report(current@, tag@, html_url@),
{
    match (parse_ota_version(current), parse_ota_version(tag)) {
        (Some(c), Some(l)) => {
            if l.0 > c.0 || (l.0 == c.0 && (l.1 > c.1 || (l.1 == c.1 && l.2 > c.2))) {
                let mut m = to_owned_string("发现新版本 ");
                let t = format_ota_version(l);
                push_str(&mut m, t.as_str());
                push_str(&mut m, " · ");
                push_str(&mut m, html_url);
                (true, m)
            } else {
                let mut m = to_owned_string("当前已是最新版本 ");
                let t = format_ota_version(c);
                push_str(&mut m, t.as_str());
                push_str(&mut m, " · GitHub Releases");
                (true, m)
            }
        },
        _ => {
            let mut m = to_owned_string("无法识别 GitHub Release 版本号：");
            push_str(&mut m, tag);
            (false, m)
        },
    }
}

/// What the settings page says when the release lookup fails.
pub fn ota_failure(error: &ApiError) -> (r: (bool, String))
    ensures
        !r.0,
        r.1@ == "检查 GitHub Releases 失败："@ + github_error_text(*error),
{
    let mut m = to_owned_string("检查 GitHub Releases 失败：");
    let d = github_release_error(error);
    push_str(&mut m, d.as_str());
    (false, m)
}

/// The text `d + "." + rest` where `d` is a decimal number: the first `.`
/// sits right after `d`, and nothing in it is a `-`.
proof fn lemma_number_then_dot(d: Seq<char>, rest: Seq<char>)
    requires
        all_digits(d),
    ensures
        char_pos(d + "."@ + rest, '.', 0) == d.len(),
        (d + "."@ + rest).take(d.len() as int) == d,
        (d + "."@ + rest).skip(d.len() as int + 1) == rest,
{
    let t = d + "."@ + rest;
    reveal_strlit(".");
    assert forall|k: int| 0 <= k < d.len() implies t[k] != '.' by {
        assert(t[k] == d[k]);
        assert(is_digit(d[k]));
    }
    lemma_char_pos_skips(t, '.', 0, d.len() as int);
    assert(t[d.len() as int] == '.');
    assert(t.take(d.len() as int) =~= d);
    assert(t.skip(d.len() as int + 1) =~= rest);
}

proof fn lemma_no_char(t: Seq<char>, c: char)
    requires
        forall|k: int| 0 <= k < t.len() ==> #[trigger] t[k] != c,
    ensures
        before_char(t, c) == t,
{
    lemma_char_pos_skips(t, c, 0, t.len() as int);
    assert(t.take(t.len() as int) =~= t);
}

/// Reading back a formatted version gives the version: parsing the text of
/// `format_ota_version` undoes it.
pub proof fn law_version_text_reads_back(v: (u32, u32, u32))
    ensures
        ota_version(version_text(v)) == Some(v),
{
    let d0 = decimal(v.0 as nat);
    let d1 = decimal(v.1 as nat);
    let d2 = decimal(v.2 as nat);
    lemma_decimal_reads_back(v.0 as nat);
    lemma_decimal_reads_back(v.1 as nat);
    lemma_decimal_reads_back(v.2 as nat);
    reveal_strlit("v");
    reveal_strlit("app-v");
    reveal_strlit(".");
    let t = version_text(v);
    let w = d0 + "."@ + (d1 + "."@ + d2);
    assert(t =~= "v"@ + w);
    assert(t[0] == 'v');
    assert(!starts_with(t, "app-v"@)) by {
        assert(t.take(5)[0] == 'v');
        assert("app-v"@[0] == 'a');
    }
    assert(t.take(1) =~= "v"@);
    assert(strip_prefix(t, "v"@) =~= w);
    assert forall|k: int| 0 <= k < w.len() implies #[trigger] w[k] != '-' by {
        if k < d0.len() {
            assert(w[k] == d0[k]);
            assert(is_digit(d0[k]));
        } else if k == d0.len() {
        } else if k < d0.len() + 1 + d1.len() {
            assert(w[k] == d1[k - d0.len() - 1]);
            assert(is_digit(d1[k - d0.len() - 1]));
        } else if k == d0.len() + 1 + d1.len() {
        } else {
            assert(w[k] == d2[k - d0.len() - 2 - d1.len()]);
            assert(is_digit(d2[k - d0.len() - 2 - d1.len()]));
        }
    }
    lemma_no_char(w, '-');
    assert(version_core(t) == w);
    lemma_number_then_dot(d0, d1 + "."@ + d2);
    lemma_number_then_dot(d1, d2);
    assert forall|k: int| 0 <= k < d2.len() implies #[trigger] d2[k] != '.' by {
        assert(is_digit(d2[k]));
    }
    lemma_no_char(d2, '.');
    assert(three_pieces(w) == Some((d0, d1, d2)));
    assert(d0[0] != '+') by {
        assert(is_digit(d0[0]));
    }
    assert(d1[0] != '+') by {
        assert(is_digit(d1[0]));
    }
    assert(d2[0] != '+') by {
        assert(is_digit(d2[0]));
    }
}

/// Versions are ordered as (major, minor, patch) tuples: of two different
/// versions exactly one is the newer, a version is never newer than
/// itself, and the order is transitive.
pub proof fn law_versions_totally_ordered(a: (u32, u32, u32), b: (u32, u32, u32), c: (u32, u32, u32))
    ensures
        !version_newer(a, a),
        a != b ==> (version_newer(a, b) || version_newer(b, a)),
        !(version_newer(a, b) && version_newer(b, a)),
        version_newer(a, b) && version_newer(b, c) ==> version_newer(a, c),
        a.0 == b.0 && a.1 == b.1 && a.2 > b.2 ==> version_newer(a, b),
        a.0 == b.0 && a.1 > b.1 ==> version_newer(a, b),
        a.0 > b.0 ==> version_newer(a, b),
{
}

/// Whenever both versions read and the release's differs from the current
/// one without being older, the release is reported as new, with its
/// version and page; otherwise the current version is reported as the
/// latest.
pub proof fn law_newer_release_is_reported(current: Seq<char>, tag: Seq<char>, url: Seq<char>)
    ensures
        ota_version(current) matches Some(c) ==> ota_version(tag) matches Some(l) ==> {
            &&& (l != c && !version_newer(c, l)) ==> ota_report(current, tag, url) == (
                true,
                "发现新版本 "@ + version_text(l) + " · "@ + url,
            )
            &&& (l == c || version_newer(c, l)) ==> ota_report(current, tag, url) == (
                true,
                "当前已是最新版本 "@ + version_text(c) + " · GitHub Releases"@,
            )
        },
{
    if let (Some(c), Some(l)) = (ota_version(current), ota_version(tag)) {
        law_versions_totally_ordered(l, c, c);
    }
}

} // verus!
