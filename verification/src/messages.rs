//! The texts that the client shows for API errors and for forms that are
//! not filled in well enough to send.
use vstd::prelude::*;

use crate::api::dto::Meta;
use crate::api::{api_error_text, ApiError};
use crate::outline::utf8_len;
use crate::text::{
    decimal, decimal_string, is_blank, push_str, str_eq, take_chars, to_owned_string, trim,
    trimmed,
};

verus! {

// ---------------------------------------------------------------------------
// API errors
// ---------------------------------------------------------------------------

/// What the user is told about an API error: an oversized response keeps
/// its own message, everything else is described by its HTTP status.
pub open spec fn friendly_error_text(e: ApiError) -> Seq<char> {
    if e.code@ == "response_too_large"@ {
        e.message@
    } else if e.status == 0 {
        "无法连接到服务，请检查地址和网络连接。"@
    } else if e.status == 401 || e.status == 403 {
        "服务拒绝了请求，请重新登录后再试。"@
    } else if e.status == 404 {
        "服务已响应，但未找到 XWiki 接口，请检查服务地址。"@
    } else if 400 <= e.status <= 499 {
        "请求未被接受（HTTP "@ + decimal(e.status as nat) + "），请检查服务配置。"@
    } else if 500 <= e.status <= 599 {
        "服务暂时不可用，请稍后重试。"@
    } else {
        "连接失败（HTTP "@ + decimal(e.status as nat) + "），请稍后重试。"@
    }
}

/// `prefix`, the decimal status, then `suffix`.
fn with_status(prefix: &str, status: u16, suffix: &str) -> (r: String)
    ensures
        r@ == prefix@ + decimal(status as nat) + suffix@,
{
    let mut r = to_owned_string(prefix);
    let d = decimal_string(status as u64);
    push_str(&mut r, d.as_str());
    push_str(&mut r, suffix);
    r
}

pub fn friendly_api_error(error: &ApiError) -> (r: String)
    ensures
        r@ == friendly_error_text(*error),
{
    if str_eq(error.code.as_str(), "response_too_large") {
        return error.message.clone();
    }
    let s = error.status;
    if s == 0 {
        to_owned_string("无法连接到服务，请检查地址和网络连接。")
    } else if s == 401 || s == 403 {
        to_owned_string("服务拒绝了请求，请重新登录后再试。")
    } else if s == 404 {
        to_owned_string("服务已响应，但未找到 XWiki 接口，请检查服务地址。")
    } else if 400 <= s && s <= 499 {
        with_status("请求未被接受（HTTP ", s, "），请检查服务配置。")
    } else if 500 <= s && s <= 599 {
        to_owned_string("服务暂时不可用，请稍后重试。")
    } else {
        with_status("连接失败（HTTP ", s, "），请稍后重试。")
    }
}

/// The audit page's error when the project list could not be loaded:
/// `项目列表加载失败：` and the friendly error.
pub fn audit_projects_error(error: &ApiError) -> (r: String)
    ensures
        r@ == "项目列表加载失败："@ + friendly_error_text(*error),
{
    let mut r = to_owned_string("项目列表加载失败：");
    let f = friendly_api_error(error);
    push_str(&mut r, f.as_str());
    r
}

/// What the user is told when the release check on GitHub fails.
pub open spec fn github_error_text(e: ApiError) -> Seq<char> {
    if e.status == 0 {
        "无法连接 GitHub，请检查网络连接。"@
    } else if e.status == 403 || e.status == 429 {
        "GitHub API 请求受限，请稍后重试。"@
    } else if e.status == 404 {
        "GitHub Releases 中没有可用的正式版本。"@
    } else if 500 <= e.status <= 599 {
        "GitHub 暂时不可用，请稍后重试。"@
    } else {
        "请求失败（HTTP "@ + decimal(e.status as nat) + "），请稍后重试。"@
    }
}

pub fn github_release_error(error: &ApiError) -> (r: String)
    ensures
        r@ == github_error_text(*error),
{
    let s = error.status;
    if s == 0 {
        to_owned_string("无法连接 GitHub，请检查网络连接。")
    } else if s == 403 || s == 429 {
        to_owned_string("GitHub API 请求受限，请稍后重试。")
    } else if s == 404 {
        to_owned_string("GitHub Releases 中没有可用的正式版本。")
    } else if 500 <= s && s <= 599 {
        to_owned_string("GitHub 暂时不可用，请稍后重试。")
    } else {
        with_status("请求失败（HTTP ", s, "），请稍后重试。")
    }
}

/// At most `max` characters of `s`, with `…` in place of the rest.
pub open spec fn truncated(s: Seq<char>, max: nat) -> Seq<char> {
    if s.len() <= max {
        s
    } else {
        s.take(max as int) + "…"@
    }
}

/// Shortens `s` to `max` characters, marking the cut with `…`.
pub fn truncate(s: &str, max: usize) -> (r: String)
    ensures
        r@ == truncated(s@, max as nat),
{
    let cs = crate::text::chars_of(s);
    if cs.len() <= max {
        to_owned_string(s)
    } else {
        let mut r = take_chars(s, max);
        push_str(&mut r, "…");
        r
    }
}

/// The login failure text: known error codes get a fixed sentence, server
/// faults a generic one, anything else the server's own message (at most
/// 160 characters); the request id (at most 32) follows when there is one.
pub open spec fn login_error_text(e: ApiError) -> Seq<char> {
    let message = if e.code@ == "invalid_credentials"@ {
        "用户名或密码不正确，请检查后重试。"@
    } else if e.code@ == "account_disabled"@ {
        "账号已停用，请联系管理员。"@
    } else if e.code@ == "network_error"@ {
        "无法连接服务，请检查服务地址和网络。"@
    } else if e.code@ == "authentication_required"@ || e.code@ == "invalid_token"@ {
        "认证失败，请检查账号信息和服务地址。"@
    } else if e.status >= 500 {
        "服务暂时不可用，请稍后重试。"@
    } else if trim(e.message@).len() == 0 {
        "登录失败，请稍后重试。"@
    } else {
        "登录失败："@ + truncated(trim(e.message@), 160)
    };
    match e.request_id {
        Some(id) => message + " · 请求 ID "@ + truncated(id@, 32),
        None => message,
    }
}

pub fn login_error_message(error: &ApiError) -> (r: String)
    ensures
        r@ == login_error_text(*error),
{
    let code = error.code.as_str();
    let mut message = if str_eq(code, "invalid_credentials") {
        to_owned_string("用户名或密码不正确，请检查后重试。")
    } else if str_eq(code, "account_disabled") {
        to_owned_string("账号已停用，请联系管理员。")
    } else if str_eq(code, "network_error") {
        to_owned_string("无法连接服务，请检查服务地址和网络。")
    } else if str_eq(code, "authentication_required") || str_eq(code, "invalid_token") {
        to_owned_string("认证失败，请检查账号信息和服务地址。")
    } else if error.status >= 500 {
        to_owned_string("服务暂时不可用，请稍后重试。")
    } else {
        let detail = trimmed(error.message.as_str());
        if detail.as_str().is_empty() {
            to_owned_string("登录失败，请稍后重试。")
        } else {
            let mut m = to_owned_string("登录失败：");
            let cut = truncate(detail.as_str(), 160);
            push_str(&mut m, cut.as_str());
            m
        }
    };
    match &error.request_id {
        Some(id) => {
            push_str(&mut message, " · 请求 ID ");
            let cut = truncate(id.as_str(), 32);
            push_str(&mut message, cut.as_str());
        },
        None => {},
    }
    message
}

// ---------------------------------------------------------------------------
// Forms
// ---------------------------------------------------------------------------

/// The phrase that unlocks deleting a document or directory.
pub open spec fn delete_phrase() -> Seq<char> {
    "确认删除"@
}

/// The hint shown while the delete phrase is not typed exactly.
pub open spec fn delete_phrase_hint() -> Seq<char> {
    "请输入「确认删除」以继续"@
}

/// Deleting is unlocked exactly when the input, trimmed, is 「确认删除」.
pub fn delete_confirmation_error(input: &str) -> (r: Option<String>)
    ensures
        match r {
            None => trim(input@) == delete_phrase(),
            Some(m) => trim(input@) != delete_phrase() && m@ == delete_phrase_hint(),
        },
{
    let t = trimmed(input);
    if str_eq(t.as_str(), "确认删除") {
        None
    } else {
        Some(to_owned_string("请输入「确认删除」以继续"))
    }
}

/// The sign-in form needs a username (not blank) and a password.
pub fn login_form_error(username: &str, password: &str) -> (r: Option<String>)
    ensures
        match r {
            None => trim(username@).len() > 0 && password@.len() > 0,
            Some(m) => (trim(username@).len() == 0 || password@.len() == 0) && m@
                == "请输入用户名和密码"@,
        },
{
    if is_blank(username) || password.is_empty() {
        Some(to_owned_string("请输入用户名和密码"))
    } else {
        None
    }
}

/// Number of bytes in the UTF-8 encoding of `s`.
fn byte_len(s: &str) -> (n: usize)
    ensures
        n as nat == utf8_len(s@),
{
    s.as_bytes().len()
}

/// A password reset needs the token and a new password of at least eight
/// bytes.
pub fn reset_form_error(token: &str, new_password: &str) -> (r: Option<String>)
    ensures
        match r {
            None => trim(token@).len() > 0 && utf8_len(new_password@) >= 8,
            Some(m) => (trim(token@).len() == 0 || utf8_len(new_password@) < 8) && m@
                == "需要 token 且新密码至少 8 个字符"@,
        },
{
    if is_blank(token) || byte_len(new_password) < 8 {
        Some(to_owned_string("需要 token 且新密码至少 8 个字符"))
    } else {
        None
    }
}

/// Requesting a reset token needs a username.
pub fn reset_request_error(username: &str) -> (r: Option<String>)
    ensures
        match r {
            None => trim(username@).len() > 0,
            Some(m) => trim(username@).len() == 0 && m@ == "请输入用户名"@,
        },
{
    if is_blank(username) {
        Some(to_owned_string("请输入用户名"))
    } else {
        None
    }
}

/// A new user needs a username (not blank) and a password of at least
/// eight bytes.
pub fn user_form_error(username: &str, password: &str) -> (r: Option<String>)
    ensures
        match r {
            None => trim(username@).len() > 0 && utf8_len(password@) >= 8,
            Some(m) => (trim(username@).len() == 0 || utf8_len(password@) < 8) && m@
                == "用户名不能为空，密码至少需要 8 个字符"@,
        },
{
    if is_blank(username) || byte_len(password) < 8 {
        Some(to_owned_string("用户名不能为空，密码至少需要 8 个字符"))
    } else {
        None
    }
}

/// The server address to use: the typed one, trimmed, or the saved one
/// when nothing was typed.
pub fn server_or_saved(input: &str, saved: &str) -> (r: String)
    ensures
        r@ == (if trim(input@).len() == 0 {
            saved@
        } else {
            trim(input@)
        }),
{
    let t = trimmed(input);
    if t.as_str().is_empty() {
        to_owned_string(saved)
    } else {
        t
    }
}

/// What the login panel says after asking for a reset token: confirmed,
/// not confirmed, or `请求失败: <error>`; the flag says whether it went
/// through.
pub open spec fn reset_request_report(result: Result<bool, ApiError>) -> (bool, Seq<char>) {
    match result {
        Ok(true) => (true, "已请求重置。请联系服务器运维获取一次性 token（已写入服务端日志）。"@),
        Ok(false) => (false, "服务器未返回确认，请稍后重试"@),
        Err(e) => (false, "请求失败: "@ + api_error_text(e)),
    }
}

pub fn reset_request_outcome(result: Result<bool, ApiError>) -> (r: (bool, String))
    ensures
        (r.0, r.1@) == reset_request_report(result),
{
    match result {
        Ok(true) => (true, to_owned_string("已请求重置。请联系服务器运维获取一次性 token（已写入服务端日志）。")),
        Ok(false) => (false, to_owned_string("服务器未返回确认，请稍后重试")),
        Err(e) => {
            let mut m = to_owned_string("请求失败: ");
            let d = e.display();
            push_str(&mut m, d.as_str());
            (false, m)
        },
    }
}

/// What the login panel says after submitting a new password: reset (and
/// back to signing in), not confirmed, or `重置失败: <error>`.
pub open spec fn reset_report(result: Result<bool, ApiError>) -> (bool, Seq<char>) {
    match result {
        Ok(true) => (true, "密码已重置，请使用新密码登录"@),
        Ok(false) => (false, "服务器未确认，请重试"@),
        Err(e) => (false, "重置失败: "@ + api_error_text(e)),
    }
}

pub fn reset_outcome(result: Result<bool, ApiError>) -> (r: (bool, String))
    ensures
        (r.0, r.1@) == reset_report(result),
{
    match result {
        Ok(true) => (true, to_owned_string("密码已重置，请使用新密码登录")),
        Ok(false) => (false, to_owned_string("服务器未确认，请重试")),
        Err(e) => {
            let mut m = to_owned_string("重置失败: ");
            let d = e.display();
            push_str(&mut m, d.as_str());
            (false, m)
        },
    }
}

/// What the settings page says after testing the connection: success with
/// the server's version, or the friendly error with its request id.
pub fn connection_report(result: Result<Meta, ApiError>) -> (r: (bool, String, Option<String>))
    ensures
        match result {
            Ok(m) => r.0 && r.1@ == "连接成功"@ && (r.2 matches Some(d) && d@ == "服务版本 "@
                + m.version@),
            Err(e) => !r.0 && r.1@ == friendly_error_text(e) && match e.request_id {
                Some(id) => r.2 matches Some(d) && d@ == "请求 ID · "@ + id@,
                None => r.2 is None,
            },
        },
{
    match result {
        Ok(m) => {
            let mut d = to_owned_string("服务版本 ");
            push_str(&mut d, m.version.as_str());
            (true, to_owned_string("连接成功"), Some(d))
        },
        Err(e) => {
            let message = friendly_api_error(&e);
            let detail = match &e.request_id {
                Some(id) => {
                    let mut d = to_owned_string("请求 ID · ");
                    push_str(&mut d, id.as_str());
                    Some(d)
                },
                None => None,
            };
            (false, message, detail)
        },
    }
}

/// Saving the server address: a blank address is refused (with the line
/// to show); otherwise the trimmed address is kept, and the saved session
/// is dropped when the address changes.
pub enum ServerSave {
    Blank(String),
    Save { url: String, drop_session: bool },
}

pub fn server_save(input: &str, current: &str) -> (r: ServerSave)
    ensures
        trim(input@).len() == 0 ==> (r matches ServerSave::Blank(m) && m@ == "请输入服务地址。"@),
        trim(input@).len() > 0 ==> (r matches ServerSave::Save { url, drop_session } && url@ == trim(
            input@,
        ) && drop_session == (trim(input@) != current@)),
{
    let url = trimmed(input);
    if url.as_str().is_empty() {
        ServerSave::Blank(to_owned_string("请输入服务地址。"))
    } else {
        let drop_session = !str_eq(url.as_str(), current);
        ServerSave::Save { url, drop_session }
    }
}

} // verus!
