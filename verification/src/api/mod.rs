//! The rules of the XWiki HTTP API client that do not need the network:
//! error values built from the server's uniform error envelope, the session
//! cookie kept from a login response, the base URL, and the memory limit on
//! binary responses.
use vstd::prelude::*;

use crate::text::{
    before_char, char_pos_at, chars_of, decimal, decimal_string, join_with, push_str,
    string_from_chars, to_owned_string, trim, trim_at, trim_end_char, trim_end_char_at,
};

pub mod dto;
pub mod routes;

verus! {

/// Responses buffered in memory (exports, attachments) are refused above
/// this many bytes (128 MiB).
pub const MAX_BUFFERED_RESPONSE_BYTES: usize = 134217728;

/// API error mapped from the server's uniform error envelope.
#[derive(Debug, Clone)]
pub struct ApiError {
    pub code: String,
    pub message: String,
    pub request_id: Option<String>,
    pub status: u16,
}

/// `code (status): message [request_id]`, the bracket only with a request id.
pub open spec fn api_error_text(e: ApiError) -> Seq<char> {
    let head = e.code@ + " ("@ + decimal(e.status as nat) + "): "@ + e.message@;
    match e.request_id {
        Some(id) => head + " ["@ + id@ + "]"@,
        None => head,
    }
}

impl ApiError {
    /// The one-line text of the error (what `Display` shows).
    pub fn display(&self) -> (r: String)
        ensures
            r@ == api_error_text(*self),
    {
        let mut r = String::new();
        push_str(&mut r, self.code.as_str());
        push_str(&mut r, " (");
        let status = decimal_string(self.status as u64);
        push_str(&mut r, status.as_str());
        push_str(&mut r, "): ");
        push_str(&mut r, self.message.as_str());
        match &self.request_id {
            Some(id) => {
                push_str(&mut r, " [");
                push_str(&mut r, id.as_str());
                push_str(&mut r, "]");
            },
            None => {},
        }
        r
    }
}

/// An error with no request id.
fn plain_error(code: &str, message: String, status: u16) -> (e: ApiError)
    ensures
        e.code@ == code@,
        e.message@ == message@,
        e.request_id is None,
        e.status == status,
{
    ApiError { code: to_owned_string(code), message, request_id: None, status }
}

/// A string of `a` followed by `b`.
fn concat(a: &str, b: &str) -> (r: String)
    ensures
        r@ == a@ + b@,
{
    let mut r = to_owned_string(a);
    push_str(&mut r, b);
    r
}

/// The error for a request that never got a response.
pub fn network_error(detail: &str) -> (e: ApiError)
    ensures
        e.code@ == "network_error"@,
        e.message@ == "无法连接服务: "@ + detail@,
        e.request_id is None,
        e.status == 0,
{
    plain_error("network_error", concat("无法连接服务: ", detail), 0)
}

/// The error for a successful response whose body does not decode.
pub fn decode_error(detail: &str, status: u16) -> (e: ApiError)
    ensures
        e.code@ == "decode_error"@,
        e.message@ == detail@,
        e.request_id is None,
        e.status == status,
{
    plain_error("decode_error", to_owned_string(detail), status)
}

/// The error for a request task that could not be joined.
pub fn join_error(detail: &str) -> (e: ApiError)
    ensures
        e.code@ == "join_error"@,
        e.message@ == detail@,
        e.request_id is None,
        e.status == 0,
{
    plain_error("join_error", to_owned_string(detail), 0)
}

/// The error for an HTTP client that could not be built.
pub fn client_error(detail: &str) -> (e: ApiError)
    ensures
        e.code@ == "client_error"@,
        e.message@ == detail@,
        e.request_id is None,
        e.status == 0,
{
    plain_error("client_error", to_owned_string(detail), 0)
}

/// The error for a lock request that the server answered without a lock.
pub fn lock_missing() -> (e: ApiError)
    ensures
        e.code@ == "lock_missing"@,
        e.message@ == "server returned no lock"@,
        e.request_id is None,
        e.status == 500,
{
    plain_error("lock_missing", to_owned_string("server returned no lock"), 500)
}

/// The error for a binary response above [`MAX_BUFFERED_RESPONSE_BYTES`].
pub fn response_too_large(status: u16) -> (e: ApiError)
    ensures
        e.code@ == "response_too_large"@,
        e.message@ == "响应超过 "@ + decimal(128) + " MiB 内存缓冲限制"@,
        e.request_id is None,
        e.status == status,
{
    let mib = decimal_string((MAX_BUFFERED_RESPONSE_BYTES / 1048576) as u64);
    let mut m = to_owned_string("响应超过 ");
    push_str(&mut m, mib.as_str());
    push_str(&mut m, " MiB 内存缓冲限制");
    plain_error("response_too_large", m, status)
}

/// Whether the server speaks the API version this client was written for.
pub fn api_version_supported(api_version: &str) -> (b: bool)
    ensures
        b == (api_version@ == "1"@),
{
    let v = chars_of(api_version);
    let one = chars_of("1");
    assert(v@.subrange(0, v@.len() as int) =~= v@);
    crate::text::equals_at(v.as_slice(), 0, v.len(), one.as_slice())
}

/// The error for a server whose API version is not supported.
pub fn unsupported_api_version(api_version: &str) -> (e: ApiError)
    ensures
        e.code@ == "unsupported_api_version"@,
        e.message@ == "服务器 API 版本 "@ + api_version@ + " 不受支持，请升级客户端"@,
        e.request_id is None,
        e.status == 400,
{
    let mut m = to_owned_string("服务器 API 版本 ");
    push_str(&mut m, api_version);
    push_str(&mut m, " 不受支持，请升级客户端");
    plain_error("unsupported_api_version", m, 400)
}

/// Before signing in, the server's metadata must report API version `1`;
/// another version is refused as unsupported, and a failed metadata
/// request fails the sign-in with its error.
pub fn check_meta(meta: Result<dto::Meta, ApiError>) -> (r: Result<(), ApiError>)
    ensures
        match meta {
            Ok(m) => if m.api_version@ == "1"@ {
                r is Ok
            } else {
                r matches Err(e) && e.code@ == "unsupported_api_version"@ && e.message@
                    == "服务器 API 版本 "@ + m.api_version@ + " 不受支持，请升级客户端"@
                    && e.request_id is None && e.status == 400
            },
            Err(e) => r == Err::<(), ApiError>(e),
        },
{
    match meta {
        Ok(m) => if api_version_supported(m.api_version.as_str()) {
            Ok(())
        } else {
            Err(unsupported_api_version(m.api_version.as_str()))
        },
        Err(e) => Err(e),
    }
}

/// Turns a non-success response into the uniform `ApiError`: the server's
/// envelope when it decoded, a plain HTTP status otherwise.
pub fn error_from_response(status: u16, envelope: Option<dto::ApiErrorBody>) -> (e: ApiError)
    ensures
        match envelope {
            Some(env) => e == ApiError {
                code: env.code,
                message: env.message,
                request_id: env.request_id,
                status,
            },
            None => e.code@ == "http_error"@ && e.message@ == "HTTP "@ + decimal(status as nat)
                && e.request_id is None && e.status == status,
        },
{
    match envelope {
        Some(env) => ApiError {
            code: env.code,
            message: env.message,
            request_id: env.request_id,
            status,
        },
        None => {
            let digits = decimal_string(status as u64);
            plain_error("http_error", concat("HTTP ", digits.as_str()), status)
        },
    }
}

/// Whether a declared body length already exceeds the buffering limit.
pub fn declared_length_too_large(content_length: Option<u64>) -> (b: bool)
    ensures
        b == (content_length matches Some(n) && n > MAX_BUFFERED_RESPONSE_BYTES),
{
    match content_length {
        Some(n) => n > MAX_BUFFERED_RESPONSE_BYTES as u64,
        None => false,
    }
}

/// The capacity to reserve for a body: its declared length, at most the
/// buffering limit.
pub fn initial_capacity(content_length: Option<u64>) -> (c: usize)
    ensures
        c == match content_length {
            Some(n) => if n < MAX_BUFFERED_RESPONSE_BYTES {
                n as usize
            } else {
                MAX_BUFFERED_RESPONSE_BYTES
            },
            None => 0,
        },
{
    match content_length {
        Some(n) => if n < MAX_BUFFERED_RESPONSE_BYTES as u64 {
            n as usize
        } else {
            MAX_BUFFERED_RESPONSE_BYTES
        },
        None => 0,
    }
}

/// Whether appending a chunk to what is buffered would pass the limit.
pub fn chunk_exceeds_limit(buffered: usize, chunk: usize) -> (b: bool)
    ensures
        b == (buffered + chunk > MAX_BUFFERED_RESPONSE_BYTES),
{
    chunk > MAX_BUFFERED_RESPONSE_BYTES || buffered > MAX_BUFFERED_RESPONSE_BYTES - chunk
}

/// The server address without trailing slashes.
pub fn base_url(server: &str) -> (r: String)
    ensures
        r@ == trim_end_char(server@, '/'),
{
    let cs = chars_of(server);
    let end = trim_end_char_at(cs.as_slice(), 0, cs.len(), '/');
    assert(cs@.subrange(0, cs@.len() as int) =~= server@);
    string_from_chars(&cs.as_slice()[0..end])
}

/// The full URL of an API path.
pub fn endpoint_url(base: &str, path: &str) -> (r: String)
    ensures
        r@ == base@ + path@,
{
    concat(base, path)
}

/// The cookie pairs of `Set-Cookie` header values (`None` for a value that
/// is not visible ASCII): the part before the first `;`, trimmed, when not
/// empty.
pub open spec fn cookie_pairs(values: Seq<Option<String>>) -> Seq<Seq<char>>
    decreases values.len(),
{
    if values.len() == 0 {
        seq![]
    } else {
        let prev = cookie_pairs(values.drop_last());
        match values.last() {
            Some(v) => {
                let pair = trim(before_char(v@, ';'));
                if pair.len() > 0 {
                    prev.push(pair)
                } else {
                    prev
                }
            },
            None => prev,
        }
    }
}

/// The session cookie to keep from a response's `Set-Cookie` values: every
/// cookie pair joined with `"; "`, or `None` when there is none.
pub fn session_cookie(values: &[Option<String>]) -> (r: Option<String>)
    ensures
        match r {
            Some(c) => cookie_pairs(values@).len() > 0 && c@ == join_with(
                cookie_pairs(values@),
                "; "@,
            ),
            None => cookie_pairs(values@).len() == 0,
        },
{
    let mut out = String::new();
    let mut count: usize = 0;
    let mut i: usize = 0;
    while i < values.len()
        invariant
            i <= values@.len(),
            count <= i,
            count as nat == cookie_pairs(values@.take(i as int)).len(),
            out@ == join_with(cookie_pairs(values@.take(i as int)), "; "@),
        decreases values@.len() - i,
    {
        assert(values@.take(i + 1).drop_last() =~= values@.take(i as int));
        match &values[i] {
            Some(v) => {
                let cs = chars_of(v.as_str());
                let s = cs.as_slice();
                let cut = char_pos_at(s, 0, s.len(), ';');
                let (a, b) = trim_at(s, 0, cut);
                assert(cs@.subrange(0, cs@.len() as int) =~= v@);
                assert(before_char(v@, ';') =~= cs@.subrange(0, cut as int));
                if a < b {
                    if count > 0 {
                        push_str(&mut out, "; ");
                    }
                    let pair = string_from_chars(&s[a..b]);
                    push_str(&mut out, pair.as_str());
                    proof {
                        let ps = cookie_pairs(values@.take(i + 1));
                        assert(ps.drop_last() == cookie_pairs(values@.take(i as int)));
                        if count == 0 {
                            assert(out@ =~= ps[0]);
                        }
                    }
                    count = count + 1;
                }
            },
            None => {},
        }
        i = i + 1;
    }
    assert(values@.take(values@.len() as int) =~= values@);
    if count == 0 {
        None
    } else {
        Some(out)
    }
}

/// The base address never ends in a slash, so an API path (which starts
/// with one) joins it with exactly one; and taking the base of a base
/// changes nothing.
pub proof fn law_base_url_has_no_trailing_slash(server: Seq<char>)
    ensures
        trim_end_char(server, '/').len() == 0 || trim_end_char(server, '/').last() != '/',
        trim_end_char(trim_end_char(server, '/'), '/') == trim_end_char(server, '/'),
    decreases server.len(),
{
    if server.len() > 0 && server.last() == '/' {
        law_base_url_has_no_trailing_slash(server.drop_last());
    }
}

} // verus!
