use vstd::prelude::*;

verus! {

use crate::error::Error;

/// The HTTP verbs this API uses.
#[derive(Debug, Clone, Copy, PartialEq, Eq, Structural)]
pub enum HttpMethod {
    Get,
    Post,
    Delete,
}

/// One fully determined HTTP request: everything a transport needs to issue
/// it. `auth` is the complete `Authorization` header value; a body, when
/// present, is JSON text to be sent as `application/json`.
pub struct HttpRequest {
    pub method: HttpMethod,
    pub url: String,
    pub auth: String,
    pub body: Option<String>,
}

/// A character an HTTP header value can carry: horizontal tab, or anything
/// outside the ASCII control range (DEL excluded as well).
pub open spec fn valid_header_char(c: char) -> bool {
    c == '\t' || (32 <= c as u32 && c as u32 != 127)
}

pub open spec fn valid_header_value(s: Seq<char>) -> bool {
    forall|k: int| 0 <= k < s.len() ==> valid_header_char(s[k])
}

/// Whether every character of `s` may stand in an HTTP header value.
pub fn check_header_value(s: &str) -> (r: bool)
    ensures
        r == valid_header_value(s@),
{
    let n = s.unicode_len();
    let mut i: usize = 0;
    while i < n
        invariant
            i <= n,
            n == s@.len(),
            forall|k: int| 0 <= k < i ==> valid_header_char(s@[k]),
        decreases n - i,
    {
        let c = s.get_char(i);
        if !(c == '\t' || (32 <= c as u32 && c as u32 != 127)) {
            return false;
        }
        i = i + 1;
    }
    true
}

/// The `Authorization` header value carrying an api key as a bearer token.
pub open spec fn spec_auth_header(key: Seq<char>) -> Seq<char> {
    "Bearer "@ + key
}

pub fn auth_header(api_key: &str) -> (r: String)
    ensures
        r@ == spec_auth_header(api_key@),
{
    let mut s = String::from_str("Bearer ");
    s.append(api_key);
    s
}

/// The base URL followed by one path segment.
pub fn join_url(base: &str, id: &str) -> (r: String)
    ensures
        r@ == base@ + id@,
{
    let mut s = String::from_str(base);
    s.append(id);
    s
}

/// Sorts an HTTP status: the 2xx range is success, anything else is a
/// transport error carrying that status.
pub fn check_status(status: u16) -> (r: Result<(), Error>)
    ensures
        r is Ok <==> 200 <= status < 300,
        (r matches Err(e) ==> (e matches Error::Transport { status: st, message: _ } && st
            == Some(status))),
{
    if 200 <= status && status < 300 {
        Ok(())
    } else {
        Err(
            Error::Transport {
                status: Some(status),
                message: String::from_str("server answered with a non-success status"),
            },
        )
    }
}

} // verus!
