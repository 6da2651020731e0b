//! Replies of the Feishu API and the decisions around its access token.
use vstd::prelude::*;
use crate::text::str_eq;

verus! {

/// A reply of the Feishu API: a status code, a message and the data asked for.
#[allow(non_snake_case)]
pub struct ApiResponse<T> {
    pub code: Option<i32>,
    pub msg: Option<String>,
    pub StatusCode: Option<i32>,
    pub data: Option<T>,
}

/// The kinds of access token one can ask for.
pub open spec fn is_token_kind(key: Seq<char>) -> bool {
    key == "app_access_token"@ || key == "tenant_access_token"@
}

/// The error for an unknown kind of access token.
pub open spec fn bad_token_kind_text() -> Seq<char> {
    "Invalid key, must be 'app_access_token' or 'tenant_access_token'"@
}

/// Checks the kind of access token asked for.
pub fn check_token_kind(key: &str) -> (r: Result<(), String>)
    ensures
        r is Ok <==> is_token_kind(key@),
        r matches Err(e) ==> e@ == bad_token_kind_text(),
{
    if str_eq(key, "app_access_token") || str_eq(key, "tenant_access_token") {
        Ok(())
    } else {
        Err(crate::text::owned("Invalid key, must be 'app_access_token' or 'tenant_access_token'"))
    }
}

/// Whether a cached token must be fetched again at `now`: when nothing is cached,
/// when the cache lacks its update time or lifetime, or when more than 80% of the
/// lifetime has passed since the update.
pub open spec fn must_refresh(cached: Option<(Option<i64>, Option<i64>)>, now: i64) -> bool {
    match cached {
        None => true,
        Some((Some(update_time), Some(expire))) => 5 * (now - update_time) > 4 * expire,
        Some(_) => true,
    }
}

/// Whether a cached token must be fetched again (see `must_refresh`).
pub fn needs_refresh(cached: Option<(Option<i64>, Option<i64>)>, now: i64) -> (r: bool)
    ensures
        r == must_refresh(cached, now),
{
    match cached {
        None => true,
        Some((Some(update_time), Some(expire))) => 5 * ((now as i128) - (update_time as i128)) > 4 * (expire as i128),
        Some(_) => true,
    }
}


/// The HTTP methods the Feishu API is called with.
#[derive(PartialEq, Eq, Structural, Debug, Clone, Copy)]
pub enum HttpMethod {
    Get,
    Post,
    Put,
    Delete,
    Patch,
}

/// The text std's `str::to_uppercase` writes for a text.
pub uninterp spec fn upper_text(text: Seq<char>) -> Seq<char>;

/// `str::to_uppercase`. Claimed: the result is a function of the text
/// (`upper_text`).
#[verifier::external_body]
fn to_upper(s: &str) -> (r: String)
    ensures
        r@ == upper_text(s@),
{
    s.to_uppercase()
}

/// The method an upper-case method name stands for.
pub open spec fn method_of(upper: Seq<char>) -> Option<HttpMethod> {
    if upper == "GET"@ {
        Some(HttpMethod::Get)
    } else if upper == "POST"@ {
        Some(HttpMethod::Post)
    } else if upper == "PUT"@ {
        Some(HttpMethod::Put)
    } else if upper == "DELETE"@ {
        Some(HttpMethod::Delete)
    } else if upper == "PATCH"@ {
        Some(HttpMethod::Patch)
    } else {
        None
    }
}

/// The message for a method the API is not called with.
pub open spec fn bad_method_text(method: Seq<char>) -> Seq<char> {
    "Unsupported HTTP method: "@ + method
}

/// The method a request names, in any case (see `method_of` of its upper case);
/// an unknown one is refused with `bad_method_text`.
pub fn http_method(method: &str) -> (r: Result<HttpMethod, String>)
    ensures
        match method_of(upper_text(method@)) {
            Some(m) => r == Ok::<HttpMethod, String>(m),
            None => r matches Err(e) && e@ == bad_method_text(method@),
        },
{
    let up = to_upper(method);
    let u = up.as_str();
    if str_eq(u, "GET") {
        Ok(HttpMethod::Get)
    } else if str_eq(u, "POST") {
        Ok(HttpMethod::Post)
    } else if str_eq(u, "PUT") {
        Ok(HttpMethod::Put)
    } else if str_eq(u, "DELETE") {
        Ok(HttpMethod::Delete)
    } else if str_eq(u, "PATCH") {
        Ok(HttpMethod::Patch)
    } else {
        let mut e = crate::text::owned("Unsupported HTTP method: ");
        crate::text::push_str(&mut e, method);
        Err(e)
    }
}

/// The status of a reply: its `code`, else its `StatusCode`, else -1.
pub open spec fn reply_code(code: Option<i64>, status_code: Option<i64>) -> i64 {
    match code {
        Some(c) => c,
        None => match status_code {
            Some(c) => c,
            None => -1i64,
        },
    }
}

/// The message for a failed request.
pub open spec fn failed_reply_text(code: i64, msg: Seq<char>) -> Seq<char> {
    "Request failed: code="@ + crate::text::int_text(code as int) + ", msg="@ + msg
}

/// Accepts a reply whose status (`reply_code`) is 0; any other status is refused
/// with `failed_reply_text` of the status and the message (empty when missing).
pub fn check_reply(code: Option<i64>, status_code: Option<i64>, msg: Option<&str>) -> (r: Result<(), String>)
    ensures
        reply_code(code, status_code) == 0 ==> r is Ok,
        reply_code(code, status_code) != 0 ==> (r matches Err(e) && e@ == failed_reply_text(
            reply_code(code, status_code),
            match msg {
                Some(m) => m@,
                None => ""@,
            },
        )),
{
    let c: i64 = match code {
        Some(x) => x,
        None => match status_code {
            Some(x) => x,
            None => -1,
        },
    };
    if c == 0 {
        return Ok(());
    }
    let mut e = crate::text::owned("Request failed: code=");
    crate::text::push_int(&mut e, c);
    crate::text::push_str(&mut e, ", msg=");
    match msg {
        Some(m) => crate::text::push_str(&mut e, m),
        None => {
            proof {
                reveal_strlit("");
            }
            crate::text::push_str(&mut e, "");
        },
    }
    Err(e)
}
} // verus!
