//! How the client reads each HTTP answer of the Kagi services.
//!
//! Each function here is the decision taken between sending a request and
//! decoding its answer: given the status code and the body that came back,
//! it either accepts the body for decoding or names the error to report.
use vstd::prelude::*;

use crate::error::{fails_with, outcome_is, ErrorKind, KagiError, Outcome};
use crate::http::{
    body_suffix, client_error_suffix, error_body_suffix, format_client_error_suffix,
    looks_like_html, looks_like_html_document, status_display, status_text,
};
use crate::search::{api_error_suffix, format_api_error_suffix, is_logged_out_page, looks_unauthenticated};
use crate::text::{opt_str_view, trim_ws};

verus! {

/// `before`, the subject, `middle`, then `HTTP <status>` and the suffix.
pub open spec fn status_message(
    before: Seq<char>,
    subject: Seq<char>,
    middle: Seq<char>,
    code: u16,
    suffix: Seq<char>,
) -> Seq<char> {
    before + subject + middle + "HTTP "@ + status_text(code) + suffix
}

/// Builds `before + subject + middle + "HTTP " + status + suffix`.
pub fn status_message_text(
    before: &str,
    subject: &str,
    middle: &str,
    code: u16,
    suffix: &str,
) -> (m: String)
    requires
        100 <= code <= 999,
    ensures
        m@ == status_message(before@, subject@, middle@, code, suffix@),
{
    let mut m = before.to_owned();
    m.append(subject);
    m.append(middle);
    m.append("HTTP ");
    let st = status_display(code);
    m.append(st.as_str());
    m.append(suffix);
    m
}

/// 401 or 403.
pub open spec fn is_auth_status(code: u16) -> bool {
    code == 401 || code == 403
}

/// 4xx.
pub open spec fn is_client_error(code: u16) -> bool {
    400 <= code < 500
}

/// 5xx.
pub open spec fn is_server_error(code: u16) -> bool {
    500 <= code < 600
}

/// The answer to a session-token HTML search of `surface` (`search` or
/// `news search`): a 200 body is accepted unless it is the logged-out page;
/// 401/403 is an `Auth` error, 5xx a `Network` server error, anything else
/// a `Network` error for an unexpected status. Error messages end with the
/// response-body suffix.
pub open spec fn session_search_outcome(surface: Seq<char>, code: u16, body: Seq<char>) -> Outcome {
    if code == 200 {
        if is_logged_out_page(body) {
            Err((ErrorKind::Auth, "invalid or expired Kagi session token"@))
        } else {
            Ok(body)
        }
    } else if is_auth_status(code) {
        Err((ErrorKind::Auth, status_message("invalid or expired Kagi session token for "@, surface, ": "@, code, body_suffix(body))))
    } else if is_server_error(code) {
        Err((ErrorKind::Network, status_message("Kagi "@, surface, " server error: "@, code, body_suffix(body))))
    } else {
        Err((ErrorKind::Network, status_message("unexpected Kagi "@, surface, " response status: "@, code, body_suffix(body))))
    }
}

/// Reads the answer to a session-token HTML search.
pub fn read_session_search_response(surface: &str, code: u16, body: &str) -> (r: Result<String, KagiError>)
    requires
        100 <= code <= 999,
    ensures
        outcome_is(r, session_search_outcome(surface@, code, body@)),
{
    if code == 200 {
        if looks_unauthenticated(body) {
            return Err(KagiError::Auth("invalid or expired Kagi session token".to_owned()));
        }
        return Ok(body.to_owned());
    }
    let suffix = error_body_suffix(body);
    if code == 401 || code == 403 {
        Err(KagiError::Auth(status_message_text("invalid or expired Kagi session token for ", surface, ": ", code, suffix.as_str())))
    } else if 500 <= code && code < 600 {
        Err(KagiError::Network(status_message_text("Kagi ", surface, " server error: ", code, suffix.as_str())))
    } else {
        Err(KagiError::Network(status_message_text("unexpected Kagi ", surface, " response status: ", code, suffix.as_str())))
    }
}

/// The answer to a Kagi Search API call: a 200 body is accepted; 4xx is an
/// `Auth` rejection, 5xx a `Network` server error, anything else a `Network`
/// error. Messages end with the API error suffix (see `api_error_suffix`).
pub open spec fn api_search_outcome(code: u16, body: Seq<char>, first_error: Option<Seq<char>>) -> Outcome {
    let suffix = api_error_suffix(body, first_error);
    if code == 200 {
        Ok(body)
    } else if is_client_error(code) {
        Err((ErrorKind::Auth, status_message("Kagi Search API request rejected: "@, seq![], seq![], code, suffix)))
    } else if is_server_error(code) {
        Err((ErrorKind::Network, status_message("Kagi API server error: "@, seq![], seq![], code, suffix)))
    } else {
        Err((ErrorKind::Network, status_message("unexpected Kagi API response status: "@, seq![], seq![], code, suffix)))
    }
}

/// Reads the answer to a Kagi Search API call; `first_error` is the first
/// error message of the body read as a JSON error payload, if it is one.
pub fn read_api_search_response(code: u16, body: &str, first_error: Option<&str>) -> (r: Result<String, KagiError>)
    requires
        100 <= code <= 999,
    ensures
        outcome_is(r, api_search_outcome(code, body@, opt_str_view(first_error))),
{
    if code == 200 {
        return Ok(body.to_owned());
    }
    let suffix = format_api_error_suffix(body, first_error);
    proof {
        reveal_strlit("");
        assert(""@ =~= Seq::<char>::empty());
    }
    if 400 <= code && code < 500 {
        Err(KagiError::Auth(status_message_text("Kagi Search API request rejected: ", "", "", code, suffix.as_str())))
    } else if 500 <= code && code < 600 {
        Err(KagiError::Network(status_message_text("Kagi API server error: ", "", "", code, suffix.as_str())))
    } else {
        Err(KagiError::Network(status_message_text("unexpected Kagi API response status: ", "", "", code, suffix.as_str())))
    }
}

/// The suffix of a rejected Kagi API call (4xx other than 401/403): the
/// first message of the JSON error payload, else the raw body unless blank.
pub open spec fn api_rejection_suffix(body: Seq<char>, first_error: Option<Seq<char>>) -> Seq<char> {
    match first_error {
        Some(m) => "; "@ + m,
        None => if trim_ws(body).len() == 0 {
            seq![]
        } else {
            "; "@ + body
        },
    }
}

/// The answer to an API-token Kagi API call (summarizer, FastGPT,
/// enrichment) for `surface`: a 200 body is accepted for decoding; 401/403
/// is an `Auth` error about the token; other 4xx an `Auth` rejection; 5xx a
/// `Network` server error; anything else a `Network` error.
pub open spec fn kagi_json_outcome(surface: Seq<char>, code: u16, body: Seq<char>, first_error: Option<Seq<char>>) -> Outcome {
    if code == 200 {
        Ok(body)
    } else if is_auth_status(code) {
        Err((ErrorKind::Auth, status_message("invalid Kagi API token or access is not enabled for "@, surface, ": "@, code, client_error_suffix(body))))
    } else if is_client_error(code) {
        Err((ErrorKind::Auth, status_message("Kagi "@, surface, " request rejected: "@, code, api_rejection_suffix(body, first_error))))
    } else if is_server_error(code) {
        Err((ErrorKind::Network, status_message("Kagi "@, surface, " server error: "@, code, client_error_suffix(body))))
    } else {
        Err((ErrorKind::Network, status_message("unexpected Kagi "@, surface, " response status: "@, code, client_error_suffix(body))))
    }
}

/// Reads the answer to an API-token Kagi API call; `first_error` is the first
/// error message of the body read as a JSON error payload, if it is one.
pub fn read_kagi_json_response(surface: &str, code: u16, body: &str, first_error: Option<&str>) -> (r: Result<String, KagiError>)
    requires
        100 <= code <= 999,
    ensures
        outcome_is(r, kagi_json_outcome(surface@, code, body@, opt_str_view(first_error))),
{
    if code == 200 {
        return Ok(body.to_owned());
    }
    if code == 401 || code == 403 {
        let suffix = format_client_error_suffix(body);
        return Err(KagiError::Auth(status_message_text("invalid Kagi API token or access is not enabled for ", surface, ": ", code, suffix.as_str())));
    }
    if 400 <= code && code < 500 {
        let suffix = match first_error {
            Some(m) => crate::text::concat("; ", m),
            None => if crate::text::blank(body) {
                String::new()
            } else {
                crate::text::concat("; ", body)
            },
        };
        return Err(KagiError::Auth(status_message_text("Kagi ", surface, " request rejected: ", code, suffix.as_str())));
    }
    let suffix = format_client_error_suffix(body);
    if 500 <= code && code < 600 {
        Err(KagiError::Network(status_message_text("Kagi ", surface, " server error: ", code, suffix.as_str())))
    } else {
        Err(KagiError::Network(status_message_text("unexpected Kagi ", surface, " response status: ", code, suffix.as_str())))
    }
}

/// The answer to a public (unauthenticated) Kagi endpoint such as News:
/// a 200 body is accepted; 401/403 is an `Auth` error (authentication is not
/// supported there); other 4xx a `Config` rejection; 5xx a `Network` server
/// error; anything else a `Network` error.
pub open spec fn free_json_outcome(surface: Seq<char>, code: u16, body: Seq<char>) -> Outcome {
    let suffix = client_error_suffix(body);
    if code == 200 {
        Ok(body)
    } else if is_auth_status(code) {
        Err((ErrorKind::Auth, status_message("authentication is not supported for public Kagi "@, surface, " endpoints: "@, code, suffix)))
    } else if is_client_error(code) {
        Err((ErrorKind::Config, status_message("Kagi "@, surface, " request rejected: "@, code, suffix)))
    } else if is_server_error(code) {
        Err((ErrorKind::Network, status_message("Kagi "@, surface, " server error: "@, code, suffix)))
    } else {
        Err((ErrorKind::Network, status_message("unexpected Kagi "@, surface, " response status: "@, code, suffix)))
    }
}

/// Reads the answer to a public Kagi endpoint.
pub fn read_free_json_response(surface: &str, code: u16, body: &str) -> (r: Result<String, KagiError>)
    requires
        100 <= code <= 999,
    ensures
        outcome_is(r, free_json_outcome(surface@, code, body@)),
{
    if code == 200 {
        return Ok(body.to_owned());
    }
    let suffix = format_client_error_suffix(body);
    if code == 401 || code == 403 {
        Err(KagiError::Auth(status_message_text("authentication is not supported for public Kagi ", surface, " endpoints: ", code, suffix.as_str())))
    } else if 400 <= code && code < 500 {
        Err(KagiError::Config(status_message_text("Kagi ", surface, " request rejected: ", code, suffix.as_str())))
    } else if 500 <= code && code < 600 {
        Err(KagiError::Network(status_message_text("Kagi ", surface, " server error: ", code, suffix.as_str())))
    } else {
        Err(KagiError::Network(status_message_text("unexpected Kagi ", surface, " response status: ", code, suffix.as_str())))
    }
}

/// The answer to a Kagi Translate call for `surface`: a 200 body is
/// accepted unless it is an HTML document (an `Auth` error: the session is
/// not valid); 401/403 is an `Auth` error; other 4xx a `Config` rejection;
/// 5xx a `Network` server error; anything else a `Network` error.
pub open spec fn translate_json_outcome(surface: Seq<char>, code: u16, body: Seq<char>) -> Outcome {
    let suffix = client_error_suffix(body);
    if code == 200 {
        if looks_like_html(body) {
            Err((ErrorKind::Auth, "invalid or expired Kagi session token for Kagi Translate"@))
        } else {
            Ok(body)
        }
    } else if is_auth_status(code) {
        Err((ErrorKind::Auth, status_message("invalid or expired Kagi session token for Kagi Translate "@, surface, ": "@, code, suffix)))
    } else if is_client_error(code) {
        Err((ErrorKind::Config, status_message("Kagi Translate "@, surface, " request rejected: "@, code, suffix)))
    } else if is_server_error(code) {
        Err((ErrorKind::Network, status_message("Kagi Translate "@, surface, " server error: "@, code, suffix)))
    } else {
        Err((ErrorKind::Network, status_message("unexpected Kagi Translate "@, surface, " response status: "@, code, suffix)))
    }
}

/// Reads the answer to a Kagi Translate call.
pub fn read_translate_json_response(surface: &str, code: u16, body: &str) -> (r: Result<String, KagiError>)
    requires
        100 <= code <= 999,
    ensures
        outcome_is(r, translate_json_outcome(surface@, code, body@)),
{
    if code == 200 {
        if looks_like_html_document(body) {
            return Err(KagiError::Auth("invalid or expired Kagi session token for Kagi Translate".to_owned()));
        }
        return Ok(body.to_owned());
    }
    let suffix = format_client_error_suffix(body);
    if code == 401 || code == 403 {
        Err(KagiError::Auth(status_message_text("invalid or expired Kagi session token for Kagi Translate ", surface, ": ", code, suffix.as_str())))
    } else if 400 <= code && code < 500 {
        Err(KagiError::Config(status_message_text("Kagi Translate ", surface, " request rejected: ", code, suffix.as_str())))
    } else if 500 <= code && code < 600 {
        Err(KagiError::Network(status_message_text("Kagi Translate ", surface, " server error: ", code, suffix.as_str())))
    } else {
        Err(KagiError::Network(status_message_text("unexpected Kagi Translate ", surface, " response status: ", code, suffix.as_str())))
    }
}

/// The answer to a session-authenticated settings page or form post for
/// `surface`: any 2xx body is accepted unless it is the logged-out page (an
/// `Auth` error); 401/403 is an `Auth` error; other 4xx a `Config`
/// rejection; 5xx a `Network` server error; anything else a `Network` error.
pub open spec fn authenticated_html_outcome(surface: Seq<char>, code: u16, body: Seq<char>) -> Outcome {
    let suffix = client_error_suffix(body);
    if 200 <= code < 300 {
        if is_logged_out_page(body) {
            Err((ErrorKind::Auth, "invalid or expired Kagi session token"@))
        } else {
            Ok(body)
        }
    } else if is_auth_status(code) {
        Err((ErrorKind::Auth, status_message("invalid or expired Kagi session token for "@, surface, ": "@, code, suffix)))
    } else if is_client_error(code) {
        Err((ErrorKind::Config, status_message("Kagi "@, surface, " request rejected: "@, code, suffix)))
    } else if is_server_error(code) {
        Err((ErrorKind::Network, status_message("Kagi "@, surface, " server error: "@, code, suffix)))
    } else {
        Err((ErrorKind::Network, status_message("unexpected Kagi "@, surface, " response status: "@, code, suffix)))
    }
}

/// Reads the answer to a session-authenticated settings page or form post.
pub fn read_authenticated_html_response(surface: &str, code: u16, body: &str) -> (r: Result<String, KagiError>)
    requires
        100 <= code <= 999,
    ensures
        outcome_is(r, authenticated_html_outcome(surface@, code, body@)),
{
    if 200 <= code && code < 300 {
        if looks_unauthenticated(body) {
            return Err(KagiError::Auth("invalid or expired Kagi session token".to_owned()));
        }
        return Ok(body.to_owned());
    }
    let suffix = format_client_error_suffix(body);
    if code == 401 || code == 403 {
        Err(KagiError::Auth(status_message_text("invalid or expired Kagi session token for ", surface, ": ", code, suffix.as_str())))
    } else if 400 <= code && code < 500 {
        Err(KagiError::Config(status_message_text("Kagi ", surface, " request rejected: ", code, suffix.as_str())))
    } else if 500 <= code && code < 600 {
        Err(KagiError::Network(status_message_text("Kagi ", surface, " server error: ", code, suffix.as_str())))
    } else {
        Err(KagiError::Network(status_message_text("unexpected Kagi ", surface, " response status: ", code, suffix.as_str())))
    }
}

/// The answer to the Kagi subscriber summarizer: a 200 body is accepted
/// unless it is an HTML document (an `Auth` error); 401/403 is an `Auth`
/// error; 5xx a `Network` server error; anything else a `Network` error.
pub open spec fn subscriber_summarize_outcome(code: u16, body: Seq<char>) -> Outcome {
    let suffix = client_error_suffix(body);
    if code == 200 {
        if looks_like_html(body) {
            Err((ErrorKind::Auth, "invalid or expired Kagi session token"@))
        } else {
            Ok(body)
        }
    } else if is_auth_status(code) {
        Err((ErrorKind::Auth, status_message("invalid or expired Kagi session token for subscriber summarizer: "@, seq![], seq![], code, suffix)))
    } else if is_server_error(code) {
        Err((ErrorKind::Network, status_message("Kagi subscriber summarizer server error: "@, seq![], seq![], code, suffix)))
    } else {
        Err((ErrorKind::Network, status_message("unexpected Kagi subscriber summarizer response status: "@, seq![], seq![], code, suffix)))
    }
}

/// Reads the answer to the Kagi subscriber summarizer.
pub fn read_subscriber_summarize_response(code: u16, body: &str) -> (r: Result<String, KagiError>)
    requires
        100 <= code <= 999,
    ensures
        outcome_is(r, subscriber_summarize_outcome(code, body@)),
{
    if code == 200 {
        if looks_like_html_document(body) {
            return Err(KagiError::Auth("invalid or expired Kagi session token".to_owned()));
        }
        return Ok(body.to_owned());
    }
    let suffix = format_client_error_suffix(body);
    proof {
        reveal_strlit("");
        assert(""@ =~= Seq::<char>::empty());
    }
    if code == 401 || code == 403 {
        Err(KagiError::Auth(status_message_text("invalid or expired Kagi session token for subscriber summarizer: ", "", "", code, suffix.as_str())))
    } else if 500 <= code && code < 600 {
        Err(KagiError::Network(status_message_text("Kagi subscriber summarizer server error: ", "", "", code, suffix.as_str())))
    } else {
        Err(KagiError::Network(status_message_text("unexpected Kagi subscriber summarizer response status: ", "", "", code, suffix.as_str())))
    }
}

/// The answer to the export of Assistant thread `thread_id`: a 200 body is
/// the thread's Markdown unless it is an HTML document (an `Auth` error);
/// 401/403 is an `Auth` error; other 4xx a `Config` rejection; 5xx a
/// `Network` server error; anything else a `Network` error.
pub open spec fn assistant_export_outcome(thread_id: Seq<char>, code: u16, body: Seq<char>) -> Outcome {
    let suffix = client_error_suffix(body);
    if code == 200 {
        if looks_like_html(body) {
            Err((ErrorKind::Auth, "invalid or expired Kagi session token"@))
        } else {
            Ok(body)
        }
    } else if is_auth_status(code) {
        Err((ErrorKind::Auth, status_message("Assistant export (thread "@, thread_id, "): invalid or expired Kagi session token: "@, code, suffix)))
    } else if is_client_error(code) {
        Err((ErrorKind::Config, status_message("Kagi Assistant export request rejected: "@, seq![], seq![], code, suffix)))
    } else if is_server_error(code) {
        Err((ErrorKind::Network, status_message("Assistant export (thread "@, thread_id, "): Kagi server error: "@, code, suffix)))
    } else {
        Err((ErrorKind::Network, status_message("Assistant export (thread "@, thread_id, "): unexpected response status: "@, code, suffix)))
    }
}

/// Reads the answer to an Assistant thread export.
pub fn read_assistant_export_response(thread_id: &str, code: u16, body: &str) -> (r: Result<String, KagiError>)
    requires
        100 <= code <= 999,
    ensures
        outcome_is(r, assistant_export_outcome(thread_id@, code, body@)),
{
    if code == 200 {
        if looks_like_html_document(body) {
            return Err(KagiError::Auth("invalid or expired Kagi session token".to_owned()));
        }
        return Ok(body.to_owned());
    }
    let suffix = format_client_error_suffix(body);
    proof {
        reveal_strlit("");
        assert(""@ =~= Seq::<char>::empty());
    }
    if code == 401 || code == 403 {
        Err(KagiError::Auth(status_message_text("Assistant export (thread ", thread_id, "): invalid or expired Kagi session token: ", code, suffix.as_str())))
    } else if 400 <= code && code < 500 {
        Err(KagiError::Config(status_message_text("Kagi Assistant export request rejected: ", "", "", code, suffix.as_str())))
    } else if 500 <= code && code < 600 {
        Err(KagiError::Network(status_message_text("Assistant export (thread ", thread_id, "): Kagi server error: ", code, suffix.as_str())))
    } else {
        Err(KagiError::Network(status_message_text("Assistant export (thread ", thread_id, "): unexpected response status: ", code, suffix.as_str())))
    }
}

/// The answer to the Small Web feed: a 200 body is the feed; 5xx is a
/// `Network` server error and anything else a `Network` error.
pub open spec fn smallweb_outcome(code: u16, body: Seq<char>) -> Outcome {
    let suffix = client_error_suffix(body);
    if code == 200 {
        Ok(body)
    } else if is_server_error(code) {
        Err((ErrorKind::Network, status_message("Kagi Small Web feed server error: "@, seq![], seq![], code, suffix)))
    } else {
        Err((ErrorKind::Network, status_message("unexpected Kagi Small Web feed status: "@, seq![], seq![], code, suffix)))
    }
}

/// Reads the answer to the Small Web feed.
pub fn read_smallweb_response(code: u16, body: &str) -> (r: Result<String, KagiError>)
    requires
        100 <= code <= 999,
    ensures
        outcome_is(r, smallweb_outcome(code, body@)),
{
    if code == 200 {
        return Ok(body.to_owned());
    }
    let suffix = format_client_error_suffix(body);
    proof {
        reveal_strlit("");
        assert(""@ =~= Seq::<char>::empty());
    }
    if 500 <= code && code < 600 {
        Err(KagiError::Network(status_message_text("Kagi Small Web feed server error: ", "", "", code, suffix.as_str())))
    } else {
        Err(KagiError::Network(status_message_text("unexpected Kagi Small Web feed status: ", "", "", code, suffix.as_str())))
    }
}

/// ASCII lowercase of every character of `s`.
pub open spec fn ascii_lowercase(s: Seq<char>) -> Seq<char> {
    s.map_values(|c: char| crate::text::ascii_lower(c))
}

/// The suffix of an Assistant stream server error: nothing for a blank
/// body; for an HTML body, a hint about the thread id when the surface
/// names a thread, else the page's text (unless empty); otherwise the
/// general diagnostic suffix.
pub open spec fn assistant_server_error_suffix(surface: Seq<char>, body: Seq<char>) -> Seq<char> {
    if trim_ws(body).len() == 0 {
        seq![]
    } else if looks_like_html(body) {
        if crate::text::contains_seq(ascii_lowercase(surface), "thread"@) {
            "; the thread id may be invalid or no longer available"@
        } else if crate::http::html_to_text(body).len() == 0 {
            seq![]
        } else {
            "; "@ + crate::http::html_to_text(body)
        }
    } else {
        client_error_suffix(body)
    }
}

/// The answer to an Assistant stream request for `surface`: a 200 body is
/// the stream unless it is an HTML document (an `Auth` error); 401/403 is an
/// `Auth` error; other 4xx a `Config` rejection; 5xx a `Network` server
/// error; anything else a `Network` error with no body suffix.
pub open spec fn assistant_stream_outcome(surface: Seq<char>, code: u16, body: Seq<char>) -> Outcome {
    let suffix = client_error_suffix(body);
    if code == 200 {
        if looks_like_html(body) {
            Err((ErrorKind::Auth, "invalid or expired Kagi session token"@))
        } else {
            Ok(body)
        }
    } else if is_auth_status(code) {
        Err((ErrorKind::Auth, status_message("invalid or expired Kagi session token for "@, surface, ": "@, code, suffix)))
    } else if is_client_error(code) {
        Err((ErrorKind::Config, status_message("Kagi "@, surface, " request rejected: "@, code, suffix)))
    } else if is_server_error(code) {
        Err((ErrorKind::Network, status_message("Kagi "@, surface, " server error: "@, code, assistant_server_error_suffix(surface, body))))
    } else {
        Err((ErrorKind::Network, status_message("unexpected Kagi "@, surface, " response status: "@, code, seq![])))
    }
}

/// The ASCII lowercase of a string.
fn to_ascii_lowercase(s: &str) -> (r: String)
    ensures
        r@ == ascii_lowercase(s@),
{
    let v = crate::text::chars_of(s);
    let mut out = String::new();
    let mut i: usize = 0;
    while i < v.len()
        invariant
            v@ == s@,
            i <= v.len(),
            out@ =~= ascii_lowercase(s@).take(i as int),
        decreases v.len() - i,
    {
        out.push(crate::text::char_ascii_lower(v[i]));
        i = i + 1;
    }
    assert(ascii_lowercase(s@).take(v.len() as int) =~= ascii_lowercase(s@));
    out
}

/// Reads the answer to an Assistant stream request.
pub fn read_assistant_stream_response(surface: &str, code: u16, body: &str) -> (r: Result<String, KagiError>)
    requires
        100 <= code <= 999,
    ensures
        outcome_is(r, assistant_stream_outcome(surface@, code, body@)),
{
    if code == 200 {
        if looks_like_html_document(body) {
            return Err(KagiError::Auth("invalid or expired Kagi session token".to_owned()));
        }
        return Ok(body.to_owned());
    }
    proof {
        reveal_strlit("");
        assert(""@ =~= Seq::<char>::empty());
    }
    if code == 401 || code == 403 {
        let suffix = format_client_error_suffix(body);
        Err(KagiError::Auth(status_message_text("invalid or expired Kagi session token for ", surface, ": ", code, suffix.as_str())))
    } else if 400 <= code && code < 500 {
        let suffix = format_client_error_suffix(body);
        Err(KagiError::Config(status_message_text("Kagi ", surface, " request rejected: ", code, suffix.as_str())))
    } else if 500 <= code && code < 600 {
        let suffix = if crate::text::blank(body) {
            String::new()
        } else if looks_like_html_document(body) {
            let stripped = crate::http::strip_html_to_text(body);
            let lowered = to_ascii_lowercase(surface);
            if crate::text::str_contains(lowered.as_str(), "thread") {
                "; the thread id may be invalid or no longer available".to_owned()
            } else if stripped.as_str().is_empty() {
                String::new()
            } else {
                crate::text::concat("; ", stripped.as_str())
            }
        } else {
            format_client_error_suffix(body)
        };
        Err(KagiError::Network(status_message_text("Kagi ", surface, " server error: ", code, suffix.as_str())))
    } else {
        Err(KagiError::Network(status_message_text("unexpected Kagi ", surface, " response status: ", code, "")))
    }
}

/// The metadata of an answer of the Kagi API.
#[derive(Debug, Clone)]
pub struct ApiMeta {
    pub id: String,
    pub node: Option<String>,
    pub ms: Option<u64>,
}

/// An answer of the Kagi API: its metadata and its data.
#[derive(Debug, Clone)]
pub struct KagiEnvelope<T> {
    pub meta: ApiMeta,
    pub data: T,
}

/// Checks that an API token was given, for the calls of the Kagi API.
///
/// # Errors
/// An authentication error for a blank token.
pub fn require_api_token(token: &str) -> (r: Result<(), KagiError>)
    ensures
        crate::text::is_blank(token@) ==> fails_with(
            r,
            ErrorKind::Auth,
            "missing Kagi API token (expected KAGI_API_TOKEN)"@,
        ),
        !crate::text::is_blank(token@) ==> r is Ok,
{
    if crate::text::blank(token) {
        return Err(KagiError::Auth("missing Kagi API token (expected KAGI_API_TOKEN)".to_owned()));
    }
    Ok(())
}

/// Checks that a session token was given, for the calls of Kagi's web app.
///
/// # Errors
/// An authentication error for a blank token.
pub fn require_session_token(token: &str) -> (r: Result<(), KagiError>)
    ensures
        crate::text::is_blank(token@) ==> fails_with(
            r,
            ErrorKind::Auth,
            "missing Kagi session token (expected KAGI_SESSION_TOKEN)"@,
        ),
        !crate::text::is_blank(token@) ==> r is Ok,
{
    if crate::text::blank(token) {
        return Err(
            KagiError::Auth("missing Kagi session token (expected KAGI_SESSION_TOKEN)".to_owned()),
        );
    }
    Ok(())
}

} // verus!
