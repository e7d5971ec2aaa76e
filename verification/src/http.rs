//! URLs of the Kagi services and the diagnostics attached to failed HTTP answers.
use vstd::prelude::*;

use crate::text::{
    collapse_whitespace, collapse_ws, concat, contains_seq, is_blank, opt_str_view, opt_view,
    starts_with, str_contains, str_starts_with, trim_end_char, trim_end_matches_char, trim_ws,
    trimmed, truncate_chars, truncate_with_ellipsis,
};

verus! {

/// The default base URL of the main Kagi service.
pub const DEFAULT_KAGI_BASE_URL: &'static str = "https://kagi.com";

/// The default base URL of Kagi News.
pub const DEFAULT_KAGI_NEWS_BASE_URL: &'static str = "https://news.kagi.com";

/// The default base URL of Kagi Translate.
pub const DEFAULT_KAGI_TRANSLATE_BASE_URL: &'static str = "https://translate.kagi.com";

/// The environment variable that overrides the main Kagi base URL.
pub const KAGI_BASE_URL_ENV: &'static str = "KAGI_BASE_URL";

/// The environment variable that overrides the Kagi News base URL.
pub const KAGI_NEWS_BASE_URL_ENV: &'static str = "KAGI_NEWS_BASE_URL";

/// The environment variable that overrides the Kagi Translate base URL.
pub const KAGI_TRANSLATE_BASE_URL_ENV: &'static str = "KAGI_TRANSLATE_BASE_URL";

/// The base URL in use: the override, trimmed and without trailing slashes,
/// unless that leaves nothing, in which case the default.
pub open spec fn effective_base(override_value: Option<Seq<char>>, default: Seq<char>) -> Seq<
    char,
> {
    match override_value {
        Some(v) => if trim_end_char(trim_ws(v), '/').len() > 0 {
            trim_end_char(trim_ws(v), '/')
        } else {
            default
        },
        None => default,
    }
}

/// `path` is already an absolute `http://` or `https://` URL.
pub open spec fn is_absolute_url(path: Seq<char>) -> bool {
    starts_with(path, "http://"@) || starts_with(path, "https://"@)
}

/// The URL of `path` on the service at `base`: absolute URLs unchanged,
/// otherwise the base without trailing slashes joined to the path by exactly
/// one `/` when the path does not start with one.
pub open spec fn joined_url(base: Seq<char>, path: Seq<char>) -> Seq<char> {
    if is_absolute_url(path) {
        path
    } else if path.len() > 0 && path[0] == '/' {
        trim_end_char(base, '/') + path
    } else {
        trim_end_char(base, '/') + "/"@ + path
    }
}

/// The base URL of a service given the value of its override variable.
pub fn base_url_from_env(override_value: Option<&str>, default: &str) -> (r: String)
    ensures
        r@ == effective_base(opt_str_view(override_value), default@),
{
    match override_value {
        Some(v) => {
            let t = trimmed(v);
            let u = trim_end_matches_char(t.as_str(), '/');
            if u.as_str().is_empty() {
                default.to_owned()
            } else {
                u
            }
        },
        None => default.to_owned(),
    }
}

/// The URL of `path` on the service at `base`.
pub fn build_url(base: &str, path: &str) -> (r: String)
    ensures
        r@ == joined_url(base@, path@),
{
    if str_starts_with(path, "http://") || str_starts_with(path, "https://") {
        return path.to_owned();
    }
    let b = trim_end_matches_char(base, '/');
    proof {
        reveal_strlit("/");
        assert("/"@ =~= seq!['/']);
        if path@.len() > 0 {
            assert(path@.subrange(0, 1) =~= seq![path@[0]]);
            if path@[0] == '/' {
                assert(path@.subrange(0, 1) =~= "/"@);
            }
            if path@.subrange(0, 1) == "/"@ {
                assert(path@.subrange(0, 1)[0] == '/');
            }
        }
        assert(starts_with(path@, "/"@) == (path@.len() > 0 && path@[0] == '/'));
    }
    if str_starts_with(path, "/") {
        concat(b.as_str(), path)
    } else {
        crate::text::concat3(b.as_str(), "/", path)
    }
}

/// Builds a full Kagi URL from a path; `base_override` is the value of
/// `KAGI_BASE_URL`, when set. Absolute URLs are returned unchanged.
pub fn kagi_url(base_override: Option<&str>, path: &str) -> (r: String)
    ensures
        r@ == joined_url(effective_base(opt_str_view(base_override), DEFAULT_KAGI_BASE_URL@), path@),
{
    let base = base_url_from_env(base_override, DEFAULT_KAGI_BASE_URL);
    build_url(base.as_str(), path)
}

/// Builds a full Kagi News URL from a path; `base_override` is the value of
/// `KAGI_NEWS_BASE_URL`, when set. Absolute URLs are returned unchanged.
pub fn kagi_news_url(base_override: Option<&str>, path: &str) -> (r: String)
    ensures
        r@ == joined_url(
            effective_base(opt_str_view(base_override), DEFAULT_KAGI_NEWS_BASE_URL@),
            path@,
        ),
{
    let base = base_url_from_env(base_override, DEFAULT_KAGI_NEWS_BASE_URL);
    build_url(base.as_str(), path)
}

/// Builds a full Kagi Translate URL from a path; `base_override` is the value
/// of `KAGI_TRANSLATE_BASE_URL`, when set. Absolute URLs are returned unchanged.
pub fn kagi_translate_url(base_override: Option<&str>, path: &str) -> (r: String)
    ensures
        r@ == joined_url(
            effective_base(opt_str_view(base_override), DEFAULT_KAGI_TRANSLATE_BASE_URL@),
            path@,
        ),
{
    let base = base_url_from_env(base_override, DEFAULT_KAGI_TRANSLATE_BASE_URL);
    build_url(base.as_str(), path)
}

/// The response-body suffix of an HTTP status error: nothing for a blank
/// body, else `"; response body: "` and the body's words joined by single
/// spaces, cut after 500 characters (with `"..."`).
pub open spec fn body_suffix(body: Seq<char>) -> Seq<char> {
    if is_blank(body) {
        seq![]
    } else {
        "; response body: "@ + truncate_chars(collapse_ws(trim_ws(body)), 500)
    }
}

/// Formats a response-body diagnostic suffix for HTTP status errors.
///
/// The suffix is intentionally short so a failed CLI command remains
/// readable, while still preserving the server's most useful diagnostic text.
pub fn error_body_suffix(body: &str) -> (r: String)
    ensures
        r@ == body_suffix(body@),
{
    let t = trimmed(body);
    if t.as_str().is_empty() {
        return String::new();
    }
    let normalized = collapse_whitespace(t.as_str());
    let detail = truncate_with_ellipsis(normalized.as_str(), 500);
    concat("; response body: ", detail.as_str())
}

/// The suffix of a failed answer holds the body's whitespace-separated words
/// joined by single spaces, cut after 500 characters (with `"..."`), and is
/// empty when the body has no word.
pub proof fn law_error_body_suffix_words(body: Seq<char>)
    ensures
        body_suffix(body) == if crate::text::words(body).len() == 0 {
            Seq::<char>::empty()
        } else {
            "; response body: "@ + truncate_chars(
                crate::text::join_with(crate::text::words(body), " "@),
                500,
            )
        },
{
    crate::text::lemma_collapse_of_trimmed(body);
}

/// Relative paths are joined to the base; absolute URLs are returned unchanged.
pub proof fn law_absolute_urls_unchanged(base: Seq<char>, path: Seq<char>)
    requires
        is_absolute_url(path),
    ensures
        joined_url(base, path) == path,
{
}

/// The canonical reason phrase of an HTTP status code, as
/// `http::StatusCode::canonical_reason` (re-exported by `reqwest`) gives it.
pub uninterp spec fn http_reason_phrase(code: u16) -> Option<Seq<char>>;

/// Calls `reqwest::StatusCode::from_u16` and `canonical_reason`; the result
/// is the registered reason phrase of the code, when it has one. Nothing
/// more is claimed of the phrase than that it depends on the code alone.
#[verifier::external_body]
fn canonical_reason(code: u16) -> (r: Option<String>)
    requires
        100 <= code <= 999,
    ensures
        opt_view(r) == http_reason_phrase(code),
{
    match reqwest::StatusCode::from_u16(code) {
        Ok(status) => match status.canonical_reason() {
            Some(reason) => Some(reason.to_string()),
            None => None,
        },
        Err(_) => None,
    }
}

/// The decimal digit `d` as a character.
pub open spec fn digit_char(d: int) -> char {
    (48 + d) as char
}

/// The three decimal digits of a status code.
pub open spec fn status_digits(code: u16) -> Seq<char> {
    seq![digit_char((code / 100) as int), digit_char(((code / 10) % 10) as int), digit_char((code % 10) as int)]
}

/// How a status code is displayed: its digits, a space, and its reason
/// phrase (or `<unknown status code>`).
pub open spec fn status_text(code: u16) -> Seq<char> {
    status_digits(code) + " "@ + match http_reason_phrase(code) {
        Some(r) => r,
        None => "<unknown status code>"@,
    }
}

fn digit(d: u16) -> (c: char)
    requires
        d < 10,
    ensures
        c == digit_char(d as int),
{
    let b: u8 = 48 + (d as u8);
    b as char
}

/// The display form of a status code (`"404 Not Found"`).
pub fn status_display(code: u16) -> (s: String)
    requires
        100 <= code <= 999,
    ensures
        s@ == status_text(code),
{
    let mut s = String::new();
    s.push(digit(code / 100));
    s.push(digit((code / 10) % 10));
    s.push(digit(code % 10));
    s.append(" ");
    match canonical_reason(code) {
        Some(r) => s.append(r.as_str()),
        None => s.append("<unknown status code>"),
    }
    assert(s@ =~= status_text(code));
    s
}

/// The body looks like an HTML document.
pub open spec fn looks_like_html(body: Seq<char>) -> bool {
    contains_seq(body, "<!DOCTYPE html"@) || contains_seq(body, "<html"@)
}

/// Whether a body looks like an HTML document.
pub fn looks_like_html_document(body: &str) -> (b: bool)
    ensures
        b == looks_like_html(body@),
{
    str_contains(body, "<!DOCTYPE html") || str_contains(body, "<html")
}

/// What `serde_json` makes of a text read as a JSON value and written back
/// in compact form, or `None` when the text is not JSON.
pub uninterp spec fn json_compact_form(text: Seq<char>) -> Option<Seq<char>>;

/// Calls `serde_json::from_str::<serde_json::Value>` and, on success, the
/// value's `to_string`; the result depends on the text alone. What the
/// compact form looks like is not stated.
#[verifier::external_body]
fn reformat_json(text: &str) -> (r: Option<String>)
    ensures
        opt_view(r) == json_compact_form(text@),
{
    match serde_json::from_str::<serde_json::Value>(text) {
        Ok(value) => Some(value.to_string()),
        Err(_) => None,
    }
}

/// The text nodes of an HTML fragment, in document order, as `scraper`
/// parses it.
pub uninterp spec fn html_text_nodes(html: Seq<char>) -> Seq<Seq<char>>;

/// Calls `scraper::Html::parse_fragment` and collects the text of its root
/// element, node by node; the result depends on the HTML alone. Which nodes
/// the parser finds is not stated.
#[verifier::external_body]
fn fragment_text_nodes(html: &str) -> (r: Vec<String>)
    ensures
        crate::text::string_views(r@) == html_text_nodes(html@),
{
    scraper::Html::parse_fragment(html).root_element().text().map(|t| t.to_string()).collect()
}

/// `parts` joined by single spaces.
pub open spec fn join_space(parts: Seq<Seq<char>>) -> Seq<char> {
    crate::text::join_with(parts, " "@)
}

/// The words of the text of an HTML fragment, joined by single spaces.
pub open spec fn html_to_text(html: Seq<char>) -> Seq<char> {
    collapse_ws(join_space(html_text_nodes(html)))
}

/// The text of an HTML fragment, whitespace-normalized.
pub fn strip_html_to_text(html: &str) -> (r: String)
    ensures
        r@ == html_to_text(html@),
{
    let nodes = fragment_text_nodes(html);
    let joined = crate::text::join_strings(&nodes, " ");
    collapse_whitespace(joined.as_str())
}

/// `detail` cut after 500 characters (with `"..."`).
pub fn truncate_error_detail(detail: &str) -> (r: String)
    ensures
        r@ == truncate_chars(detail@, 500),
{
    truncate_with_ellipsis(detail, 500)
}

/// The diagnostic suffix of a failed request: nothing for a blank body; for
/// a JSON body, `"; "` and its compact form; otherwise `"; "` and the body's
/// text (the text of the HTML for an HTML document, the words of the body
/// otherwise), unless that is empty. The detail is cut after 500 characters.
pub open spec fn client_error_suffix(body: Seq<char>) -> Seq<char> {
    let t = trim_ws(body);
    if t.len() == 0 {
        seq![]
    } else {
        match json_compact_form(t) {
            Some(j) => "; "@ + truncate_chars(j, 500),
            None => {
                let detail = if looks_like_html(t) {
                    html_to_text(t)
                } else {
                    collapse_ws(t)
                };
                if detail.len() == 0 {
                    seq![]
                } else {
                    "; "@ + truncate_chars(detail, 500)
                }
            },
        }
    }
}

/// Formats the diagnostic suffix of a failed request from its body.
pub fn format_client_error_suffix(body: &str) -> (r: String)
    ensures
        r@ == client_error_suffix(body@),
{
    let t = trimmed(body);
    if t.as_str().is_empty() {
        return String::new();
    }
    if let Some(j) = reformat_json(t.as_str()) {
        let d = truncate_error_detail(j.as_str());
        return concat("; ", d.as_str());
    }
    let detail = if looks_like_html_document(t.as_str()) {
        strip_html_to_text(t.as_str())
    } else {
        collapse_whitespace(t.as_str())
    };
    if detail.as_str().is_empty() {
        String::new()
    } else {
        let d = truncate_error_detail(detail.as_str());
        concat("; ", d.as_str())
    }
}

} // verus!
