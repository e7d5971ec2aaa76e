//! Kagi Assistant: prompts, threads, attachments and Ask Page.
//!
//! This module checks what the user hands the Assistant (query, thread id,
//! attachments, page URL and question), builds the state a prompt is sent
//! with, and reads the file name of an exported thread.
use vstd::prelude::*;

use crate::error::{fails_with, ErrorKind, KagiError};
use crate::search::as_opt_str;
use crate::text::{
    blank, chars_of, concat, concat3, is_blank, opt_str_view, opt_view, split_char,
    split_on_char, starts_with, str_equal, str_starts_with, string_of_range, string_views,
    trim_end_char, trim_end_matches_char, trim_start_char, trim_start_matches_char, trim_ws,
    trimmed, trimmed_nonblank, trimmed_optional,
};

verus! {

/// The branch id of a thread's main branch.
pub const ASSISTANT_ZERO_BRANCH_UUID: &'static str = "00000000-0000-4000-0000-000000000000";

/// The query of a prompt, trimmed, or why it is refused.
pub open spec fn assistant_query(raw: Seq<char>) -> Result<Seq<char>, Seq<char>> {
    if is_blank(raw) {
        Err("assistant query cannot be empty"@)
    } else {
        Ok(trim_ws(raw))
    }
}

/// Trims the query of a prompt.
///
/// # Errors
/// A configuration error when the query is blank.
pub fn normalize_assistant_query(raw: &str) -> (r: Result<String, KagiError>)
    ensures
        match assistant_query(raw@) {
            Ok(q) => r matches Ok(s) && s@ == q,
            Err(m) => fails_with(r, ErrorKind::Config, m),
        },
{
    if blank(raw) {
        return Err(KagiError::Config("assistant query cannot be empty".to_owned()));
    }
    Ok(trimmed(raw))
}

/// Trims an optional thread id; no id stays none.
///
/// # Errors
/// A configuration error when an id is given but blank.
pub fn normalize_assistant_thread_id(raw: Option<&str>) -> (r: Result<Option<String>, KagiError>)
    ensures
        match raw {
            None => r == Ok::<Option<String>, KagiError>(None),
            Some(v) => if is_blank(v@) {
                fails_with(r, ErrorKind::Config, "assistant thread id cannot be empty"@)
            } else {
                r matches Ok(Some(t)) && t@ == trim_ws(v@)
            },
        },
{
    match raw {
        None => Ok(None),
        Some(v) => {
            if blank(v) {
                return Err(KagiError::Config("assistant thread id cannot be empty".to_owned()));
            }
            Ok(Some(trimmed(v)))
        },
    }
}

/// The thread id an operation on one thread needs, trimmed.
///
/// # Errors
/// A configuration error when the id is blank.
pub fn require_assistant_thread_id(raw: &str) -> (r: Result<String, KagiError>)
    ensures
        is_blank(raw@) ==> fails_with(r, ErrorKind::Config, "assistant thread id cannot be empty"@),
        !is_blank(raw@) ==> (r matches Ok(t) && t@ == trim_ws(raw@)),
{
    match normalize_assistant_thread_id(Some(raw))? {
        Some(t) => Ok(t),
        None => Err(KagiError::Config("assistant thread id cannot be empty".to_owned())),
    }
}

/// A prompt to the Assistant.
#[derive(Debug, Clone)]
pub struct AssistantPromptRequest {
    /// What is asked.
    pub query: String,
    /// The thread to continue, if any.
    pub thread_id: Option<String>,
    /// Paths of files to attach.
    pub attachments: Vec<String>,
    /// The assistant profile to use.
    pub profile_id: Option<String>,
    /// The model to use.
    pub model: Option<String>,
    /// The lens to search with.
    pub lens_id: Option<u64>,
    /// Whether the assistant may search the web.
    pub internet_access: Option<bool>,
    /// Whether personalizations apply.
    pub personalizations: Option<bool>,
}

/// The profile part of a prompt: only what was given (ids trimmed, blank ones left out).
#[derive(Debug, Clone)]
pub struct AssistantProfileChoice {
    pub id: Option<String>,
    pub model: Option<String>,
    pub lens_id: Option<u64>,
    pub internet_access: Option<bool>,
    pub personalizations: Option<bool>,
}

/// The state a prompt is sent with: the focus (thread, main branch, prompt)
/// and the profile.
#[derive(Debug, Clone)]
pub struct AssistantPromptState {
    pub thread_id: Option<String>,
    pub branch_id: &'static str,
    pub prompt: String,
    pub profile: AssistantProfileChoice,
}

/// Builds the state of a prompt: the query and the thread id are checked and
/// trimmed, the profile id and model trimmed and left out when blank, the
/// other profile options passed on as given; the branch is the main branch.
///
/// # Errors
/// The error of [`normalize_assistant_query`], else that of
/// [`normalize_assistant_thread_id`].
pub fn build_assistant_prompt_state(request: &AssistantPromptRequest) -> (r: Result<
    AssistantPromptState,
    KagiError,
>)
    ensures
        match assistant_query(request.query@) {
            Err(m) => fails_with(r, ErrorKind::Config, m),
            Ok(q) => match request.thread_id {
                Some(t) if is_blank(t@) => fails_with(
                    r,
                    ErrorKind::Config,
                    "assistant thread id cannot be empty"@,
                ),
                _ => r matches Ok(st) && st.prompt@ == q && opt_view(st.thread_id) == match request.thread_id {
                    Some(t) => Some(trim_ws(t@)),
                    None => None,
                } && st.branch_id@ == ASSISTANT_ZERO_BRANCH_UUID@ && opt_view(st.profile.id)
                    == trimmed_nonblank(opt_view(request.profile_id)) && opt_view(st.profile.model)
                    == trimmed_nonblank(opt_view(request.model)) && st.profile.lens_id
                    == request.lens_id && st.profile.internet_access == request.internet_access
                    && st.profile.personalizations == request.personalizations,
            },
        },
{
    let prompt = normalize_assistant_query(request.query.as_str())?;
    let thread_id = normalize_assistant_thread_id(as_opt_str(&request.thread_id))?;
    let profile = AssistantProfileChoice {
        id: trimmed_optional(as_opt_str(&request.profile_id)),
        model: trimmed_optional(as_opt_str(&request.model)),
        lens_id: request.lens_id,
        internet_access: request.internet_access,
        personalizations: request.personalizations,
    };
    Ok(AssistantPromptState { thread_id, branch_id: ASSISTANT_ZERO_BRANCH_UUID, prompt, profile })
}

/// The media type `mime_guess` gives a path, by its extension, as a bare
/// `type/subtype`.
pub uninterp spec fn guessed_media_type(path: Seq<char>) -> Seq<char>;

/// Calls `mime_guess::from_path(path).first_or_octet_stream()` and returns
/// the essence of that type (without parameters). The guess depends on the
/// path alone; which type each extension maps to is not stated.
#[verifier::external_body]
fn media_type_of_path(path: &str) -> (r: String)
    ensures
        r@ == guessed_media_type(path@),
{
    mime_guess::from_path(path).first_or_octet_stream().essence_str().to_string()
}

/// What is sent of an attachment besides its bytes.
#[derive(Debug, Clone)]
pub struct AssistantAttachmentMeta {
    pub filename: String,
    pub content_type: String,
}

/// Describes an attachment: its file name, trimmed, and the media type its
/// path suggests. `display` is how the path is shown, `file_name` the last
/// component of the path as text, if it has one.
///
/// # Errors
/// A configuration error when the path has no file name or a blank one.
pub fn describe_assistant_attachment(path: &str, display: &str, file_name: Option<&str>) -> (r:
    Result<AssistantAttachmentMeta, KagiError>)
    ensures
        match trimmed_nonblank(opt_str_view(file_name)) {
            None => fails_with(
                r,
                ErrorKind::Config,
                "assistant attachment '"@ + display@ + "' must include a file name"@,
            ),
            Some(n) => r matches Ok(m) && m.filename@ == n && m.content_type@
                == guessed_media_type(path@),
        },
{
    match trimmed_optional(file_name) {
        None => Err(
            KagiError::Config(concat3("assistant attachment '", display, "' must include a file name")),
        ),
        Some(filename) => Ok(
            AssistantAttachmentMeta { filename, content_type: media_type_of_path(path) },
        ),
    }
}

/// What `url::Url::parse` (re-exported by `reqwest`) makes of a text: the
/// scheme and the serialized URL, or the parse error's message.
pub uninterp spec fn url_parse(text: Seq<char>) -> Result<(Seq<char>, Seq<char>), Seq<char>>;

/// Calls `reqwest::Url::parse`; on success returns the URL's scheme and its
/// serialization, on failure the error's message. The result depends on the
/// text alone; what the parser accepts is not stated.
#[verifier::external_body]
fn parse_url(text: &str) -> (r: Result<(String, String), String>)
    ensures
        match r {
            Ok((scheme, serialized)) => url_parse(text@) == Ok::<
                (Seq<char>, Seq<char>),
                Seq<char>,
            >((scheme@, serialized@)),
            Err(e) => url_parse(text@) == Err::<(Seq<char>, Seq<char>), Seq<char>>(e@),
        },
{
    match reqwest::Url::parse(text) {
        Ok(url) => Ok((url.scheme().to_string(), url.to_string())),
        Err(error) => Err(error.to_string()),
    }
}

/// The page URL Ask Page uses, given what the URL parser made of it.
pub open spec fn ask_page_url(parsed: Result<(Seq<char>, Seq<char>), Seq<char>>) -> Result<
    Seq<char>,
    Seq<char>,
> {
    match parsed {
        Err(e) => Err("invalid ask-page URL: "@ + e),
        Ok((scheme, serialized)) => if scheme == "http"@ || scheme == "https"@ {
            Ok(serialized)
        } else {
            Err("ask-page URL must use http or https, got `"@ + scheme + "`"@)
        },
    }
}

/// Accepts a parsed page URL when its scheme is `http` or `https`, in its
/// serialized form.
///
/// # Errors
/// A configuration error carrying the parse error, or naming the scheme.
pub fn ask_page_url_from_parse(parsed: Result<(String, String), String>) -> (r: Result<
    String,
    KagiError,
>)
    ensures
        match ask_page_url(
            match parsed {
                Ok((s, u)) => Ok((s@, u@)),
                Err(e) => Err(e@),
            },
        ) {
            Ok(u) => r matches Ok(x) && x@ == u,
            Err(m) => fails_with(r, ErrorKind::Config, m),
        },
{
    match parsed {
        Err(e) => Err(KagiError::Config(concat("invalid ask-page URL: ", e.as_str()))),
        Ok((scheme, serialized)) => {
            if str_equal(scheme.as_str(), "http") || str_equal(scheme.as_str(), "https") {
                Ok(serialized)
            } else {
                Err(
                    KagiError::Config(
                        concat3("ask-page URL must use http or https, got `", scheme.as_str(), "`"),
                    ),
                )
            }
        },
    }
}

/// Checks the page URL of Ask Page: trimmed, not empty, parsed as a URL with
/// an `http` or `https` scheme; the result is the URL in normalized form.
///
/// # Errors
/// A configuration error for a blank URL, else as [`ask_page_url_from_parse`].
pub fn normalize_ask_page_url(raw: &str) -> (r: Result<String, KagiError>)
    ensures
        is_blank(raw@) ==> fails_with(r, ErrorKind::Config, "ask-page URL cannot be empty"@),
        !is_blank(raw@) ==> match ask_page_url(url_parse(trim_ws(raw@))) {
            Ok(u) => r matches Ok(x) && x@ == u,
            Err(m) => fails_with(r, ErrorKind::Config, m),
        },
{
    if blank(raw) {
        return Err(KagiError::Config("ask-page URL cannot be empty".to_owned()));
    }
    let t = trimmed(raw);
    let parsed = parse_url(t.as_str());
    ask_page_url_from_parse(parsed)
}

/// Trims the question of Ask Page.
///
/// # Errors
/// A configuration error when the question is blank.
pub fn normalize_ask_page_question(raw: &str) -> (r: Result<String, KagiError>)
    ensures
        is_blank(raw@) ==> fails_with(r, ErrorKind::Config, "ask-page question cannot be empty"@),
        !is_blank(raw@) ==> (r matches Ok(q) && q@ == trim_ws(raw@)),
{
    if blank(raw) {
        return Err(KagiError::Config("ask-page question cannot be empty".to_owned()));
    }
    Ok(trimmed(raw))
}

/// The prompt Ask Page sends: the page URL, a newline, the question.
pub fn build_ask_page_prompt(url: &str, question: &str) -> (r: String)
    ensures
        r@ == url@ + "\n"@ + question@,
{
    concat3(url, "\n", question)
}

/// The query pairs of a URL, as `url::Url::query_pairs` decodes them, or
/// none when the text does not parse as a URL.
pub uninterp spec fn url_query_pairs(text: Seq<char>) -> Option<Seq<(Seq<char>, Seq<char>)>>;

/// Calls `reqwest::Url::parse` and, on success, collects its decoded query
/// pairs in order; the result depends on the text alone. How pairs are
/// decoded is not stated.
#[verifier::external_body]
fn query_pairs_of(text: &str) -> (r: Option<Vec<(String, String)>>)
    ensures
        match r {
            None => url_query_pairs(text@) is None,
            Some(v) => url_query_pairs(text@) == Some(
                v@.map_values(|p: (String, String)| (p.0@, p.1@)),
            ),
        },
{
    match reqwest::Url::parse(text) {
        Ok(url) => Some(url.query_pairs().map(|(k, v)| (k.into_owned(), v.into_owned())).collect()),
        Err(_) => None,
    }
}

/// The value of the first pair named `key`.
pub open spec fn first_value_for(pairs: Seq<(Seq<char>, Seq<char>)>, key: Seq<char>) -> Option<
    Seq<char>,
>
    decreases pairs.len(),
{
    if pairs.len() == 0 {
        None
    } else if pairs[0].0 == key {
        Some(pairs[0].1)
    } else {
        first_value_for(pairs.drop_first(), key)
    }
}

/// The prefix of an RFC 5987 UTF-8 file name parameter.
pub open spec fn encoded_filename_prefix() -> Seq<char> {
    "filename*=utf-8''"@
}

/// The file name a `Content-Disposition` header gives, read segment by
/// segment: the first `filename*=utf-8''` (percent-decoded) or `filename=`
/// (without surrounding quotes) decides.
pub open spec fn disposition_filename(segments: Seq<Seq<char>>) -> Option<Seq<char>>
    decreases segments.len(),
{
    if segments.len() == 0 {
        None
    } else {
        let seg = trim_ws(segments[0]);
        if starts_with(seg, encoded_filename_prefix()) {
            match url_query_pairs(
                "https://example.com/?filename="@ + seg.skip(encoded_filename_prefix().len() as int),
            ) {
                None => None,
                Some(pairs) => first_value_for(pairs, "filename"@),
            }
        } else if starts_with(seg, "filename="@) {
            Some(trim_end_char(trim_start_char(seg.skip("filename="@.len() as int), '"'), '"'))
        } else {
            disposition_filename(segments.drop_first())
        }
    }
}

/// The value of the first pair named `key`.
fn first_value(pairs: &Vec<(String, String)>, key: &str) -> (r: Option<String>)
    ensures
        opt_view(r) == first_value_for(pairs@.map_values(|p: (String, String)| (p.0@, p.1@)), key@),
{
    let ghost views = pairs@.map_values(|p: (String, String)| (p.0@, p.1@));
    let mut i: usize = 0;
    proof {
        assert(views.skip(0) =~= views);
    }
    while i < pairs.len()
        invariant
            views == pairs@.map_values(|p: (String, String)| (p.0@, p.1@)),
            i <= pairs.len(),
            first_value_for(views, key@) == first_value_for(views.skip(i as int), key@),
        decreases pairs.len() - i,
    {
        proof {
            assert(views.skip(i as int).drop_first() =~= views.skip(i + 1));
            assert(views.skip(i as int)[0] == views[i as int]);
        }
        if str_equal(pairs[i].0.as_str(), key) {
            return Some(pairs[i].1.clone());
        }
        i = i + 1;
    }
    None
}

/// The file name of an exported thread, from its `Content-Disposition`
/// header: the first `filename*=utf-8''` segment, percent-decoded, or the
/// first `filename=` segment without its quotes, whichever comes first.
pub fn parse_content_disposition_filename(header_value: &str) -> (r: Option<String>)
    ensures
        opt_view(r) == disposition_filename(split_char(header_value@, ';')),
{
    let segments = split_on_char(header_value, ';');
    let ghost views = string_views(segments@);
    let encoded_prefix = "filename*=utf-8''";
    let plain_prefix = "filename=";
    let encoded_len = chars_of(encoded_prefix).len();
    let plain_len = chars_of(plain_prefix).len();
    let mut i: usize = 0;
    proof {
        assert(views.skip(0) =~= views);
    }
    while i < segments.len()
        invariant
            views == string_views(segments@),
            views == split_char(header_value@, ';'),
            encoded_len == encoded_filename_prefix().len(),
            encoded_prefix@ == encoded_filename_prefix(),
            plain_len == "filename="@.len(),
            plain_prefix@ == "filename="@,
            i <= segments.len(),
            disposition_filename(views) == disposition_filename(views.skip(i as int)),
        decreases segments.len() - i,
    {
        proof {
            assert(views.skip(i as int).drop_first() =~= views.skip(i + 1));
            assert(views.skip(i as int)[0] == segments@[i as int]@);
        }
        let seg = trimmed(segments[i].as_str());
        if str_starts_with(seg.as_str(), encoded_prefix) {
            let encoded = crate::text::skip_chars(seg.as_str(), encoded_len);
            let url_text = concat("https://example.com/?filename=", encoded.as_str());
            return match query_pairs_of(url_text.as_str()) {
                None => None,
                Some(pairs) => first_value(&pairs, "filename"),
            };
        }
        if str_starts_with(seg.as_str(), plain_prefix) {
            let raw = crate::text::skip_chars(seg.as_str(), plain_len);
            let unquoted = trim_start_matches_char(raw.as_str(), '"');
            return Some(trim_end_matches_char(unquoted.as_str(), '"'));
        }
        i = i + 1;
    }
    proof {
        assert(views.skip(i as int) =~= Seq::<Seq<char>>::empty());
    }
    None
}

/// Per-tag thread totals, as name and count pairs.
pub open spec fn counts_view(v: Seq<(String, u64)>) -> Seq<(Seq<char>, u64)> {
    v.map_values(|e: (String, u64)| (e.0@, e.1))
}

/// The count recorded first for `key`, if any.
pub open spec fn count_for(c: Seq<(Seq<char>, u64)>, key: Seq<char>) -> Option<u64>
    decreases c.len(),
{
    if c.len() == 0 {
        None
    } else if c[0].0 == key {
        Some(c[0].1)
    } else {
        count_for(c.drop_first(), key)
    }
}

/// `acc` followed by the pairs of `page` whose names were not seen yet, in order.
pub open spec fn merged_counts(acc: Seq<(Seq<char>, u64)>, page: Seq<(Seq<char>, u64)>) -> Seq<
    (Seq<char>, u64),
>
    decreases page.len(),
{
    if page.len() == 0 {
        acc
    } else {
        let m = merged_counts(acc, page.drop_last());
        if count_for(m, page.last().0) is Some {
            m
        } else {
            m.push(page.last())
        }
    }
}

/// Looking a name up after appending a pair.
proof fn lemma_count_for_push(c: Seq<(Seq<char>, u64)>, e: (Seq<char>, u64), key: Seq<char>)
    ensures
        count_for(c.push(e), key) == match count_for(c, key) {
            Some(v) => Some(v),
            None => if e.0 == key {
                Some(e.1)
            } else {
                None
            },
        },
    decreases c.len(),
{
    if c.len() > 0 {
        assert(c.push(e).drop_first() =~= c.drop_first().push(e));
        assert(c.push(e)[0] == c[0]);
        lemma_count_for_push(c.drop_first(), e, key);
    } else {
        assert(c.push(e).drop_first() =~= Seq::<(Seq<char>, u64)>::empty());
        assert(c.push(e)[0] == e);
        assert(count_for(c.push(e).drop_first(), key) is None);
        assert(count_for(c, key) is None);
    }
}

/// Merging keeps the first count seen for every name: a name already in
/// `acc` keeps its count there; any other name gets its first count in `page`.
pub proof fn law_merged_counts_keep_first(
    acc: Seq<(Seq<char>, u64)>,
    page: Seq<(Seq<char>, u64)>,
    key: Seq<char>,
)
    ensures
        count_for(merged_counts(acc, page), key) == match count_for(acc, key) {
            Some(v) => Some(v),
            None => count_for(page, key),
        },
    decreases page.len(),
{
    if page.len() > 0 {
        let init = page.drop_last();
        let e = page.last();
        law_merged_counts_keep_first(acc, init, key);
        lemma_count_for_push(init, e, key);
        assert(init.push(e) =~= page);
        lemma_count_for_push(merged_counts(acc, init), e, key);
        if count_for(merged_counts(acc, init), e.0) is Some {
            if e.0 == key {
            }
        }
    }
}

/// Finds the first pair named `key`.
fn find_count(c: &Vec<(String, u64)>, key: &str) -> (r: bool)
    ensures
        r == count_for(counts_view(c@), key@) is Some,
{
    let ghost views = counts_view(c@);
    let mut i: usize = 0;
    proof {
        assert(views.skip(0) =~= views);
    }
    while i < c.len()
        invariant
            views == counts_view(c@),
            i <= c.len(),
            count_for(views, key@) == count_for(views.skip(i as int), key@),
        decreases c.len() - i,
    {
        proof {
            assert(views.skip(i as int).drop_first() =~= views.skip(i + 1));
            assert(views.skip(i as int)[0] == views[i as int]);
        }
        if str_equal(c[i].0.as_str(), key) {
            return true;
        }
        i = i + 1;
    }
    proof {
        assert(views.skip(i as int) =~= Seq::<(Seq<char>, u64)>::empty());
    }
    false
}

/// Adds a page's totals to the totals gathered so far: a name seen before
/// keeps its count, a new name is appended with its count.
pub fn merge_total_counts(acc: &mut Vec<(String, u64)>, page: &Vec<(String, u64)>)
    ensures
        counts_view(final(acc)@) == merged_counts(counts_view(old(acc)@), counts_view(page@)),
{
    let ghost start = counts_view(acc@);
    let ghost pv = counts_view(page@);
    let mut j: usize = 0;
    proof {
        assert(pv.take(0) =~= Seq::<(Seq<char>, u64)>::empty());
    }
    while j < page.len()
        invariant
            pv == counts_view(page@),
            j <= page.len(),
            counts_view(acc@) == merged_counts(start, pv.take(j as int)),
        decreases page.len() - j,
    {
        proof {
            assert(pv.take(j + 1).drop_last() =~= pv.take(j as int));
            assert(pv.take(j + 1).last() == pv[j as int]);
        }
        if !find_count(acc, page[j].0.as_str()) {
            let ghost before = acc@;
            acc.push((page[j].0.clone(), page[j].1));
            proof {
                assert(counts_view(acc@) =~= counts_view(before).push(pv[j as int]));
            }
        }
        j = j + 1;
    }
    proof {
        assert(pv.take(page.len() as int) =~= pv);
    }
}

/// Whether the thread listing goes on to the next page: only when the page
/// says there are more and gives a cursor to ask for them.
pub fn thread_listing_continues(has_more: bool, has_cursor: bool) -> (r: bool)
    ensures
        r == (has_more && has_cursor),
{
    has_more && has_cursor
}

/// The value of the first query parameter named `key` of a URL, decoded;
/// none when there is no such parameter or the text is not a URL.
pub fn url_query_value(url: &str, key: &str) -> (r: Option<String>)
    ensures
        opt_view(r) == match url_query_pairs(url@) {
            None => None,
            Some(pairs) => first_value_for(pairs, key@),
        },
{
    match query_pairs_of(url) {
        None => None,
        Some(pairs) => first_value(&pairs, key),
    }
}

} // verus!
