//! The Universal Summarizer: the public API and the subscriber web summarizer.
//!
//! Both take either a URL or a text, never both. The subscriber summarizer
//! also takes a summary type and a length, given by their command-line names,
//! which this module checks and maps to the names the service expects.
use vstd::prelude::*;

use crate::error::{fails_with, outcome_is, ErrorKind, KagiError, Outcome};
use crate::search::as_opt_str;
use crate::text::{
    blank, concat3, is_blank, opt_str_view, opt_view, str_equal, trim_ws, trimmed,
    trimmed_nonblank, trimmed_optional,
};

verus! {

/// A request to the subscriber summarizer.
#[derive(Debug, Clone)]
pub struct SubscriberSummarizeRequest {
    /// The page to summarize.
    pub url: Option<String>,
    /// The text to summarize.
    pub text: Option<String>,
    /// `summary`, `keypoints` or `eli5`.
    pub summary_type: Option<String>,
    /// The language of the summary.
    pub target_language: Option<String>,
    /// `headline`, `overview`, `digest`, `medium` or `long`.
    pub length: Option<String>,
}

/// What the subscriber summarizer is given: the parameter name (`url` or
/// `text`) and the trimmed value, or the reason the request is refused.
pub open spec fn summary_input(url: Option<Seq<char>>, text: Option<Seq<char>>) -> Result<
    (Seq<char>, Seq<char>),
    (ErrorKind, Seq<char>),
> {
    match (url, text) {
        (Some(u), None) => if is_blank(u) {
            Err((ErrorKind::Config, "subscriber summarize URL cannot be empty"@))
        } else {
            Ok(("url"@, trim_ws(u)))
        },
        (None, Some(t)) => if is_blank(t) {
            Err((ErrorKind::Config, "subscriber summarize text cannot be empty"@))
        } else {
            Ok(("text"@, trim_ws(t)))
        },
        _ => Err((ErrorKind::Config, "subscriber summarize requires exactly one of --url or --text"@)),
    }
}

/// Picks the source of a subscriber summary: exactly one of URL and text,
/// trimmed and not empty.
///
/// # Errors
/// A configuration error when both or neither are given, or the one given is blank.
pub fn normalize_subscriber_summary_input(request: &SubscriberSummarizeRequest) -> (r: Result<
    (&'static str, String),
    KagiError,
>)
    ensures
        match summary_input(opt_view(request.url), opt_view(request.text)) {
            Ok((k, v)) => r matches Ok((a, b)) && a@ == k && b@ == v,
            Err((kind, m)) => fails_with(r, kind, m),
        },
{
    match (&request.url, &request.text) {
        (Some(u), None) => {
            if blank(u.as_str()) {
                return Err(KagiError::Config("subscriber summarize URL cannot be empty".to_owned()));
            }
            Ok(("url", trimmed(u.as_str())))
        },
        (None, Some(t)) => {
            if blank(t.as_str()) {
                return Err(
                    KagiError::Config("subscriber summarize text cannot be empty".to_owned()),
                );
            }
            Ok(("text", trimmed(t.as_str())))
        },
        _ => Err(
            KagiError::Config(
                "subscriber summarize requires exactly one of --url or --text".to_owned(),
            ),
        ),
    }
}

/// The summary type the service expects for a command-line summary type.
pub open spec fn summary_type_outcome(raw: Option<Seq<char>>) -> Outcome {
    match trimmed_nonblank(raw) {
        None => Ok("article"@),
        Some(v) => if v == "summary"@ {
            Ok("article"@)
        } else if v == "keypoints"@ {
            Ok("keypoints"@)
        } else if v == "eli5"@ {
            Ok("eli5"@)
        } else {
            Err(
                (
                    ErrorKind::Config,
                    "subscriber summarize --summary-type must be one of: summary, keypoints, eli5; got '"@
                        + v + "'"@,
                ),
            )
        },
    }
}

/// Maps the summary type to the service's name: `summary` (the default, also
/// for a blank value) is `article`; `keypoints` and `eli5` stay.
///
/// # Errors
/// A configuration error naming the accepted values for anything else.
pub fn normalize_subscriber_summary_type(raw: Option<&str>) -> (r: Result<String, KagiError>)
    ensures
        outcome_is(r, summary_type_outcome(opt_str_view(raw))),
{
    match trimmed_optional(raw) {
        None => Ok("article".to_owned()),
        Some(v) => {
            if str_equal(v.as_str(), "summary") {
                Ok("article".to_owned())
            } else if str_equal(v.as_str(), "keypoints") {
                Ok("keypoints".to_owned())
            } else if str_equal(v.as_str(), "eli5") {
                Ok("eli5".to_owned())
            } else {
                Err(
                    KagiError::Config(
                        concat3(
                            "subscriber summarize --summary-type must be one of: summary, keypoints, eli5; got '",
                            v.as_str(),
                            "'",
                        ),
                    ),
                )
            }
        },
    }
}

/// The summary length the service expects for a command-line length.
pub open spec fn summary_length_outcome(raw: Option<Seq<char>>) -> Outcome {
    match trimmed_nonblank(raw) {
        None => Ok("medium"@),
        Some(v) => if v == "headline"@ || v == "overview"@ || v == "digest"@ || v == "medium"@
            || v == "long"@ {
            Ok(v)
        } else {
            Err(
                (
                    ErrorKind::Config,
                    "subscriber summarize --length must be one of: headline, overview, digest, medium, long; got '"@
                        + v + "'"@,
                ),
            )
        },
    }
}

/// Checks the summary length: `medium` by default (also for a blank value),
/// else one of `headline`, `overview`, `digest`, `medium`, `long`.
///
/// # Errors
/// A configuration error naming the accepted values for anything else.
pub fn normalize_subscriber_summary_length(raw: Option<&str>) -> (r: Result<String, KagiError>)
    ensures
        outcome_is(r, summary_length_outcome(opt_str_view(raw))),
{
    match trimmed_optional(raw) {
        None => Ok("medium".to_owned()),
        Some(v) => {
            if str_equal(v.as_str(), "headline") || str_equal(v.as_str(), "overview") || str_equal(
                v.as_str(),
                "digest",
            ) || str_equal(v.as_str(), "medium") || str_equal(v.as_str(), "long") {
                Ok(v)
            } else {
                Err(
                    KagiError::Config(
                        concat3(
                            "subscriber summarize --length must be one of: headline, overview, digest, medium, long; got '",
                            v.as_str(),
                            "'",
                        ),
                    ),
                )
            }
        },
    }
}

/// Checks a request to the public summarizer API: an API token must be
/// given, and exactly one of URL and text.
///
/// # Errors
/// An authentication error for a blank token, else a configuration error
/// when both or neither of URL and text are given.
pub fn check_summarize_request(token: &str, has_url: bool, has_text: bool) -> (r: Result<
    (),
    KagiError,
>)
    ensures
        is_blank(token@) ==> fails_with(
            r,
            ErrorKind::Auth,
            "missing Kagi API token (expected KAGI_API_TOKEN)"@,
        ),
        !is_blank(token@) && has_url == has_text ==> fails_with(
            r,
            ErrorKind::Config,
            "summarize requires exactly one of --url or --text"@,
        ),
        !is_blank(token@) && has_url != has_text ==> r is Ok,
{
    if blank(token) {
        return Err(KagiError::Auth("missing Kagi API token (expected KAGI_API_TOKEN)".to_owned()));
    }
    if has_url == has_text {
        return Err(
            KagiError::Config("summarize requires exactly one of --url or --text".to_owned()),
        );
    }
    Ok(())
}

/// The query of a subscriber summarizer call: the source parameter and its
/// value, the target language, the summary type and the summary length.
#[derive(Debug, Clone)]
pub struct SubscriberSummarizeQuery {
    pub source_field: &'static str,
    pub source_value: String,
    pub target_language: String,
    pub summary_type: String,
    pub summary_length: String,
}

/// Prepares a subscriber summarizer call: the session token must be given,
/// then the source, the summary type and the length are checked in that
/// order; the target language is trimmed (empty when absent).
///
/// # Errors
/// An authentication error for a blank token, else the first error of
/// [`normalize_subscriber_summary_input`], [`normalize_subscriber_summary_type`]
/// and [`normalize_subscriber_summary_length`].
pub fn prepare_subscriber_summarize(request: &SubscriberSummarizeRequest, token: &str) -> (r:
    Result<SubscriberSummarizeQuery, KagiError>)
    ensures
        is_blank(token@) ==> fails_with(
            r,
            ErrorKind::Auth,
            "missing Kagi session token (expected KAGI_SESSION_TOKEN)"@,
        ),
        !is_blank(token@) ==> match summary_input(opt_view(request.url), opt_view(request.text)) {
            Err((k, m)) => fails_with(r, k, m),
            Ok((field, value)) => match summary_type_outcome(opt_view(request.summary_type)) {
                Err((k, m)) => fails_with(r, k, m),
                Ok(st) => match summary_length_outcome(opt_view(request.length)) {
                    Err((k, m)) => fails_with(r, k, m),
                    Ok(sl) => r matches Ok(q) && q.source_field@ == field && q.source_value@
                        == value && q.summary_type@ == st && q.summary_length@ == sl
                        && q.target_language@ == match opt_view(request.target_language) {
                        Some(t) => trim_ws(t),
                        None => Seq::<char>::empty(),
                    },
                },
            },
        },
{
    if blank(token) {
        return Err(
            KagiError::Auth("missing Kagi session token (expected KAGI_SESSION_TOKEN)".to_owned()),
        );
    }
    let (source_field, source_value) = normalize_subscriber_summary_input(request)?;
    let summary_type = normalize_subscriber_summary_type(as_opt_str(&request.summary_type))?;
    let summary_length = normalize_subscriber_summary_length(as_opt_str(&request.length))?;
    let target_language = match &request.target_language {
        Some(t) => trimmed(t.as_str()),
        None => String::new(),
    };
    Ok(SubscriberSummarizeQuery {
        source_field,
        source_value,
        target_language,
        summary_type,
        summary_length,
    })
}

/// Each length the command accepts passes through, trimmed: a raw value that
/// trims to `headline`, `overview`, `digest`, `medium` or `long` gives that
/// length, and no value at all gives `medium`. A summary type that trims to
/// `summary` is sent as `article`, while `keypoints` and `eli5` keep their
/// names; no type at all gives `article`.
pub proof fn law_summary_names_accepted(raw: Seq<char>)
    ensures
        summary_length_outcome(None) == Ok::<Seq<char>, (ErrorKind, Seq<char>)>("medium"@),
        trim_ws(raw) == "headline"@ ==> summary_length_outcome(Some(raw)) == Ok::<
            Seq<char>,
            (ErrorKind, Seq<char>),
        >("headline"@),
        trim_ws(raw) == "overview"@ ==> summary_length_outcome(Some(raw)) == Ok::<
            Seq<char>,
            (ErrorKind, Seq<char>),
        >("overview"@),
        trim_ws(raw) == "digest"@ ==> summary_length_outcome(Some(raw)) == Ok::<
            Seq<char>,
            (ErrorKind, Seq<char>),
        >("digest"@),
        trim_ws(raw) == "medium"@ ==> summary_length_outcome(Some(raw)) == Ok::<
            Seq<char>,
            (ErrorKind, Seq<char>),
        >("medium"@),
        trim_ws(raw) == "long"@ ==> summary_length_outcome(Some(raw)) == Ok::<
            Seq<char>,
            (ErrorKind, Seq<char>),
        >("long"@),
        summary_type_outcome(None) == Ok::<Seq<char>, (ErrorKind, Seq<char>)>("article"@),
        trim_ws(raw) == "summary"@ ==> summary_type_outcome(Some(raw)) == Ok::<
            Seq<char>,
            (ErrorKind, Seq<char>),
        >("article"@),
        trim_ws(raw) == "keypoints"@ ==> summary_type_outcome(Some(raw)) == Ok::<
            Seq<char>,
            (ErrorKind, Seq<char>),
        >("keypoints"@),
        trim_ws(raw) == "eli5"@ ==> summary_type_outcome(Some(raw)) == Ok::<
            Seq<char>,
            (ErrorKind, Seq<char>),
        >("eli5"@),
{
    reveal_strlit("headline");
    reveal_strlit("overview");
    reveal_strlit("digest");
    reveal_strlit("medium");
    reveal_strlit("long");
    reveal_strlit("summary");
    reveal_strlit("keypoints");
    reveal_strlit("eli5");
}

} // verus!
