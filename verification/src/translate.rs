//! Kagi Translate: request checks, the session bootstrap, the payloads of the
//! translation calls and the language metadata of a translation.
use vstd::prelude::*;

use crate::error::{fails_with, ErrorKind, KagiError};
use crate::http::{status_display, status_text};
use crate::news::copy_strings;
use crate::text::{
    blank, chars_of, concat, concat3, eq_ignore_ascii_case, equal_ignore_ascii_case, is_blank,
    opt_str_view, opt_view, split_char, split_on_char, starts_with, str_equal, str_starts_with,
    string_of_range, string_views,
};

verus! {

/// The message of a bootstrap that answered without a `translate_session` cookie.
pub const TRANSLATE_BOOTSTRAP_MISSING_COOKIE_ERROR: &'static str =
    "translate bootstrap did not mint a translate_session cookie";

/// How many times the session bootstrap is tried.
pub const TRANSLATE_BOOTSTRAP_MAX_ATTEMPTS: usize = 3;

/// A translation request as the command line gives it.
#[derive(Debug, Clone)]
pub struct TranslateCommandRequest {
    pub text: String,
    pub from: String,
    pub to: String,
    pub quality: Option<String>,
    pub model: Option<String>,
    pub prediction: Option<String>,
    pub predicted_language: Option<String>,
    pub formality: Option<String>,
    pub speaker_gender: Option<String>,
    pub addressee_gender: Option<String>,
    pub language_complexity: Option<String>,
    pub translation_style: Option<String>,
    pub context: Option<String>,
    pub dictionary_language: Option<String>,
    pub time_format: Option<String>,
    pub use_definition_context: Option<bool>,
    pub enable_language_features: Option<bool>,
    pub preserve_formatting: Option<bool>,
    /// Entries of the translation memory, each a JSON document.
    pub context_memory: Option<Vec<String>>,
    pub fetch_alternatives: bool,
    pub fetch_word_insights: bool,
    pub fetch_suggestions: bool,
    pub fetch_alignments: bool,
}

/// Why a translation request is refused, if it is: blank text, blank source
/// or target language, or `auto` (in any case) as the target.
pub open spec fn translate_request_error(text: Seq<char>, from: Seq<char>, to: Seq<char>) -> Option<
    Seq<char>,
> {
    if is_blank(text) {
        Some("translate text cannot be empty"@)
    } else if is_blank(from) {
        Some("translate --from cannot be empty"@)
    } else if is_blank(to) {
        Some("translate --to cannot be empty"@)
    } else if eq_ignore_ascii_case(to, "auto"@) {
        Some("translate --to cannot be 'auto'; pass an explicit target language code"@)
    } else {
        None
    }
}

/// Checks a translation request.
///
/// # Errors
/// A configuration error for blank text, blank languages, or `auto` as the target.
pub fn validate_translate_request(request: &TranslateCommandRequest) -> (r: Result<(), KagiError>)
    ensures
        match translate_request_error(request.text@, request.from@, request.to@) {
            Some(m) => fails_with(r, ErrorKind::Config, m),
            None => r is Ok,
        },
{
    if blank(request.text.as_str()) {
        return Err(KagiError::Config("translate text cannot be empty".to_owned()));
    }
    if blank(request.from.as_str()) {
        return Err(KagiError::Config("translate --from cannot be empty".to_owned()));
    }
    if blank(request.to.as_str()) {
        return Err(KagiError::Config("translate --to cannot be empty".to_owned()));
    }
    if equal_ignore_ascii_case(request.to.as_str(), "auto") {
        return Err(
            KagiError::Config(
                "translate --to cannot be 'auto'; pass an explicit target language code".to_owned(),
            ),
        );
    }
    Ok(())
}

/// The cookie header of a Translate call: the Kagi session and the
/// Translate session.
pub fn build_translate_cookie_header(session_token: &str, translate_session: &str) -> (r: String)
    ensures
        r@ == "kagi_session="@ + session_token@ + "; translate_session="@ + translate_session@,
{
    let head = concat3("kagi_session=", session_token, "; translate_session=");
    concat(head.as_str(), translate_session)
}

/// The language Translate detected in a text.
#[derive(Debug, Clone)]
pub struct TranslateDetectedLanguage {
    pub iso: String,
    pub label: String,
    pub is_uncertain: bool,
    pub is_mixed: bool,
    /// Other candidate languages, by ISO code.
    pub alternatives: Vec<String>,
}

/// Two detections hold the same values.
pub open spec fn same_detection(a: TranslateDetectedLanguage, b: TranslateDetectedLanguage) -> bool {
    &&& a.iso@ == b.iso@
    &&& a.label@ == b.label@
    &&& a.is_uncertain == b.is_uncertain
    &&& a.is_mixed == b.is_mixed
    &&& string_views(a.alternatives@) == string_views(b.alternatives@)
}

/// A copy of a detection.
pub fn copy_detection(d: &TranslateDetectedLanguage) -> (r: TranslateDetectedLanguage)
    ensures
        same_detection(r, *d),
{
    TranslateDetectedLanguage {
        iso: d.iso.clone(),
        label: d.label.clone(),
        is_uncertain: d.is_uncertain,
        is_mixed: d.is_mixed,
        alternatives: copy_strings(&d.alternatives),
    }
}

/// The source language a translation is reported in: the detected one when
/// `auto` (in any case) was asked and something was detected, else the one asked.
pub open spec fn effective_source(requested: Seq<char>, detected_iso: Seq<char>) -> Seq<char> {
    if eq_ignore_ascii_case(requested, "auto"@) && !is_blank(detected_iso) {
        detected_iso
    } else {
        requested
    }
}

/// The source language a translation is reported in.
pub fn effective_translate_source_language(
    requested_from: &str,
    detected_language: &TranslateDetectedLanguage,
) -> (r: String)
    ensures
        r@ == effective_source(requested_from@, detected_language.iso@),
{
    if equal_ignore_ascii_case(requested_from, "auto") && !blank(
        detected_language.iso.as_str(),
    ) {
        detected_language.iso.clone()
    } else {
        requested_from.to_owned()
    }
}

/// A translation with its language metadata.
#[derive(Debug, Clone)]
pub struct TranslateTextResponse {
    pub translation: String,
    pub source_language: Option<String>,
    pub target_language: Option<String>,
    pub detected_language: Option<TranslateDetectedLanguage>,
    pub definition: Option<String>,
}

/// Completes a translation's metadata: the detection is filled in when the
/// translation has none (an existing one stays), and the source and target
/// languages are set.
pub fn finalize_translate_text_response(
    translation: TranslateTextResponse,
    detected_language: &TranslateDetectedLanguage,
    effective_source_language: &str,
    target_language: &str,
) -> (r: TranslateTextResponse)
    ensures
        r.translation@ == translation.translation@,
        opt_view(r.definition) == opt_view(translation.definition),
        opt_view(r.source_language) == Some(effective_source_language@),
        opt_view(r.target_language) == Some(target_language@),
        match translation.detected_language {
            Some(d) => r.detected_language == Some(d),
            None => r.detected_language matches Some(d) && same_detection(d, *detected_language),
        },
{
    let mut translation = translation;
    if translation.detected_language.is_none() {
        translation.detected_language = Some(copy_detection(detected_language));
    }
    translation.source_language = Some(effective_source_language.to_owned());
    translation.target_language = Some(target_language.to_owned());
    translation
}

/// The style options of a translation, as the auxiliary calls take them.
#[derive(Debug, Clone)]
pub struct TranslateOptionState {
    pub formality: Option<String>,
    pub speaker_gender: Option<String>,
    pub addressee_gender: Option<String>,
    pub language_complexity: Option<String>,
    pub style: Option<String>,
    pub context: Option<String>,
}

/// The style options of a request, when it sets any: formality, genders,
/// complexity, style and context, copied as given.
pub fn build_translate_option_state(request: &TranslateCommandRequest) -> (r: Option<
    TranslateOptionState,
>)
    ensures
        request.formality is None && request.speaker_gender is None
            && request.addressee_gender is None && request.language_complexity is None
            && request.translation_style is None && request.context is None ==> r is None,
        !(request.formality is None && request.speaker_gender is None
            && request.addressee_gender is None && request.language_complexity is None
            && request.translation_style is None && request.context is None) ==> (r matches Some(o)
            && opt_view(o.formality) == opt_view(request.formality) && opt_view(o.speaker_gender)
            == opt_view(request.speaker_gender) && opt_view(o.addressee_gender) == opt_view(
            request.addressee_gender,
        ) && opt_view(o.language_complexity) == opt_view(request.language_complexity)
            && opt_view(o.style) == opt_view(request.translation_style) && opt_view(o.context)
            == opt_view(request.context)),
{
    if request.formality.is_none() && request.speaker_gender.is_none()
        && request.addressee_gender.is_none() && request.language_complexity.is_none()
        && request.translation_style.is_none() && request.context.is_none() {
        return None;
    }
    Some(
        TranslateOptionState {
            formality: request.formality.clone(),
            speaker_gender: request.speaker_gender.clone(),
            addressee_gender: request.addressee_gender.clone(),
            language_complexity: request.language_complexity.clone(),
            style: request.translation_style.clone(),
            context: request.context.clone(),
        },
    )
}

/// The quality the auxiliary calls use for a requested quality: `best` for
/// `best` and the `deep_` models, `standard` for anything else.
pub open spec fn aux_quality(raw: Option<Seq<char>>) -> Option<Seq<char>> {
    match raw {
        None => None,
        Some(v) => if v == "best"@ || starts_with(v, "deep_"@) {
            Some("best"@)
        } else {
            Some("standard"@)
        },
    }
}

/// Maps a requested quality to the quality of the auxiliary calls.
pub fn normalize_aux_quality(raw: Option<&str>) -> (r: Option<String>)
    ensures
        opt_view(r) == aux_quality(opt_str_view(raw)),
{
    match raw {
        None => None,
        Some(v) => {
            if str_equal(v, "best") || str_starts_with(v, "deep_") {
                Some("best".to_owned())
            } else {
                Some("standard".to_owned())
            }
        },
    }
}

/// Whether a failed bootstrap is worth trying again: when no session cookie
/// came back, or on a network error.
pub open spec fn retry_bootstrap(e: KagiError) -> bool {
    match e {
        KagiError::Auth(m) => m@ == TRANSLATE_BOOTSTRAP_MISSING_COOKIE_ERROR@,
        KagiError::Network(_) => true,
        _ => false,
    }
}

/// Whether a failed bootstrap is worth trying again.
pub fn should_retry_translate_bootstrap(error: &KagiError) -> (r: bool)
    ensures
        r == retry_bootstrap(*error),
{
    match error {
        KagiError::Auth(m) => str_equal(m.as_str(), TRANSLATE_BOOTSTRAP_MISSING_COOKIE_ERROR),
        KagiError::Network(_) => true,
        _ => false,
    }
}

/// The value of cookie `name` set by the first `Set-Cookie` value that sets
/// it to something not empty (the text between `name=` and the first `;`).
pub open spec fn set_cookie_value(values: Seq<Seq<char>>, name: Seq<char>) -> Option<Seq<char>>
    decreases values.len(),
{
    if values.len() == 0 {
        None
    } else {
        let prefix = name + "="@;
        let v = values[0];
        if starts_with(v, prefix) && split_char(v.skip(prefix.len() as int), ';')[0].len() > 0 {
            Some(split_char(v.skip(prefix.len() as int), ';')[0])
        } else {
            set_cookie_value(values.drop_first(), name)
        }
    }
}

/// The value a response's `Set-Cookie` headers give cookie `name`; `values`
/// are the header values that are visible ASCII, in order.
pub fn extract_set_cookie_value(values: &Vec<String>, name: &str) -> (r: Option<String>)
    ensures
        opt_view(r) == set_cookie_value(string_views(values@), name@),
{
    let prefix = concat(name, "=");
    let prefix_len = chars_of(prefix.as_str()).len();
    let ghost views = string_views(values@);
    let mut i: usize = 0;
    proof {
        assert(views.skip(0) =~= views);
    }
    while i < values.len()
        invariant
            views == string_views(values@),
            prefix@ == name@ + "="@,
            prefix_len == prefix@.len(),
            i <= values.len(),
            set_cookie_value(views, name@) == set_cookie_value(views.skip(i as int), name@),
        decreases values.len() - i,
    {
        proof {
            assert(views.skip(i as int).drop_first() =~= views.skip(i + 1));
            assert(views.skip(i as int)[0] == values@[i as int]@);
        }
        let v = values[i].as_str();
        if str_starts_with(v, prefix.as_str()) {
            let rest = crate::text::skip_chars(v, prefix_len);
            let pieces = split_on_char(rest.as_str(), ';');
            proof {
                crate::text::lemma_split_char_nonempty(rest@, ';');
                assert(string_views(pieces@)[0] == pieces@[0]@);
            }
            if !pieces[0].as_str().is_empty() {
                return Some(pieces[0].clone());
            }
        }
        i = i + 1;
    }
    proof {
        assert(views.skip(i as int) =~= Seq::<Seq<char>>::empty());
    }
    None
}

/// A Translate session minted by the bootstrap, and how it was obtained.
#[derive(Debug, Clone)]
pub struct TranslateBootstrapResult {
    pub translate_session: String,
    pub method: String,
}

/// Reads the answer of the session bootstrap from its status and its
/// `Set-Cookie` values: on 200 the `translate_session` cookie, on 401 and
/// 403 an authentication error, otherwise a network error.
///
/// # Errors
/// An authentication error when a 200 answer sets no session cookie or for
/// 401/403; a network error for server errors and other statuses.
pub fn resolve_translate_bootstrap(status: u16, set_cookies: &Vec<String>) -> (r: Result<
    TranslateBootstrapResult,
    KagiError,
>)
    requires
        100 <= status <= 999,
    ensures
        status == 200 ==> match set_cookie_value(string_views(set_cookies@), "translate_session"@) {
            Some(c) => r matches Ok(b) && b.translate_session@ == c && b.method@
                == "reqwest(set-cookie bootstrap)"@,
            None => fails_with(r, ErrorKind::Auth, TRANSLATE_BOOTSTRAP_MISSING_COOKIE_ERROR@),
        },
        status == 401 || status == 403 ==> fails_with(
            r,
            ErrorKind::Auth,
            "invalid or expired Kagi session token for Kagi Translate"@,
        ),
        500 <= status <= 599 ==> fails_with(
            r,
            ErrorKind::Network,
            "Kagi Translate bootstrap server error: HTTP "@ + status_text(status),
        ),
        status != 200 && status != 401 && status != 403 && !(500 <= status <= 599) ==> fails_with(
            r,
            ErrorKind::Network,
            "unexpected Kagi Translate bootstrap response status: HTTP "@ + status_text(status),
        ),
{
    if status == 200 {
        return match extract_set_cookie_value(set_cookies, "translate_session") {
            Some(c) => Ok(
                TranslateBootstrapResult {
                    translate_session: c,
                    method: "reqwest(set-cookie bootstrap)".to_owned(),
                },
            ),
            None => Err(KagiError::Auth(TRANSLATE_BOOTSTRAP_MISSING_COOKIE_ERROR.to_owned())),
        };
    }
    if status == 401 || status == 403 {
        return Err(
            KagiError::Auth("invalid or expired Kagi session token for Kagi Translate".to_owned()),
        );
    }
    let shown = status_display(status);
    if 500 <= status && status <= 599 {
        Err(KagiError::Network(concat("Kagi Translate bootstrap server error: HTTP ", shown.as_str())))
    } else {
        Err(
            KagiError::Network(
                concat("unexpected Kagi Translate bootstrap response status: HTTP ", shown.as_str()),
            ),
        )
    }
}

/// A value of a Translate call's JSON payload.
#[derive(Debug, Clone)]
pub enum PayloadValue {
    /// A string.
    Text(String),
    /// A boolean.
    Flag(bool),
    /// An array of JSON documents, each given as its text.
    Documents(Vec<String>),
    /// The style options, as an object.
    Options(TranslateOptionState),
}

/// The contents of a payload value.
pub enum PayloadView {
    Text(Seq<char>),
    Flag(bool),
    Documents(Seq<Seq<char>>),
    Options(Seq<Option<Seq<char>>>),
}

/// The style options in order: formality, speaker gender, addressee gender,
/// complexity, style, context.
pub open spec fn options_view(o: TranslateOptionState) -> Seq<Option<Seq<char>>> {
    seq![
        opt_view(o.formality),
        opt_view(o.speaker_gender),
        opt_view(o.addressee_gender),
        opt_view(o.language_complexity),
        opt_view(o.style),
        opt_view(o.context),
    ]
}

/// The contents of a payload value.
pub open spec fn value_view(v: PayloadValue) -> PayloadView {
    match v {
        PayloadValue::Text(s) => PayloadView::Text(s@),
        PayloadValue::Flag(b) => PayloadView::Flag(b),
        PayloadValue::Documents(d) => PayloadView::Documents(string_views(d@)),
        PayloadValue::Options(o) => PayloadView::Options(options_view(o)),
    }
}

/// The fields of a payload, in the order they are set.
pub open spec fn payload_view(p: Seq<(String, PayloadValue)>) -> Seq<(Seq<char>, PayloadView)> {
    p.map_values(|e: (String, PayloadValue)| (e.0@, value_view(e.1)))
}

/// A string field when the value is given.
pub open spec fn text_if_given(name: Seq<char>, o: Option<String>) -> Seq<(Seq<char>, PayloadView)> {
    match o {
        Some(v) => seq![(name, PayloadView::Text(v@))],
        None => seq![],
    }
}

/// A boolean field when the value is given.
pub open spec fn flag_if_given(name: Seq<char>, o: Option<bool>) -> Seq<(Seq<char>, PayloadView)> {
    match o {
        Some(v) => seq![(name, PayloadView::Flag(v))],
        None => seq![],
    }
}

/// Appends a field to a payload.
fn push_value(payload: &mut Vec<(String, PayloadValue)>, name: &str, value: PayloadValue)
    ensures
        payload_view(final(payload)@) == payload_view(old(payload)@).push((name@, value_view(value))),
{
    let ghost before = payload@;
    let ghost shown = value_view(value);
    payload.push((name.to_owned(), value));
    proof {
        assert(payload_view(payload@) =~= payload_view(before).push((name@, shown)));
    }
}

/// Appends a string field when the value is given.
fn push_text_if_given(payload: &mut Vec<(String, PayloadValue)>, name: &str, value: &Option<String>)
    ensures
        payload_view(final(payload)@) == payload_view(old(payload)@) + text_if_given(name@, *value),
{
    match value {
        Some(v) => push_value(payload, name, PayloadValue::Text(v.clone())),
        None => {
            assert(payload_view(payload@) + text_if_given(name@, *value) =~= payload_view(payload@));
        },
    }
    proof {
        if value is Some {
            assert(payload_view(old(payload)@).push((name@, PayloadView::Text(value->0@)))
                =~= payload_view(old(payload)@) + text_if_given(name@, *value));
        }
    }
}

/// Appends a boolean field when the value is given.
fn push_flag_if_given(payload: &mut Vec<(String, PayloadValue)>, name: &str, value: Option<bool>)
    ensures
        payload_view(final(payload)@) == payload_view(old(payload)@) + flag_if_given(name@, value),
{
    match value {
        Some(v) => push_value(payload, name, PayloadValue::Flag(v)),
        None => {
            assert(payload_view(payload@) + flag_if_given(name@, value) =~= payload_view(payload@));
        },
    }
    proof {
        if value is Some {
            assert(payload_view(old(payload)@).push((name@, PayloadView::Flag(value->0)))
                =~= payload_view(old(payload)@) + flag_if_given(name@, value));
        }
    }
}

/// The payload of a translation call: text, source (the effective source
/// language), target, no streaming and the Translate session, then each
/// option the request sets, and the translation memory when given.
pub open spec fn translate_payload(
    request: TranslateCommandRequest,
    session: Seq<char>,
    source: Seq<char>,
) -> Seq<(Seq<char>, PayloadView)> {
    seq![
        ("text"@, PayloadView::Text(request.text@)),
        ("from"@, PayloadView::Text(source)),
        ("to"@, PayloadView::Text(request.to@)),
        ("stream"@, PayloadView::Flag(false)),
        ("session_token"@, PayloadView::Text(session)),
    ] + text_if_given("quality"@, request.quality) + text_if_given("model"@, request.model)
        + text_if_given("prediction"@, request.prediction) + text_if_given(
        "predicted_language"@,
        request.predicted_language,
    ) + text_if_given("formality"@, request.formality) + text_if_given(
        "speaker_gender"@,
        request.speaker_gender,
    ) + text_if_given("addressee_gender"@, request.addressee_gender) + text_if_given(
        "language_complexity"@,
        request.language_complexity,
    ) + text_if_given("translation_style"@, request.translation_style) + text_if_given(
        "context"@,
        request.context,
    ) + text_if_given("dictionary_language"@, request.dictionary_language) + text_if_given(
        "time_format"@,
        request.time_format,
    ) + flag_if_given("use_definition_context"@, request.use_definition_context) + flag_if_given(
        "enable_language_features"@,
        request.enable_language_features,
    ) + flag_if_given("preserve_formatting"@, request.preserve_formatting) + match request.context_memory {
        Some(m) => seq![("context_memory"@, PayloadView::Documents(string_views(m@)))],
        None => seq![],
    }
}

/// Builds the payload of a translation call.
pub fn build_translate_payload(
    request: &TranslateCommandRequest,
    translate_session: &str,
    effective_source_language: &str,
) -> (r: Vec<(String, PayloadValue)>)
    ensures
        payload_view(r@) == translate_payload(
            *request,
            translate_session@,
            effective_source_language@,
        ),
{
    let mut p: Vec<(String, PayloadValue)> = Vec::new();
    push_value(&mut p, "text", PayloadValue::Text(request.text.clone()));
    push_value(&mut p, "from", PayloadValue::Text(effective_source_language.to_owned()));
    push_value(&mut p, "to", PayloadValue::Text(request.to.clone()));
    push_value(&mut p, "stream", PayloadValue::Flag(false));
    push_value(&mut p, "session_token", PayloadValue::Text(translate_session.to_owned()));
    let ghost head = payload_view(p@);
    push_text_if_given(&mut p, "quality", &request.quality);
    push_text_if_given(&mut p, "model", &request.model);
    push_text_if_given(&mut p, "prediction", &request.prediction);
    push_text_if_given(&mut p, "predicted_language", &request.predicted_language);
    push_text_if_given(&mut p, "formality", &request.formality);
    push_text_if_given(&mut p, "speaker_gender", &request.speaker_gender);
    push_text_if_given(&mut p, "addressee_gender", &request.addressee_gender);
    push_text_if_given(&mut p, "language_complexity", &request.language_complexity);
    push_text_if_given(&mut p, "translation_style", &request.translation_style);
    push_text_if_given(&mut p, "context", &request.context);
    push_text_if_given(&mut p, "dictionary_language", &request.dictionary_language);
    push_text_if_given(&mut p, "time_format", &request.time_format);
    push_flag_if_given(&mut p, "use_definition_context", request.use_definition_context);
    push_flag_if_given(&mut p, "enable_language_features", request.enable_language_features);
    push_flag_if_given(&mut p, "preserve_formatting", request.preserve_formatting);
    let ghost body = payload_view(p@);
    if let Some(m) = &request.context_memory {
        push_value(&mut p, "context_memory", PayloadValue::Documents(copy_strings(m)));
    }
    proof {
        let req = *request;
        assert(head =~= seq![
            ("text"@, PayloadView::Text(req.text@)),
            ("from"@, PayloadView::Text(effective_source_language@)),
            ("to"@, PayloadView::Text(req.to@)),
            ("stream"@, PayloadView::Flag(false)),
            ("session_token"@, PayloadView::Text(translate_session@)),
        ]);
        assert(payload_view(p@) =~= body + match req.context_memory {
            Some(m) => seq![("context_memory"@, PayloadView::Documents(string_views(m@)))],
            None => seq![],
        });
        assert(payload_view(p@) =~= translate_payload(
            req,
            translate_session@,
            effective_source_language@,
        ));
    }
    p
}

/// The style options as a payload field, when given.
pub open spec fn options_if_given(name: Seq<char>, o: Option<TranslateOptionState>) -> Seq<
    (Seq<char>, PayloadView),
> {
    match o {
        Some(v) => seq![(name, PayloadView::Options(options_view(v)))],
        None => seq![],
    }
}

/// A copy of the style options.
fn copy_options(o: &TranslateOptionState) -> (r: TranslateOptionState)
    ensures
        options_view(r) == options_view(*o),
{
    TranslateOptionState {
        formality: o.formality.clone(),
        speaker_gender: o.speaker_gender.clone(),
        addressee_gender: o.addressee_gender.clone(),
        language_complexity: o.language_complexity.clone(),
        style: o.style.clone(),
        context: o.context.clone(),
    }
}

/// Builds the payload of a suggestions call: both texts, both languages, the
/// target language again as the language of the suggestions, the session,
/// and the style options when given.
pub fn build_translate_suggestions_payload(
    source_text: &str,
    target_text: &str,
    source_language: &str,
    target_language: &str,
    translation_options: Option<&TranslateOptionState>,
    translate_session: &str,
) -> (r: Vec<(String, PayloadValue)>)
    ensures
        payload_view(r@) == seq![
            ("originalText"@, PayloadView::Text(source_text@)),
            ("translatedText"@, PayloadView::Text(target_text@)),
            ("sourceLanguage"@, PayloadView::Text(source_language@)),
            ("targetLanguage"@, PayloadView::Text(target_language@)),
            ("language"@, PayloadView::Text(target_language@)),
            ("session_token"@, PayloadView::Text(translate_session@)),
        ] + options_if_given(
            "translationOptions"@,
            match translation_options {
                Some(o) => Some(*o),
                None => None,
            },
        ),
{
    let mut p: Vec<(String, PayloadValue)> = Vec::new();
    push_value(&mut p, "originalText", PayloadValue::Text(source_text.to_owned()));
    push_value(&mut p, "translatedText", PayloadValue::Text(target_text.to_owned()));
    push_value(&mut p, "sourceLanguage", PayloadValue::Text(source_language.to_owned()));
    push_value(&mut p, "targetLanguage", PayloadValue::Text(target_language.to_owned()));
    push_value(&mut p, "language", PayloadValue::Text(target_language.to_owned()));
    push_value(&mut p, "session_token", PayloadValue::Text(translate_session.to_owned()));
    let ghost head = payload_view(p@);
    if let Some(o) = translation_options {
        push_value(&mut p, "translationOptions", PayloadValue::Options(copy_options(o)));
    }
    proof {
        assert(payload_view(p@) =~= head + options_if_given(
            "translationOptions"@,
            match translation_options {
                Some(o) => Some(*o),
                None => None,
            },
        ));
    }
    p
}

/// Builds the payload of a word-insights call: both texts, the language the
/// explanations are written in, the session, and the style options when given.
pub fn build_translate_word_insights_payload(
    source_text: &str,
    target_text: &str,
    explanation_language: &str,
    translate_session: &str,
    translation_options: Option<&TranslateOptionState>,
) -> (r: Vec<(String, PayloadValue)>)
    ensures
        payload_view(r@) == seq![
            ("original_text"@, PayloadView::Text(source_text@)),
            ("translated_text"@, PayloadView::Text(target_text@)),
            ("target_explanation_language"@, PayloadView::Text(explanation_language@)),
            ("session_token"@, PayloadView::Text(translate_session@)),
        ] + options_if_given(
            "translation_options"@,
            match translation_options {
                Some(o) => Some(*o),
                None => None,
            },
        ),
{
    let mut p: Vec<(String, PayloadValue)> = Vec::new();
    push_value(&mut p, "original_text", PayloadValue::Text(source_text.to_owned()));
    push_value(&mut p, "translated_text", PayloadValue::Text(target_text.to_owned()));
    push_value(
        &mut p,
        "target_explanation_language",
        PayloadValue::Text(explanation_language.to_owned()),
    );
    push_value(&mut p, "session_token", PayloadValue::Text(translate_session.to_owned()));
    let ghost head = payload_view(p@);
    if let Some(o) = translation_options {
        push_value(&mut p, "translation_options", PayloadValue::Options(copy_options(o)));
    }
    proof {
        assert(payload_view(p@) =~= head + options_if_given(
            "translation_options"@,
            match translation_options {
                Some(o) => Some(*o),
                None => None,
            },
        ));
    }
    p
}

/// Checks a translation before any call: the session token must be given
/// and the request valid.
///
/// # Errors
/// An authentication error for a blank token, else as [`validate_translate_request`].
pub fn check_translate_request(request: &TranslateCommandRequest, session_token: &str) -> (r:
    Result<(), KagiError>)
    ensures
        is_blank(session_token@) ==> fails_with(
            r,
            ErrorKind::Auth,
            "missing Kagi session token (expected KAGI_SESSION_TOKEN)"@,
        ),
        !is_blank(session_token@) ==> match translate_request_error(
            request.text@,
            request.from@,
            request.to@,
        ) {
            Some(m) => fails_with(r, ErrorKind::Config, m),
            None => r is Ok,
        },
{
    if blank(session_token) {
        return Err(
            KagiError::Auth("missing Kagi session token (expected KAGI_SESSION_TOKEN)".to_owned()),
        );
    }
    validate_translate_request(request)
}

/// What to do after one attempt of the session bootstrap.
#[derive(Debug, Clone)]
pub enum BootstrapStep {
    /// A session was minted.
    Done(TranslateBootstrapResult),
    /// Wait this many milliseconds and try again.
    Retry(u64),
    /// Give up with this error.
    Fail(KagiError),
}

/// Decides what follows attempt `attempt` (counted from 0) of the session
/// bootstrap: its session when it minted one; another try, after
/// 250 ms times the number of attempts so far, when the error is worth
/// retrying and attempts remain; otherwise its error.
pub fn next_bootstrap_step(attempt: usize, outcome: Result<TranslateBootstrapResult, KagiError>) -> (r:
    BootstrapStep)
    requires
        attempt < TRANSLATE_BOOTSTRAP_MAX_ATTEMPTS,
    ensures
        match outcome {
            Ok(b) => r == BootstrapStep::Done(b),
            Err(e) => if attempt + 1 < TRANSLATE_BOOTSTRAP_MAX_ATTEMPTS && retry_bootstrap(e) {
                r == BootstrapStep::Retry((250 * (attempt + 1)) as u64)
            } else {
                r == BootstrapStep::Fail(e)
            },
        },
{
    match outcome {
        Ok(b) => BootstrapStep::Done(b),
        Err(e) => {
            if attempt + 1 < TRANSLATE_BOOTSTRAP_MAX_ATTEMPTS && should_retry_translate_bootstrap(
                &e,
            ) {
                BootstrapStep::Retry(250 * (attempt as u64 + 1))
            } else {
                BootstrapStep::Fail(e)
            }
        },
    }
}

/// The shape of a language-detection answer.
#[derive(Debug, Clone)]
pub enum DetectPayloadKind {
    /// A JSON array with this many entries; the first is the detection.
    Array(usize),
    /// A JSON object: the detection itself.
    Object,
    /// Anything else, as its JSON text.
    Other(String),
}

/// Accepts a language-detection answer that holds a detection.
///
/// # Errors
/// A parse error for an empty array or an answer that is neither array nor object.
pub fn translate_detect_candidate(kind: &DetectPayloadKind) -> (r: Result<(), KagiError>)
    ensures
        match kind {
            DetectPayloadKind::Array(n) => if *n == 0 {
                fails_with(
                    r,
                    ErrorKind::Parse,
                    "failed to parse translate language detection response: empty array"@,
                )
            } else {
                r is Ok
            },
            DetectPayloadKind::Object => r is Ok,
            DetectPayloadKind::Other(text) => fails_with(
                r,
                ErrorKind::Parse,
                "failed to parse translate language detection response: unexpected payload "@
                    + text@,
            ),
        },
{
    match kind {
        DetectPayloadKind::Array(n) => {
            if *n == 0 {
                Err(
                    KagiError::Parse(
                        "failed to parse translate language detection response: empty array".to_owned(),
                    ),
                )
            } else {
                Ok(())
            }
        },
        DetectPayloadKind::Object => Ok(()),
        DetectPayloadKind::Other(text) => Err(
            KagiError::Parse(
                concat(
                    "failed to parse translate language detection response: unexpected payload ",
                    text.as_str(),
                ),
            ),
        ),
    }
}

/// An optional part of a translation that failed, with the reason.
#[derive(Debug, Clone)]
pub struct TranslateWarning {
    pub section: String,
    pub message: String,
}

/// The warning recorded when an optional part of a translation fails: the
/// part's name and the error's message.
pub fn translate_section_warning(section: &str, error: &KagiError) -> (r: TranslateWarning)
    ensures
        r.section@ == section@,
        r.message@ == error.message(),
{
    TranslateWarning { section: section.to_owned(), message: error.to_string() }
}

/// Builds the payload of an alternatives call: the original text as given,
/// the translation, both languages, the session, the auxiliary quality when a
/// quality was asked, and the style options when given.
pub fn build_translate_alternatives_payload(
    request: &TranslateCommandRequest,
    translate_session: &str,
    effective_source_language: &str,
    translated_text: &str,
    translation_options: Option<&TranslateOptionState>,
) -> (r: Vec<(String, PayloadValue)>)
    ensures
        payload_view(r@) == seq![
            ("original_text"@, PayloadView::Text(request.text@)),
            ("existing_translation"@, PayloadView::Text(translated_text@)),
            ("source_lang"@, PayloadView::Text(effective_source_language@)),
            ("target_lang"@, PayloadView::Text(request.to@)),
            ("session_token"@, PayloadView::Text(translate_session@)),
        ] + match aux_quality(opt_view(request.quality)) {
            Some(q) => seq![("quality"@, PayloadView::Text(q))],
            None => seq![],
        } + options_if_given(
            "translation_options"@,
            match translation_options {
                Some(o) => Some(*o),
                None => None,
            },
        ),
{
    let mut p: Vec<(String, PayloadValue)> = Vec::new();
    push_value(&mut p, "original_text", PayloadValue::Text(request.text.clone()));
    push_value(&mut p, "existing_translation", PayloadValue::Text(translated_text.to_owned()));
    push_value(&mut p, "source_lang", PayloadValue::Text(effective_source_language.to_owned()));
    push_value(&mut p, "target_lang", PayloadValue::Text(request.to.clone()));
    push_value(&mut p, "session_token", PayloadValue::Text(translate_session.to_owned()));
    let ghost head = payload_view(p@);
    let quality = normalize_aux_quality(crate::search::as_opt_str(&request.quality));
    if let Some(q) = quality {
        push_value(&mut p, "quality", PayloadValue::Text(q));
    }
    let ghost middle = payload_view(p@);
    proof {
        assert(middle =~= head + match aux_quality(opt_view(request.quality)) {
            Some(q) => seq![("quality"@, PayloadView::Text(q))],
            None => seq![],
        });
    }
    if let Some(o) = translation_options {
        push_value(&mut p, "translation_options", PayloadValue::Options(copy_options(o)));
    }
    proof {
        assert(payload_view(p@) =~= middle + options_if_given(
            "translation_options"@,
            match translation_options {
                Some(o) => Some(*o),
                None => None,
            },
        ));
    }
    p
}

/// What an optional part of a translation contributes: nothing when it is
/// disabled (it is then not fetched, and `result` is `None`); when enabled,
/// its value, or a warning naming the part and carrying the error's message.
pub fn capture_optional_section<T>(section: &str, enabled: bool, result: Option<Result<T, KagiError>>) -> (r: (
    Option<T>,
    Option<TranslateWarning>,
))
    requires
        enabled <==> result is Some,
    ensures
        !enabled ==> r.0 is None && r.1 is None,
        enabled ==> match result {
            Some(Ok(v)) => r.0 == Some(v) && r.1 is None,
            Some(Err(e)) => r.0 is None && (r.1 matches Some(w) && w.section@ == section@
                && w.message@ == e.message()),
            None => false,
        },
{
    match result {
        None => (None, None),
        Some(Ok(v)) => (Some(v), None),
        Some(Err(e)) => (None, Some(translate_section_warning(section, &e))),
    }
}

/// `p` sends the field `name` with the value `v`.
pub open spec fn sends(p: Seq<(Seq<char>, PayloadView)>, name: Seq<char>, v: PayloadView) -> bool {
    p.contains((name, v))
}

/// The string option `o` is set and `v` is its text.
pub open spec fn is_text_of(o: Option<String>, v: PayloadView) -> bool {
    o is Some && v == PayloadView::Text(o->0@)
}

/// The switch `o` is set and `v` is its value.
pub open spec fn is_flag_of(o: Option<bool>, v: PayloadView) -> bool {
    o is Some && v == PayloadView::Flag(o->0)
}

/// The translation memory `o` is given and `v` is its documents.
pub open spec fn is_memory_of(o: Option<Vec<String>>, v: PayloadView) -> bool {
    o is Some && v == PayloadView::Documents(string_views(o->0@))
}

/// The entries of the section of an optional string field.
proof fn lemma_text_section(name: Seq<char>, o: Option<String>, e: (Seq<char>, PayloadView))
    ensures
        text_if_given(name, o).contains(e) <==> (e.0 == name && is_text_of(o, e.1)),
{
    if o is Some {
        assert(text_if_given(name, o)[0] == (name, PayloadView::Text(o->0@)));
    }
}

/// The entries of the section of an optional switch.
proof fn lemma_flag_section(name: Seq<char>, o: Option<bool>, e: (Seq<char>, PayloadView))
    ensures
        flag_if_given(name, o).contains(e) <==> (e.0 == name && is_flag_of(o, e.1)),
{
    if o is Some {
        assert(flag_if_given(name, o)[0] == (name, PayloadView::Flag(o->0)));
    }
}

/// The section of a payload that carries the translation memory, when given.
pub open spec fn memory_section(m: Option<Vec<String>>) -> Seq<(Seq<char>, PayloadView)> {
    match m {
        Some(m) => seq![("context_memory"@, PayloadView::Documents(string_views(m@)))],
        None => seq![],
    }
}

/// The entries of the translation-memory section.
proof fn lemma_memory_section(m: Option<Vec<String>>, e: (Seq<char>, PayloadView))
    ensures
        memory_section(m).contains(e) <==> (e.0 == "context_memory"@ && is_memory_of(m, e.1)),
{
    if m is Some {
        assert(memory_section(m)[0] == ("context_memory"@, PayloadView::Documents(
            string_views(m->0@),
        )));
    }
}

/// The first five entries of a translation payload.
pub open spec fn payload_head(r: TranslateCommandRequest, session: Seq<char>, source: Seq<char>) -> Seq<
    (Seq<char>, PayloadView),
> {
    seq![
        ("text"@, PayloadView::Text(r.text@)),
        ("from"@, PayloadView::Text(source)),
        ("to"@, PayloadView::Text(r.to@)),
        ("stream"@, PayloadView::Flag(false)),
        ("session_token"@, PayloadView::Text(session)),
    ]
}

/// The entries of the first five fields.
proof fn lemma_head_entries(
    r: TranslateCommandRequest,
    session: Seq<char>,
    source: Seq<char>,
    e: (Seq<char>, PayloadView),
)
    ensures
        payload_head(r, session, source).contains(e) <==> {
            ||| e == ("text"@, PayloadView::Text(r.text@))
            ||| e == ("from"@, PayloadView::Text(source))
            ||| e == ("to"@, PayloadView::Text(r.to@))
            ||| e == ("stream"@, PayloadView::Flag(false))
            ||| e == ("session_token"@, PayloadView::Text(session))
        },
{
    let h = payload_head(r, session, source);
    assert(h[0] == ("text"@, PayloadView::Text(r.text@)));
    assert(h[1] == ("from"@, PayloadView::Text(source)));
    assert(h[2] == ("to"@, PayloadView::Text(r.to@)));
    assert(h[3] == ("stream"@, PayloadView::Flag(false)));
    assert(h[4] == ("session_token"@, PayloadView::Text(session)));
}

/// An entry is in a translation payload exactly when it is one of the five
/// base fields or the field of an option the request sets.
proof fn lemma_translate_payload_entries(
    r: TranslateCommandRequest,
    session: Seq<char>,
    source: Seq<char>,
    e: (Seq<char>, PayloadView),
)
    ensures
        translate_payload(r, session, source).contains(e) <==> {
            ||| e == ("text"@, PayloadView::Text(r.text@))
            ||| e == ("from"@, PayloadView::Text(source))
            ||| e == ("to"@, PayloadView::Text(r.to@))
            ||| e == ("stream"@, PayloadView::Flag(false))
            ||| e == ("session_token"@, PayloadView::Text(session))
            ||| e.0 == "quality"@ && is_text_of(r.quality, e.1)
            ||| e.0 == "model"@ && is_text_of(r.model, e.1)
            ||| e.0 == "prediction"@ && is_text_of(r.prediction, e.1)
            ||| e.0 == "predicted_language"@ && is_text_of(r.predicted_language, e.1)
            ||| e.0 == "formality"@ && is_text_of(r.formality, e.1)
            ||| e.0 == "speaker_gender"@ && is_text_of(r.speaker_gender, e.1)
            ||| e.0 == "addressee_gender"@ && is_text_of(r.addressee_gender, e.1)
            ||| e.0 == "language_complexity"@ && is_text_of(r.language_complexity, e.1)
            ||| e.0 == "translation_style"@ && is_text_of(r.translation_style, e.1)
            ||| e.0 == "context"@ && is_text_of(r.context, e.1)
            ||| e.0 == "dictionary_language"@ && is_text_of(r.dictionary_language, e.1)
            ||| e.0 == "time_format"@ && is_text_of(r.time_format, e.1)
            ||| e.0 == "use_definition_context"@ && is_flag_of(r.use_definition_context, e.1)
            ||| e.0 == "enable_language_features"@ && is_flag_of(r.enable_language_features, e.1)
            ||| e.0 == "preserve_formatting"@ && is_flag_of(r.preserve_formatting, e.1)
            ||| e.0 == "context_memory"@ && is_memory_of(r.context_memory, e.1)
        },
{
    lemma_head_entries(r, session, source, e);
    let p0 = payload_head(r, session, source);
    let s1 = text_if_given("quality"@, r.quality);
    lemma_text_section("quality"@, r.quality, e);
    vstd::seq_lib::lemma_seq_concat_contains_all_elements(p0, s1, e);
    let p1 = p0 + s1;
    let s2 = text_if_given("model"@, r.model);
    lemma_text_section("model"@, r.model, e);
    vstd::seq_lib::lemma_seq_concat_contains_all_elements(p1, s2, e);
    let p2 = p1 + s2;
    let s3 = text_if_given("prediction"@, r.prediction);
    lemma_text_section("prediction"@, r.prediction, e);
    vstd::seq_lib::lemma_seq_concat_contains_all_elements(p2, s3, e);
    let p3 = p2 + s3;
    let s4 = text_if_given("predicted_language"@, r.predicted_language);
    lemma_text_section("predicted_language"@, r.predicted_language, e);
    vstd::seq_lib::lemma_seq_concat_contains_all_elements(p3, s4, e);
    let p4 = p3 + s4;
    let s5 = text_if_given("formality"@, r.formality);
    lemma_text_section("formality"@, r.formality, e);
    vstd::seq_lib::lemma_seq_concat_contains_all_elements(p4, s5, e);
    let p5 = p4 + s5;
    let s6 = text_if_given("speaker_gender"@, r.speaker_gender);
    lemma_text_section("speaker_gender"@, r.speaker_gender, e);
    vstd::seq_lib::lemma_seq_concat_contains_all_elements(p5, s6, e);
    let p6 = p5 + s6;
    let s7 = text_if_given("addressee_gender"@, r.addressee_gender);
    lemma_text_section("addressee_gender"@, r.addressee_gender, e);
    vstd::seq_lib::lemma_seq_concat_contains_all_elements(p6, s7, e);
    let p7 = p6 + s7;
    let s8 = text_if_given("language_complexity"@, r.language_complexity);
    lemma_text_section("language_complexity"@, r.language_complexity, e);
    vstd::seq_lib::lemma_seq_concat_contains_all_elements(p7, s8, e);
    let p8 = p7 + s8;
    let s9 = text_if_given("translation_style"@, r.translation_style);
    lemma_text_section("translation_style"@, r.translation_style, e);
    vstd::seq_lib::lemma_seq_concat_contains_all_elements(p8, s9, e);
    let p9 = p8 + s9;
    let s10 = text_if_given("context"@, r.context);
    lemma_text_section("context"@, r.context, e);
    vstd::seq_lib::lemma_seq_concat_contains_all_elements(p9, s10, e);
    let p10 = p9 + s10;
    let s11 = text_if_given("dictionary_language"@, r.dictionary_language);
    lemma_text_section("dictionary_language"@, r.dictionary_language, e);
    vstd::seq_lib::lemma_seq_concat_contains_all_elements(p10, s11, e);
    let p11 = p10 + s11;
    let s12 = text_if_given("time_format"@, r.time_format);
    lemma_text_section("time_format"@, r.time_format, e);
    vstd::seq_lib::lemma_seq_concat_contains_all_elements(p11, s12, e);
    let p12 = p11 + s12;
    let s13 = flag_if_given("use_definition_context"@, r.use_definition_context);
    lemma_flag_section("use_definition_context"@, r.use_definition_context, e);
    vstd::seq_lib::lemma_seq_concat_contains_all_elements(p12, s13, e);
    let p13 = p12 + s13;
    let s14 = flag_if_given("enable_language_features"@, r.enable_language_features);
    lemma_flag_section("enable_language_features"@, r.enable_language_features, e);
    vstd::seq_lib::lemma_seq_concat_contains_all_elements(p13, s14, e);
    let p14 = p13 + s14;
    let s15 = flag_if_given("preserve_formatting"@, r.preserve_formatting);
    lemma_flag_section("preserve_formatting"@, r.preserve_formatting, e);
    vstd::seq_lib::lemma_seq_concat_contains_all_elements(p14, s15, e);
    let p15 = p14 + s15;
    lemma_memory_section(r.context_memory, e);
    vstd::seq_lib::lemma_seq_concat_contains_all_elements(p15, memory_section(r.context_memory), e);
}

/// Every field a translation call needs is sent under its own name: the
/// text, the effective source language as `from`, the target as `to`,
/// `stream` off and the Translate session, each with exactly that value; then
/// each option the request sets, with its value (each string option as text,
/// each switch as a boolean, the translation memory as its documents), and no
/// entry under the name of an option the request leaves unset.
pub proof fn law_translate_payload_sends_every_option(
    r: TranslateCommandRequest,
    session: Seq<char>,
    source: Seq<char>,
)
    ensures
        forall|v: PayloadView|
            #[trigger] sends(translate_payload(r, session, source), "text"@, v)
                <==> v == PayloadView::Text(r.text@),
        forall|v: PayloadView|
            #[trigger] sends(translate_payload(r, session, source), "from"@, v)
                <==> v == PayloadView::Text(source),
        forall|v: PayloadView|
            #[trigger] sends(translate_payload(r, session, source), "to"@, v)
                <==> v == PayloadView::Text(r.to@),
        forall|v: PayloadView|
            #[trigger] sends(translate_payload(r, session, source), "stream"@, v)
                <==> v == PayloadView::Flag(false),
        forall|v: PayloadView|
            #[trigger] sends(translate_payload(r, session, source), "session_token"@, v)
                <==> v == PayloadView::Text(session),
        forall|v: PayloadView|
            #[trigger] sends(translate_payload(r, session, source), "quality"@, v)
                <==> is_text_of(r.quality, v),
        forall|v: PayloadView|
            #[trigger] sends(translate_payload(r, session, source), "model"@, v)
                <==> is_text_of(r.model, v),
        forall|v: PayloadView|
            #[trigger] sends(translate_payload(r, session, source), "prediction"@, v)
                <==> is_text_of(r.prediction, v),
        forall|v: PayloadView|
            #[trigger] sends(translate_payload(r, session, source), "predicted_language"@, v)
                <==> is_text_of(r.predicted_language, v),
        forall|v: PayloadView|
            #[trigger] sends(translate_payload(r, session, source), "formality"@, v)
                <==> is_text_of(r.formality, v),
        forall|v: PayloadView|
            #[trigger] sends(translate_payload(r, session, source), "speaker_gender"@, v)
                <==> is_text_of(r.speaker_gender, v),
        forall|v: PayloadView|
            #[trigger] sends(translate_payload(r, session, source), "addressee_gender"@, v)
                <==> is_text_of(r.addressee_gender, v),
        forall|v: PayloadView|
            #[trigger] sends(translate_payload(r, session, source), "language_complexity"@, v)
                <==> is_text_of(r.language_complexity, v),
        forall|v: PayloadView|
            #[trigger] sends(translate_payload(r, session, source), "translation_style"@, v)
                <==> is_text_of(r.translation_style, v),
        forall|v: PayloadView|
            #[trigger] sends(translate_payload(r, session, source), "context"@, v)
                <==> is_text_of(r.context, v),
        forall|v: PayloadView|
            #[trigger] sends(translate_payload(r, session, source), "dictionary_language"@, v)
                <==> is_text_of(r.dictionary_language, v),
        forall|v: PayloadView|
            #[trigger] sends(translate_payload(r, session, source), "time_format"@, v)
                <==> is_text_of(r.time_format, v),
        forall|v: PayloadView|
            #[trigger] sends(translate_payload(r, session, source), "use_definition_context"@, v)
                <==> is_flag_of(r.use_definition_context, v),
        forall|v: PayloadView|
            #[trigger] sends(translate_payload(r, session, source), "enable_language_features"@, v)
                <==> is_flag_of(r.enable_language_features, v),
        forall|v: PayloadView|
            #[trigger] sends(translate_payload(r, session, source), "preserve_formatting"@, v)
                <==> is_flag_of(r.preserve_formatting, v),
        forall|v: PayloadView|
            #[trigger] sends(translate_payload(r, session, source), "context_memory"@, v)
                <==> is_memory_of(r.context_memory, v),
{
    let p = translate_payload(r, session, source);
    reveal_strlit("text");
    reveal_strlit("from");
    reveal_strlit("to");
    reveal_strlit("stream");
    reveal_strlit("session_token");
    reveal_strlit("quality");
    reveal_strlit("model");
    reveal_strlit("prediction");
    reveal_strlit("predicted_language");
    reveal_strlit("formality");
    reveal_strlit("speaker_gender");
    reveal_strlit("addressee_gender");
    reveal_strlit("language_complexity");
    reveal_strlit("translation_style");
    reveal_strlit("context");
    reveal_strlit("dictionary_language");
    reveal_strlit("time_format");
    reveal_strlit("use_definition_context");
    reveal_strlit("enable_language_features");
    reveal_strlit("preserve_formatting");
    reveal_strlit("context_memory");
    assert("text"@.len() == 4);
    assert("from"@.len() == 4);
    assert("to"@.len() == 2);
    assert("stream"@.len() == 6);
    assert("session_token"@.len() == 13);
    assert("quality"@.len() == 7);
    assert("model"@.len() == 5);
    assert("prediction"@.len() == 10);
    assert("predicted_language"@.len() == 18);
    assert("formality"@.len() == 9);
    assert("speaker_gender"@.len() == 14);
    assert("addressee_gender"@.len() == 16);
    assert("language_complexity"@.len() == 19);
    assert("translation_style"@.len() == 17);
    assert("context"@.len() == 7);
    assert("dictionary_language"@.len() == 19);
    assert("time_format"@.len() == 11);
    assert("use_definition_context"@.len() == 22);
    assert("enable_language_features"@.len() == 24);
    assert("preserve_formatting"@.len() == 19);
    assert("context_memory"@.len() == 14);
    assert("text"@[0] == 't');
    assert("from"@[0] == 'f');
    assert("quality"@[0] == 'q');
    assert("context"@[0] == 'c');
    assert("speaker_gender"@[0] == 's');
    assert("context_memory"@[0] == 'c');
    assert("language_complexity"@[0] == 'l');
    assert("dictionary_language"@[0] == 'd');
    assert("preserve_formatting"@[0] == 'p');
    assert forall|v: PayloadView|
        #[trigger] sends(p, "text"@, v) <==> v == PayloadView::Text(r.text@) by {
        lemma_translate_payload_entries(r, session, source, ("text"@, v));
    }
    assert forall|v: PayloadView|
        #[trigger] sends(p, "from"@, v) <==> v == PayloadView::Text(source) by {
        lemma_translate_payload_entries(r, session, source, ("from"@, v));
    }
    assert forall|v: PayloadView|
        #[trigger] sends(p, "to"@, v) <==> v == PayloadView::Text(r.to@) by {
        lemma_translate_payload_entries(r, session, source, ("to"@, v));
    }
    assert forall|v: PayloadView|
        #[trigger] sends(p, "stream"@, v) <==> v == PayloadView::Flag(false) by {
        lemma_translate_payload_entries(r, session, source, ("stream"@, v));
    }
    assert forall|v: PayloadView|
        #[trigger] sends(p, "session_token"@, v) <==> v == PayloadView::Text(session) by {
        lemma_translate_payload_entries(r, session, source, ("session_token"@, v));
    }
    assert forall|v: PayloadView|
        #[trigger] sends(p, "quality"@, v) <==> is_text_of(r.quality, v) by {
        lemma_translate_payload_entries(r, session, source, ("quality"@, v));
    }
    assert forall|v: PayloadView|
        #[trigger] sends(p, "model"@, v) <==> is_text_of(r.model, v) by {
        lemma_translate_payload_entries(r, session, source, ("model"@, v));
    }
    assert forall|v: PayloadView|
        #[trigger] sends(p, "prediction"@, v) <==> is_text_of(r.prediction, v) by {
        lemma_translate_payload_entries(r, session, source, ("prediction"@, v));
    }
    assert forall|v: PayloadView|
        #[trigger] sends(p, "predicted_language"@, v) <==> is_text_of(r.predicted_language, v) by {
        lemma_translate_payload_entries(r, session, source, ("predicted_language"@, v));
    }
    assert forall|v: PayloadView|
        #[trigger] sends(p, "formality"@, v) <==> is_text_of(r.formality, v) by {
        lemma_translate_payload_entries(r, session, source, ("formality"@, v));
    }
    assert forall|v: PayloadView|
        #[trigger] sends(p, "speaker_gender"@, v) <==> is_text_of(r.speaker_gender, v) by {
        lemma_translate_payload_entries(r, session, source, ("speaker_gender"@, v));
    }
    assert forall|v: PayloadView|
        #[trigger] sends(p, "addressee_gender"@, v) <==> is_text_of(r.addressee_gender, v) by {
        lemma_translate_payload_entries(r, session, source, ("addressee_gender"@, v));
    }
    assert forall|v: PayloadView|
        #[trigger] sends(p, "language_complexity"@, v)
            <==> is_text_of(r.language_complexity, v) by {
        lemma_translate_payload_entries(r, session, source, ("language_complexity"@, v));
    }
    assert forall|v: PayloadView|
        #[trigger] sends(p, "translation_style"@, v) <==> is_text_of(r.translation_style, v) by {
        lemma_translate_payload_entries(r, session, source, ("translation_style"@, v));
    }
    assert forall|v: PayloadView|
        #[trigger] sends(p, "context"@, v) <==> is_text_of(r.context, v) by {
        lemma_translate_payload_entries(r, session, source, ("context"@, v));
    }
    assert forall|v: PayloadView|
        #[trigger] sends(p, "dictionary_language"@, v)
            <==> is_text_of(r.dictionary_language, v) by {
        lemma_translate_payload_entries(r, session, source, ("dictionary_language"@, v));
    }
    assert forall|v: PayloadView|
        #[trigger] sends(p, "time_format"@, v) <==> is_text_of(r.time_format, v) by {
        lemma_translate_payload_entries(r, session, source, ("time_format"@, v));
    }
    assert forall|v: PayloadView|
        #[trigger] sends(p, "use_definition_context"@, v)
            <==> is_flag_of(r.use_definition_context, v) by {
        lemma_translate_payload_entries(r, session, source, ("use_definition_context"@, v));
    }
    assert forall|v: PayloadView|
        #[trigger] sends(p, "enable_language_features"@, v)
            <==> is_flag_of(r.enable_language_features, v) by {
        lemma_translate_payload_entries(r, session, source, ("enable_language_features"@, v));
    }
    assert forall|v: PayloadView|
        #[trigger] sends(p, "preserve_formatting"@, v)
            <==> is_flag_of(r.preserve_formatting, v) by {
        lemma_translate_payload_entries(r, session, source, ("preserve_formatting"@, v));
    }
    assert forall|v: PayloadView|
        #[trigger] sends(p, "context_memory"@, v) <==> is_memory_of(r.context_memory, v) by {
        lemma_translate_payload_entries(r, session, source, ("context_memory"@, v));
    }
}

} // verus!
