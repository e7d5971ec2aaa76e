use kagi_cli::assistant::{
    build_ask_page_prompt, normalize_ask_page_question, normalize_ask_page_url,
    normalize_assistant_query, normalize_assistant_thread_id, parse_content_disposition_filename,
};
use kagi_cli::error::KagiError;
use kagi_cli::http::format_client_error_suffix;
use kagi_cli::news::{
    apply_news_content_filters, execute_news_filter_presets, resolve_news_category,
    text_contains_news_filter_keyword, NewsBatchCategory, NewsCategoryMetadata,
    NewsFilterMode, NewsFilterPresetDefinition, NewsFilterPresetKeywords, NewsFilterRequest,
    NewsFilterScope, NewsStoryText, StoryVerdict,
};
use kagi_cli::resources::{
    normalize_custom_bang_trigger, normalize_redirect_rule, resolve_custom_assistant_ref,
    resolve_custom_bang_ref, resolve_lens_ref, resolve_redirect_ref, AssistantProfileSummary,
    CustomBangSummary, LensSummary, RedirectRuleSummary,
};
use kagi_cli::summarize::{
    normalize_subscriber_summary_input, normalize_subscriber_summary_length,
    normalize_subscriber_summary_type, SubscriberSummarizeRequest,
};
use kagi_cli::translate::{
    build_translate_payload, build_translate_suggestions_payload,
    build_translate_word_insights_payload, PayloadValue,
    build_translate_option_state, effective_translate_source_language,
    extract_set_cookie_value, finalize_translate_text_response, normalize_aux_quality,
    resolve_translate_bootstrap, should_retry_translate_bootstrap, validate_translate_request,
    TranslateCommandRequest, TranslateDetectedLanguage, TranslateTextResponse,
    TRANSLATE_BOOTSTRAP_MISSING_COOKIE_ERROR,
};

fn sample_translate_request() -> TranslateCommandRequest {
    TranslateCommandRequest {
        text: "Bonjour".to_string(),
        from: "auto".to_string(),
        to: "en".to_string(),
        quality: None,
        model: None,
        prediction: None,
        predicted_language: None,
        formality: None,
        speaker_gender: None,
        addressee_gender: None,
        language_complexity: None,
        translation_style: None,
        context: None,
        dictionary_language: None,
        time_format: None,
        use_definition_context: None,
        enable_language_features: None,
        preserve_formatting: None,
        context_memory: None,
        fetch_alternatives: true,
        fetch_word_insights: true,
        fetch_suggestions: true,
        fetch_alignments: true,
    }
}

fn sample_detected_language() -> TranslateDetectedLanguage {
    TranslateDetectedLanguage {
        iso: "fr".to_string(),
        label: "French".to_string(),
        is_uncertain: false,
        is_mixed: false,
        alternatives: vec![],
    }
}

fn story(title: &str, category: &str, summary: &str) -> NewsStoryText {
    NewsStoryText {
        title: Some(title.to_string()),
        category: Some(category.to_string()),
        short_summary: Some(summary.to_string()),
        perspectives: vec![],
        domains: vec![],
        articles: vec![],
    }
}

fn politics_presets() -> Vec<NewsFilterPresetDefinition> {
    vec![NewsFilterPresetDefinition {
        id: "politics".to_string(),
        label: "Politics".to_string(),
        keywords: NewsFilterPresetKeywords::Localized(vec![(
            "en".to_string(),
            vec!["trump".to_string(), "election".to_string()],
        )]),
    }]
}

#[test]
fn formats_html_error_body_as_text_suffix() {
    let suffix = format_client_error_suffix(
        "<html><body><h1>Rate limited</h1><p>Retry later</p></body></html>",
    );

    assert_eq!(suffix, "; Rate limited Retry later");
}

#[test]
fn truncates_long_error_body_suffixes() {
    let suffix = format_client_error_suffix(&"x".repeat(600));

    assert_eq!(suffix.len(), 505);
    assert!(suffix.ends_with("..."));
}

#[test]
fn normalizes_subscriber_summary_type_values() {
    assert_eq!(
        normalize_subscriber_summary_type(None).expect("default type"),
        "article"
    );
    assert_eq!(
        normalize_subscriber_summary_type(Some("summary")).expect("summary type"),
        "article"
    );
    assert_eq!(
        normalize_subscriber_summary_type(Some("keypoints")).expect("keypoints type"),
        "keypoints"
    );
    assert_eq!(
        normalize_subscriber_summary_type(Some("eli5")).expect("eli5 type"),
        "eli5"
    );
}

#[test]
fn rejects_invalid_subscriber_summary_type() {
    let error = normalize_subscriber_summary_type(Some("takeaway"))
        .expect_err("invalid subscriber type should fail");
    assert!(error.to_string().contains("summary, keypoints, eli5"));
}

#[test]
fn normalizes_subscriber_summary_length_values() {
    assert_eq!(
        normalize_subscriber_summary_length(None).expect("default length"),
        "medium"
    );
    assert_eq!(
        normalize_subscriber_summary_length(Some("digest")).expect("digest length"),
        "digest"
    );
}

#[test]
fn rejects_invalid_subscriber_summary_length() {
    let error = normalize_subscriber_summary_length(Some("short"))
        .expect_err("invalid subscriber length should fail");
    assert!(error
        .to_string()
        .contains("headline, overview, digest, medium, long"));
}

#[test]
fn normalizes_subscriber_summary_input() {
    let url_request = SubscriberSummarizeRequest {
        url: Some("https://example.com".to_string()),
        text: None,
        summary_type: None,
        target_language: None,
        length: None,
    };
    let text_request = SubscriberSummarizeRequest {
        url: None,
        text: Some("hello world".to_string()),
        summary_type: None,
        target_language: None,
        length: None,
    };

    assert_eq!(
        normalize_subscriber_summary_input(&url_request).expect("url input"),
        ("url", "https://example.com".to_string())
    );
    assert_eq!(
        normalize_subscriber_summary_input(&text_request).expect("text input"),
        ("text", "hello world".to_string())
    );
}

#[test]
fn rejects_invalid_subscriber_summary_input_shape() {
    let request = SubscriberSummarizeRequest {
        url: Some("https://example.com".to_string()),
        text: Some("hello world".to_string()),
        summary_type: None,
        target_language: None,
        length: None,
    };

    let error = normalize_subscriber_summary_input(&request).expect_err("mixed input should fail");
    assert!(error.to_string().contains("exactly one of --url or --text"));
}

#[test]
fn resolves_news_category_by_display_name() {
    let batch_categories = vec![NewsBatchCategory {
        id: "batch-world".to_string(),
        category_id: "world".to_string(),
        category_name: "World".to_string(),
        source_language: "en".to_string(),
        timestamp: 1,
        read_count: 2,
        cluster_count: 3,
    }];
    let metadata = vec![NewsCategoryMetadata {
        category_id: "world".to_string(),
        category_type: "core".to_string(),
        display_name: "World".to_string(),
        is_core: true,
        source_language: "en".to_string(),
    }];

    let resolved = resolve_news_category(&batch_categories, &metadata, "World")
        .expect("category should resolve");
    assert_eq!(resolved.id, "batch-world");
    assert_eq!(resolved.category_id, "world");
    assert_eq!(resolved.metadata.expect("metadata").category_type, "core");
}

#[test]
fn lists_news_filter_presets_with_language_fallback() {
    let presets = politics_presets();
    let response = execute_news_filter_presets("xx", &presets).expect("preset list should load");
    let politics = response
        .presets
        .iter()
        .find(|preset| preset.id == "politics")
        .expect("politics preset should exist");

    assert_eq!(response.language, "xx");
    assert_eq!(politics.label, "Politics");
    assert!(politics.keywords.contains(&"trump".to_string()));
}

#[test]
fn news_filter_keyword_matching_respects_word_boundaries() {
    assert!(text_contains_news_filter_keyword(
        "trump and iran trade threats",
        "trump"
    ));
    assert!(!text_contains_news_filter_keyword(
        "the strumpet headline",
        "trump"
    ));
    assert!(text_contains_news_filter_keyword(
        "u.s. adults remain concerned",
        "u.s."
    ));
}

#[test]
fn hide_mode_omits_matching_news_stories() {
    let stories = vec![
        story(
            "Trump and Iran trade threats",
            "Middle East",
            "Escalation in the strait.",
        ),
        story(
            "Satellite launch succeeds",
            "Science",
            "A quiet day for spaceflight.",
        ),
    ];
    let filtered = apply_news_content_filters(
        &stories,
        &NewsFilterRequest {
            preset_ids: vec![],
            keywords: vec!["trump".to_string()],
            mode: NewsFilterMode::Hide,
            scope: NewsFilterScope::All,
        },
        &politics_presets(),
        "en",
    )
    .expect("hide mode should succeed");

    let kept: Vec<&NewsStoryText> = stories
        .iter()
        .zip(filtered.verdicts.iter())
        .filter(|(_, verdict)| !matches!(verdict, StoryVerdict::Hide))
        .map(|(story, _)| story)
        .collect();
    assert_eq!(kept.len(), 1);
    assert_eq!(filtered.summary.mode, "hide");
    assert_eq!(filtered.summary.scope, "all");
    assert_eq!(filtered.summary.filtered_count, 1);
    assert_eq!(filtered.summary.active_keywords, vec!["trump".to_string()]);
    assert_eq!(
        kept[0].title.as_deref(),
        Some("Satellite launch succeeds")
    );
}

#[test]
fn blur_mode_tags_matching_news_stories() {
    let stories = vec![
        story(
            "Election coverage intensifies",
            "Politics",
            "Candidates enter the final stretch.",
        ),
        story(
            "Mars rover finds new rock sample",
            "Science",
            "Planetary geology keeps moving.",
        ),
    ];
    let filtered = apply_news_content_filters(
        &stories,
        &NewsFilterRequest {
            preset_ids: vec![],
            keywords: vec!["election".to_string()],
            mode: NewsFilterMode::Blur,
            scope: NewsFilterScope::All,
        },
        &politics_presets(),
        "en",
    )
    .expect("blur mode should succeed");

    assert_eq!(filtered.verdicts.len(), 2);
    assert_eq!(filtered.summary.mode, "blur");
    assert_eq!(filtered.summary.filtered_count, 1);
    match &filtered.verdicts[0] {
        StoryVerdict::Blur(matched) => assert_eq!(matched, &vec!["election".to_string()]),
        other => panic!("expected a blurred story, got {other:?}"),
    }
    assert!(matches!(filtered.verdicts[1], StoryVerdict::Show));
}

#[test]
fn rejects_unknown_news_filter_preset() {
    let error = apply_news_content_filters(
        &vec![story("Example", "World", "Summary")],
        &NewsFilterRequest {
            preset_ids: vec!["not-a-real-preset".to_string()],
            keywords: vec![],
            mode: NewsFilterMode::Hide,
            scope: NewsFilterScope::All,
        },
        &politics_presets(),
        "en",
    )
    .expect_err("unknown presets should fail");

    assert!(error
        .to_string()
        .contains("unknown news filter preset 'not-a-real-preset'"));
}

#[test]
fn normalizes_assistant_query_and_thread_id() {
    assert_eq!(
        normalize_assistant_query("  hello  ").expect("query trims"),
        "hello"
    );
    assert_eq!(
        normalize_assistant_thread_id(Some("  thread-1  ")).expect("thread id trims"),
        Some("thread-1".to_string())
    );
    assert_eq!(
        normalize_assistant_thread_id(None).expect("missing thread id stays none"),
        None
    );
}

#[test]
fn rejects_empty_assistant_query_and_thread_id() {
    let query_error = normalize_assistant_query("   ").expect_err("blank query should fail");
    assert!(query_error
        .to_string()
        .contains("assistant query cannot be empty"));

    let thread_error =
        normalize_assistant_thread_id(Some("   ")).expect_err("blank thread id should fail");
    assert!(thread_error
        .to_string()
        .contains("assistant thread id cannot be empty"));
}

#[test]
fn normalizes_custom_bang_trigger_and_redirect_rule() {
    assert_eq!(
        normalize_custom_bang_trigger(" !gh ").expect("trigger should normalize"),
        "gh"
    );
    assert_eq!(
        normalize_redirect_rule("^https://a|https://b").expect("rule should normalize"),
        "^https://a|https://b"
    );
    assert!(normalize_custom_bang_trigger("   ").is_err());
    assert!(normalize_redirect_rule("https://a").is_err());
}

#[test]
fn resolves_new_resource_refs_by_expected_keys() {
    let assistants = vec![
        AssistantProfileSummary {
            id: "built-in".to_string(),
            name: "Code".to_string(),
            invoke_profile: "code".to_string(),
            model: "Quick".to_string(),
            bang_trigger: None,
            internet_access: true,
            built_in: true,
            edit_url: None,
        },
        AssistantProfileSummary {
            id: "custom-1".to_string(),
            name: "Writer".to_string(),
            invoke_profile: "custom-1".to_string(),
            model: "GPT 5 Mini".to_string(),
            bang_trigger: Some("!write".to_string()),
            internet_access: false,
            built_in: false,
            edit_url: Some("/settings/custom_assistant?id=custom-1".to_string()),
        },
    ];
    let lenses = vec![LensSummary {
        id: "22524".to_string(),
        name: "Reddit".to_string(),
        description: None,
        enabled: true,
        position: Some(0),
        edit_url: "/settings/update_lens?id=22524".to_string(),
        toggle_field: "active_index".to_string(),
        toggle_value: "0".to_string(),
    }];
    let bangs = vec![CustomBangSummary {
        id: "1".to_string(),
        name: "Google".to_string(),
        trigger: "!g".to_string(),
        shortcut_menu: true,
        edit_url: "/settings/custom_bangs_form?bang_id=1".to_string(),
    }];
    let redirects = vec![RedirectRuleSummary {
        id: "16641".to_string(),
        rule: "^https://www.reddit.com|https://old.reddit.com".to_string(),
        enabled: true,
        edit_url: "/settings/redirects_form?rule_id=16641".to_string(),
    }];

    assert_eq!(
        resolve_custom_assistant_ref(&assistants, "code", false)
            .expect("built-in assistant should resolve")
            .id,
        "built-in"
    );
    assert!(resolve_custom_assistant_ref(&assistants, "Code", true).is_err());
    assert_eq!(
        resolve_lens_ref(&lenses, "Reddit")
            .expect("lens should resolve")
            .id,
        "22524"
    );
    assert_eq!(
        resolve_custom_bang_ref(&bangs, "g")
            .expect("bang should resolve")
            .id,
        "1"
    );
    assert_eq!(
        resolve_redirect_ref(&redirects, "^https://www.reddit.com|https://old.reddit.com")
            .expect("redirect should resolve")
            .id,
        "16641"
    );
}

#[test]
fn parses_content_disposition_filename() {
    assert_eq!(
        parse_content_disposition_filename(
            "attachment; filename*=utf-8''Say%20Hi%20In%20Five%20Words.md"
        ),
        Some("Say Hi In Five Words.md".to_string())
    );
    assert_eq!(
        parse_content_disposition_filename("attachment; filename=\"thread.md\""),
        Some("thread.md".to_string())
    );
}

#[test]
fn normalizes_ask_page_url() {
    let normalized = normalize_ask_page_url("https://rust-lang.org").expect("url parses");
    assert_eq!(normalized, "https://rust-lang.org/");
}

#[test]
fn rejects_invalid_ask_page_url() {
    let error = normalize_ask_page_url("rust-lang.org").expect_err("url should fail");
    assert!(error.to_string().contains("invalid ask-page URL"));
}

#[test]
fn rejects_non_http_ask_page_url() {
    let error = normalize_ask_page_url("file:///tmp/page.html").expect_err("scheme should fail");
    assert!(error.to_string().contains("http or https"));
}

#[test]
fn rejects_empty_ask_page_question() {
    let error = normalize_ask_page_question("   ").expect_err("question should fail");
    assert!(error.to_string().contains("question cannot be empty"));
}

#[test]
fn builds_ask_page_prompt() {
    let prompt = build_ask_page_prompt("https://rust-lang.org/", "What is this page about?");
    assert_eq!(prompt, "https://rust-lang.org/\nWhat is this page about?");
}

#[test]
fn rejects_translate_target_auto_value() {
    let mut request = sample_translate_request();
    request.to = "auto".to_string();

    let error = validate_translate_request(&request).expect_err("auto target should fail");
    assert!(error.to_string().contains("explicit target language code"));
}

#[test]
fn rejects_empty_translate_text() {
    let mut request = sample_translate_request();
    request.text = "   ".to_string();

    let error = validate_translate_request(&request).expect_err("empty text should fail");
    assert!(error.to_string().contains("translate text cannot be empty"));
}

#[test]
fn rejects_empty_translate_source_language() {
    let mut request = sample_translate_request();
    request.from = "   ".to_string();

    let error = validate_translate_request(&request).expect_err("empty source should fail");
    assert!(error.to_string().contains("translate --from cannot be empty"));
}

#[test]
fn rejects_empty_translate_target_language() {
    let mut request = sample_translate_request();
    request.to = "   ".to_string();

    let error = validate_translate_request(&request).expect_err("empty target should fail");
    assert!(error.to_string().contains("translate --to cannot be empty"));
}

#[test]
fn extracts_translate_session_from_set_cookie_headers() {
    let headers = vec![
        "translate_language=en; Max-Age=31536000; Path=/; HttpOnly; Secure; SameSite=Lax"
            .to_string(),
        "translate_session=abc.def.ghi; Path=/; Expires=Wed, 18 Mar 2026 23:41:41 GMT; HttpOnly; Secure; SameSite=Lax".to_string(),
    ];

    let cookie = extract_set_cookie_value(&headers, "translate_session");

    assert_eq!(cookie.as_deref(), Some("abc.def.ghi"));
}

#[test]
fn returns_none_when_set_cookie_name_is_missing() {
    let headers = vec![
        "translate_language=en; Max-Age=31536000; Path=/; HttpOnly; Secure; SameSite=Lax"
            .to_string(),
    ];

    assert_eq!(
        extract_set_cookie_value(&headers, "translate_session"),
        None
    );
}

#[test]
fn resolves_translate_bootstrap_from_success_cookie() {
    let headers =
        vec!["translate_session=abc.def.ghi; Path=/; HttpOnly; Secure; SameSite=Lax".to_string()];

    let bootstrap = resolve_translate_bootstrap(200, &headers).expect("bootstrap resolves");

    assert_eq!(bootstrap.translate_session, "abc.def.ghi");
    assert_eq!(bootstrap.method, "reqwest(set-cookie bootstrap)");
}

#[test]
fn rejects_translate_bootstrap_success_without_cookie() {
    let headers: Vec<String> = vec![];

    let error =
        resolve_translate_bootstrap(200, &headers).expect_err("missing cookie should fail");

    assert!(error
        .to_string()
        .contains("did not mint a translate_session cookie"));
}

#[test]
fn maps_translate_bootstrap_auth_statuses() {
    let headers: Vec<String> = vec![];

    for status in [401u16, 403u16] {
        let error =
            resolve_translate_bootstrap(status, &headers).expect_err("auth status should fail");
        assert!(error
            .to_string()
            .contains("invalid or expired Kagi session token"));
    }
}

#[test]
fn retries_translate_bootstrap_when_cookie_is_missing() {
    let error = KagiError::Auth(TRANSLATE_BOOTSTRAP_MISSING_COOKIE_ERROR.to_string());
    assert!(should_retry_translate_bootstrap(&error));
}

#[test]
fn does_not_retry_translate_bootstrap_for_invalid_session_auth() {
    let error =
        KagiError::Auth("invalid or expired Kagi session token for Kagi Translate".to_string());
    assert!(!should_retry_translate_bootstrap(&error));
}

#[test]
fn uses_detected_source_language_when_translate_from_is_auto() {
    let source = effective_translate_source_language("auto", &sample_detected_language());
    assert_eq!(source, "fr");
}

#[test]
fn preserves_explicit_translate_source_language() {
    let source = effective_translate_source_language("es", &sample_detected_language());
    assert_eq!(source, "es");
}

#[test]
fn falls_back_to_requested_source_when_detected_iso_is_empty() {
    let detected_language = TranslateDetectedLanguage {
        iso: String::new(),
        label: "Unknown".to_string(),
        is_uncertain: true,
        is_mixed: false,
        alternatives: vec![],
    };

    let source = effective_translate_source_language("auto", &detected_language);

    assert_eq!(source, "auto");
}

#[test]
fn backfills_translate_language_metadata() {
    let translation = TranslateTextResponse {
        translation: "Hello everyone".to_string(),
        source_language: None,
        target_language: None,
        detected_language: None,
        definition: None,
    };

    let finalized =
        finalize_translate_text_response(translation, &sample_detected_language(), "fr", "en");

    assert_eq!(finalized.source_language.as_deref(), Some("fr"));
    assert_eq!(finalized.target_language.as_deref(), Some("en"));
    assert_eq!(
        finalized
            .detected_language
            .as_ref()
            .map(|value| value.iso.as_str()),
        Some("fr")
    );
}

#[test]
fn keeps_existing_translate_detected_language_when_present() {
    let translation = TranslateTextResponse {
        translation: "Hello everyone".to_string(),
        source_language: None,
        target_language: None,
        detected_language: Some(TranslateDetectedLanguage {
            iso: "es".to_string(),
            label: "Spanish".to_string(),
            is_uncertain: false,
            is_mixed: false,
            alternatives: vec![],
        }),
        definition: None,
    };

    let finalized =
        finalize_translate_text_response(translation, &sample_detected_language(), "fr", "en");

    assert_eq!(
        finalized
            .detected_language
            .as_ref()
            .map(|value| value.iso.as_str()),
        Some("es")
    );
}

#[test]
fn omits_empty_translate_option_state() {
    assert!(build_translate_option_state(&sample_translate_request()).is_none());
}

#[test]
fn normalizes_aux_quality_values() {
    assert_eq!(normalize_aux_quality(None), None);
    assert_eq!(normalize_aux_quality(Some("best")).as_deref(), Some("best"));
    assert_eq!(
        normalize_aux_quality(Some("deep_contextual")).as_deref(),
        Some("best")
    );
    assert_eq!(
        normalize_aux_quality(Some("standard")).as_deref(),
        Some("standard")
    );
}

fn payload_text<'a>(
    payload: &'a [(String, PayloadValue)],
    key: &str,
) -> Option<&'a PayloadValue> {
    payload
        .iter()
        .find(|(name, _)| name == key)
        .map(|(_, value)| value)
}

#[test]
fn builds_translate_payload_with_optional_fields() {
    let request = TranslateCommandRequest {
        text: "Bonjour".to_string(),
        from: "auto".to_string(),
        to: "en".to_string(),
        quality: Some("best".to_string()),
        model: Some("kagi".to_string()),
        prediction: Some("Hello".to_string()),
        predicted_language: Some("fr".to_string()),
        formality: Some("formal".to_string()),
        speaker_gender: Some("female".to_string()),
        addressee_gender: Some("male".to_string()),
        language_complexity: Some("simple".to_string()),
        translation_style: Some("natural".to_string()),
        context: Some("Office email".to_string()),
        dictionary_language: Some("en".to_string()),
        time_format: Some("24h".to_string()),
        use_definition_context: Some(true),
        enable_language_features: Some(true),
        preserve_formatting: Some(true),
        context_memory: Some(vec![r#"{"kind": "glossary"}"#.to_string()]),
        fetch_alternatives: true,
        fetch_word_insights: true,
        fetch_suggestions: true,
        fetch_alignments: true,
    };

    let payload = build_translate_payload(&request, "translate-session", "fr");

    assert!(matches!(
        payload_text(&payload, "from"),
        Some(PayloadValue::Text(v)) if v == "fr"
    ));
    assert!(matches!(
        payload_text(&payload, "translation_style"),
        Some(PayloadValue::Text(v)) if v == "natural"
    ));
    assert!(matches!(
        payload_text(&payload, "context_memory"),
        Some(PayloadValue::Documents(d)) if d == &vec![r#"{"kind": "glossary"}"#.to_string()]
    ));
    assert!(matches!(
        payload_text(&payload, "session_token"),
        Some(PayloadValue::Text(v)) if v == "translate-session"
    ));
}

#[test]
fn localizes_translate_suggestions_payload_to_target_language() {
    let payload = build_translate_suggestions_payload(
        "Bonjour tout le monde",
        "みなさん、こんにちは",
        "fr",
        "ja",
        None,
        "translate-session",
    );

    assert!(matches!(
        payload_text(&payload, "language"),
        Some(PayloadValue::Text(v)) if v == "ja"
    ));
}

#[test]
fn localizes_translate_word_insights_payload_to_target_language() {
    let payload = build_translate_word_insights_payload(
        "Bonjour tout le monde",
        "みなさん、こんにちは",
        "ja",
        "translate-session",
        None,
    );

    assert!(matches!(
        payload_text(&payload, "target_explanation_language"),
        Some(PayloadValue::Text(v)) if v == "ja"
    ));
}
