use kagi_cli::assistant::{
    ask_page_url_from_parse, build_assistant_prompt_state, describe_assistant_attachment,
    merge_total_counts, require_assistant_thread_id, thread_listing_continues, url_query_value,
    AssistantPromptRequest, ASSISTANT_ZERO_BRANCH_UUID,
};
use kagi_cli::error::{ErrorKind, KagiError};
use kagi_cli::http::{format_client_error_suffix, status_display, strip_html_to_text};
use kagi_cli::news::{check_news_limit, news_batch_url};
use kagi_cli::resources::{
    absolute_kagi_url, apply_custom_assistant_create_request,
    apply_custom_assistant_update_request, apply_custom_bang_create_request,
    apply_custom_bang_update_request, apply_lens_create_request, apply_lens_update_request,
    build_custom_assistant_form, build_custom_bang_form, build_lens_form,
    normalize_named_target, normalize_optional_form_value, AssistantProfileCreateRequest,
    AssistantProfileDetails, AssistantProfileOptions, AssistantProfileUpdateRequest,
    CustomBangCreateRequest, CustomBangDetails, CustomBangOptions, CustomBangUpdateRequest,
    LensCreateRequest, LensDetails, LensOptions, LensUpdateRequest,
};
use kagi_cli::stream::{
    classify_frame, finish_assistant_prompt, finish_assistant_thread_delete,
    finish_assistant_thread_list, finish_assistant_thread_open, finish_subscriber_summary,
    split_stream_frames, AssistantMessageStatus, FrameRole, StreamKind, SummaryMessageStatus,
};
use kagi_cli::summarize::{
    check_summarize_request, prepare_subscriber_summarize, SubscriberSummarizeRequest,
};
use kagi_cli::translate::build_translate_cookie_header;

fn kind_of(error: &KagiError) -> ErrorKind {
    error.error_kind()
}

fn empty_lens() -> LensDetails {
    LensDetails {
        id: Some("7".to_string()),
        name: "Old".to_string(),
        included_sites: String::new(),
        included_keywords: String::new(),
        description: String::new(),
        search_region: "no_region".to_string(),
        before_time: None,
        after_time: None,
        excluded_sites: String::new(),
        excluded_keywords: String::new(),
        shortcut_keyword: String::new(),
        autocomplete_keywords: false,
        template: "0".to_string(),
        file_type: String::new(),
        share_with_team: false,
        share_copy_code: false,
    }
}

fn no_lens_options() -> LensOptions {
    LensOptions {
        included_sites: None,
        included_keywords: None,
        description: None,
        search_region: None,
        before_time: None,
        after_time: None,
        excluded_sites: None,
        excluded_keywords: None,
        shortcut_keyword: None,
        autocomplete_keywords: None,
        template: None,
        file_type: None,
        share_with_team: None,
        share_copy_code: None,
    }
}

fn sample_bang() -> CustomBangDetails {
    CustomBangDetails {
        bang_id: Some("1".to_string()),
        name: "Google".to_string(),
        trigger: "g".to_string(),
        template: "https://www.google.com/search?q=%s".to_string(),
        snap_domain: String::new(),
        regex_pattern: String::new(),
        shortcut_menu: true,
        fmt_open_snap_domain: false,
        fmt_open_base_path: false,
        fmt_url_encode_placeholder: true,
        fmt_url_encode_space_to_plus: false,
    }
}

fn no_bang_options() -> CustomBangOptions {
    CustomBangOptions {
        template: None,
        snap_domain: None,
        regex_pattern: None,
        shortcut_menu: None,
        fmt_open_snap_domain: None,
        fmt_open_base_path: None,
        fmt_url_encode_placeholder: None,
        fmt_url_encode_space_to_plus: None,
    }
}

fn sample_assistant() -> AssistantProfileDetails {
    AssistantProfileDetails {
        profile_id: Some("custom-1".to_string()),
        name: "Writer".to_string(),
        bang_trigger: Some("write".to_string()),
        internet_access: false,
        selected_lens: "0".to_string(),
        personalizations: true,
        base_model: "gpt-5-mini".to_string(),
        custom_instructions: "Be brief.".to_string(),
    }
}

fn no_assistant_options() -> AssistantProfileOptions {
    AssistantProfileOptions {
        bang_trigger: None,
        internet_access: None,
        selected_lens: None,
        personalizations: None,
        base_model: None,
        custom_instructions: None,
    }
}

#[test]
fn splits_stream_bodies_into_frames() {
    let body = "hi:{\"v\":\"1\"}\0\n\0\n   \0\nno colon here\0\nnew_message.json:{\"a\":\"b:c\"}\0\n";
    let frames = split_stream_frames(body);
    assert_eq!(frames.len(), 2);
    assert_eq!(frames[0].tag, "hi");
    assert_eq!(frames[0].payload, "{\"v\":\"1\"}");
    assert_eq!(frames[1].tag, "new_message.json");
    assert_eq!(frames[1].payload, "{\"a\":\"b:c\"}");
}

#[test]
fn splits_an_empty_body_into_no_frames() {
    assert!(split_stream_frames("").is_empty());
    assert!(split_stream_frames("\0\n\0\n").is_empty());
}

#[test]
fn classifies_frames_by_stream_kind() {
    let frames = split_stream_frames("thread.json:{}\0\nunauthorized:\0\ntags.json:[]\0\n");
    assert!(matches!(
        classify_frame(StreamKind::AssistantPrompt, &frames[0]),
        Ok(FrameRole::Thread)
    ));
    assert!(matches!(
        classify_frame(StreamKind::SubscriberSummary, &frames[0]),
        Ok(FrameRole::Ignored)
    ));
    let refused = classify_frame(StreamKind::AssistantThreadOpen, &frames[1])
        .expect_err("unauthorized frame ends the stream");
    assert_eq!(kind_of(&refused), ErrorKind::Auth);
    assert_eq!(refused.to_string(), "invalid or expired Kagi session token");
    assert!(matches!(
        classify_frame(StreamKind::SubscriberSummary, &frames[1]),
        Ok(FrameRole::Ignored)
    ));
    assert!(matches!(
        classify_frame(StreamKind::AssistantThreadList, &frames[2]),
        Ok(FrameRole::Tags)
    ));
}

#[test]
fn rate_limit_frames_carry_the_notice_text() {
    let frames = split_stream_frames("limit_notice.html:<p>Slow <b>down</b></p>\0\n");
    let error = classify_frame(StreamKind::AssistantPrompt, &frames[0])
        .expect_err("limit notice ends the stream");
    assert_eq!(kind_of(&error), ErrorKind::Config);
    assert_eq!(error.to_string(), "Slow down");

    let empty = split_stream_frames("limit_notice.html:<p></p>\0\n");
    let error = classify_frame(StreamKind::AssistantPrompt, &empty[0])
        .expect_err("limit notice ends the stream");
    assert_eq!(error.to_string(), "Kagi Assistant rate limited this request");
}

#[test]
fn subscriber_summary_stream_endings() {
    let missing = finish_subscriber_summary(&None).expect_err("no message frame");
    assert_eq!(kind_of(&missing), ErrorKind::Parse);

    let failed = finish_subscriber_summary(&Some(SummaryMessageStatus {
        state: "error".to_string(),
        reply: "  We are sorry, we are not able to extract the source.  ".to_string(),
    }))
    .expect_err("error state");
    assert_eq!(kind_of(&failed), ErrorKind::Network);
    assert_eq!(
        failed.to_string(),
        "Kagi subscriber summarizer failed: We are sorry, we are not able to extract the source."
    );

    let silent = finish_subscriber_summary(&Some(SummaryMessageStatus {
        state: "error".to_string(),
        reply: "   ".to_string(),
    }))
    .expect_err("error state");
    assert_eq!(
        silent.to_string(),
        "Kagi subscriber summarizer returned an error state"
    );

    assert!(finish_subscriber_summary(&Some(SummaryMessageStatus {
        state: "done".to_string(),
        reply: "summary output".to_string(),
    }))
    .is_ok());
}

#[test]
fn assistant_stream_endings() {
    let no_thread = finish_assistant_prompt(false, &None).expect_err("no thread");
    assert!(no_thread.to_string().contains("thread.json"));
    let no_message = finish_assistant_prompt(true, &None).expect_err("no message");
    assert!(no_message.to_string().contains("new_message.json"));
    let failed = finish_assistant_prompt(
        true,
        &Some(AssistantMessageStatus {
            state: "error".to_string(),
            markdown: None,
            reply_html: Some("<p>boom</p>".to_string()),
        }),
    )
    .expect_err("error state");
    assert_eq!(kind_of(&failed), ErrorKind::Network);
    assert_eq!(failed.to_string(), "<p>boom</p>");
    let generic = finish_assistant_prompt(
        true,
        &Some(AssistantMessageStatus {
            state: "error".to_string(),
            markdown: None,
            reply_html: None,
        }),
    )
    .expect_err("error state");
    assert_eq!(generic.to_string(), "Kagi Assistant returned an error state");

    assert!(finish_assistant_thread_open(true, false)
        .expect_err("no messages")
        .to_string()
        .contains("messages.json"));
    assert!(finish_assistant_thread_open(true, true).is_ok());
    assert!(finish_assistant_thread_list(false).is_err());
    assert_eq!(
        finish_assistant_thread_delete(true, "thread-1").expect("deleted"),
        vec!["thread-1".to_string()]
    );
    assert!(finish_assistant_thread_delete(false, "thread-1")
        .expect_err("no ok frame")
        .to_string()
        .contains("ok frame"));
}

#[test]
fn checks_summarize_requests() {
    let missing = check_summarize_request("  ", true, false).expect_err("token required");
    assert_eq!(kind_of(&missing), ErrorKind::Auth);
    let both = check_summarize_request("token", true, true).expect_err("one source");
    assert_eq!(both.to_string(), "summarize requires exactly one of --url or --text");
    assert!(check_summarize_request("token", false, true).is_ok());
}

#[test]
fn prepares_subscriber_summarize_queries() {
    let request = SubscriberSummarizeRequest {
        url: None,
        text: Some("  some text ".to_string()),
        summary_type: Some("keypoints".to_string()),
        target_language: Some(" DE ".to_string()),
        length: None,
    };
    let query = prepare_subscriber_summarize(&request, "session").expect("query builds");
    assert_eq!(query.source_field, "text");
    assert_eq!(query.source_value, "some text");
    assert_eq!(query.summary_type, "keypoints");
    assert_eq!(query.summary_length, "medium");
    assert_eq!(query.target_language, "DE");

    let refused = prepare_subscriber_summarize(&request, "").expect_err("token required");
    assert_eq!(
        refused.to_string(),
        "missing Kagi session token (expected KAGI_SESSION_TOKEN)"
    );

    let blank_url = SubscriberSummarizeRequest {
        url: Some("   ".to_string()),
        text: None,
        summary_type: None,
        target_language: None,
        length: None,
    };
    assert_eq!(
        prepare_subscriber_summarize(&blank_url, "session")
            .expect_err("blank url")
            .to_string(),
        "subscriber summarize URL cannot be empty"
    );
}

#[test]
fn builds_assistant_prompt_state() {
    let request = AssistantPromptRequest {
        query: "  hello  ".to_string(),
        thread_id: Some("  thread-1  ".to_string()),
        attachments: Vec::new(),
        profile_id: Some("research".to_string()),
        model: Some("   ".to_string()),
        lens_id: Some(2),
        internet_access: Some(true),
        personalizations: Some(false),
    };
    let state = build_assistant_prompt_state(&request).expect("state builds");
    assert_eq!(state.prompt, "hello");
    assert_eq!(state.thread_id.as_deref(), Some("thread-1"));
    assert_eq!(state.branch_id, ASSISTANT_ZERO_BRANCH_UUID);
    assert_eq!(state.branch_id, "00000000-0000-4000-0000-000000000000");
    assert_eq!(state.profile.id.as_deref(), Some("research"));
    assert_eq!(state.profile.model, None);
    assert_eq!(state.profile.lens_id, Some(2));
    assert_eq!(state.profile.internet_access, Some(true));
    assert_eq!(state.profile.personalizations, Some(false));
}

#[test]
fn requires_a_thread_id_for_thread_operations() {
    assert_eq!(require_assistant_thread_id(" t-1 ").expect("trimmed"), "t-1");
    assert_eq!(
        require_assistant_thread_id("  ").expect_err("blank").to_string(),
        "assistant thread id cannot be empty"
    );
}

#[test]
fn describes_assistant_attachments() {
    let meta = describe_assistant_attachment("/tmp/note.txt", "/tmp/note.txt", Some("note.txt"))
        .expect("attachment has a name");
    assert_eq!(meta.filename, "note.txt");
    assert_eq!(meta.content_type, "text/plain");

    let unknown = describe_assistant_attachment("/tmp/blob", "/tmp/blob", Some("blob"))
        .expect("attachment has a name");
    assert_eq!(unknown.content_type, "application/octet-stream");

    let error = describe_assistant_attachment("/tmp/", "/tmp/", None).expect_err("no name");
    assert_eq!(
        error.to_string(),
        "assistant attachment '/tmp/' must include a file name"
    );
}

#[test]
fn accepts_parsed_ask_page_urls_by_scheme() {
    assert_eq!(
        ask_page_url_from_parse(Ok(("http".to_string(), "http://a.example/".to_string())))
            .expect("http is accepted"),
        "http://a.example/"
    );
    assert_eq!(
        ask_page_url_from_parse(Ok(("ftp".to_string(), "ftp://a.example/".to_string())))
            .expect_err("ftp is refused")
            .to_string(),
        "ask-page URL must use http or https, got `ftp`"
    );
    assert_eq!(
        ask_page_url_from_parse(Err("relative URL without a base".to_string()))
            .expect_err("parse failure")
            .to_string(),
        "invalid ask-page URL: relative URL without a base"
    );
}

#[test]
fn merged_thread_totals_keep_the_first_count() {
    let mut totals = vec![("all".to_string(), 2u64)];
    merge_total_counts(
        &mut totals,
        &vec![("all".to_string(), 9u64), ("saved".to_string(), 1u64)],
    );
    merge_total_counts(&mut totals, &vec![("saved".to_string(), 5u64)]);
    assert_eq!(
        totals,
        vec![("all".to_string(), 2u64), ("saved".to_string(), 1u64)]
    );
    assert!(thread_listing_continues(true, true));
    assert!(!thread_listing_continues(true, false));
    assert!(!thread_listing_continues(false, true));
}

#[test]
fn normalizes_named_targets_and_form_values() {
    assert_eq!(
        normalize_named_target("  ", "lens name")
            .expect_err("blank")
            .to_string(),
        "lens name cannot be empty"
    );
    assert_eq!(normalize_optional_form_value(Some(" NONE ".to_string())), None);
    assert_eq!(normalize_optional_form_value(Some("   ".to_string())), None);
    assert_eq!(
        normalize_optional_form_value(Some(" 2024-01-01 ".to_string())).as_deref(),
        Some("2024-01-01")
    );
    assert_eq!(normalize_optional_form_value(None), None);
}

#[test]
fn builds_absolute_settings_urls() {
    assert_eq!(
        absolute_kagi_url(None, "/settings/update_lens?id=1"),
        "https://kagi.com/settings/update_lens?id=1"
    );
    assert_eq!(
        absolute_kagi_url(Some("http://127.0.0.1:9000/"), "https://other.example/x"),
        "https://other.example/x"
    );
    assert_eq!(
        absolute_kagi_url(Some("http://127.0.0.1:9000/"), "settings"),
        "http://127.0.0.1:9000/settings"
    );
}

#[test]
fn builds_settings_forms() {
    let form = build_custom_assistant_form(&sample_assistant());
    assert_eq!(form.len(), 8);
    assert_eq!(form[0], ("profile_id".to_string(), "custom-1".to_string()));
    assert_eq!(form[3], ("internet_access".to_string(), "false".to_string()));
    assert_eq!(form[5], ("personalizations".to_string(), "on".to_string()));

    let lens = build_lens_form(&empty_lens());
    assert_eq!(lens.len(), 17);
    assert_eq!(lens[5], ("date_range".to_string(), "0".to_string()));
    assert_eq!(lens[16], ("id".to_string(), "7".to_string()));

    let delete = build_custom_bang_form(&sample_bang(), true);
    assert_eq!(
        delete,
        vec![
            ("bang_id".to_string(), "1".to_string()),
            ("delete".to_string(), "1".to_string())
        ]
    );
    let save = build_custom_bang_form(&sample_bang(), false);
    assert_eq!(save.len(), 11);
    assert_eq!(save[6], ("shortcut_menu".to_string(), "true".to_string()));
}

#[test]
fn applies_lens_requests() {
    let mut details = empty_lens();
    let mut options = no_lens_options();
    options.search_region = Some("  de  ".to_string());
    options.before_time = Some("none".to_string());
    options.autocomplete_keywords = Some(true);
    options.description = Some(" kept as is ".to_string());
    apply_lens_create_request(
        &mut details,
        &LensCreateRequest {
            name: "  Docs ".to_string(),
            options,
        },
    )
    .expect("create applies");
    assert_eq!(details.name, "Docs");
    assert_eq!(details.search_region, "de");
    assert_eq!(details.before_time, None);
    assert!(details.autocomplete_keywords);
    assert_eq!(details.description, " kept as is ");

    let error = apply_lens_update_request(
        &mut details,
        &LensUpdateRequest {
            target: "Docs".to_string(),
            name: Some("   ".to_string()),
            options: no_lens_options(),
        },
    )
    .expect_err("blank name");
    assert_eq!(error.to_string(), "lens name cannot be empty");
    assert_eq!(details.name, "Docs");
}

#[test]
fn applies_custom_bang_requests() {
    let mut details = sample_bang();
    let mut options = no_bang_options();
    options.shortcut_menu = Some(false);
    apply_custom_bang_create_request(
        &mut details,
        &CustomBangCreateRequest {
            name: " Search ".to_string(),
            trigger: " !!s ".to_string(),
            options,
        },
    )
    .expect("create applies");
    assert_eq!(details.name, "Search");
    assert_eq!(details.trigger, "s");
    assert!(!details.shortcut_menu);

    let error = apply_custom_bang_update_request(
        &mut details,
        &CustomBangUpdateRequest {
            target: "s".to_string(),
            name: Some("Renamed".to_string()),
            trigger: Some(" ! ".to_string()),
            options: no_bang_options(),
        },
    )
    .expect_err("empty trigger");
    assert_eq!(error.to_string(), "custom bang trigger cannot be empty");
    assert_eq!(details.name, "Search");
}

#[test]
fn applies_custom_assistant_requests() {
    let mut details = sample_assistant();
    let mut options = no_assistant_options();
    options.bang_trigger = Some("   ".to_string());
    options.base_model = Some(" mistral-large ".to_string());
    apply_custom_assistant_create_request(
        &mut details,
        &AssistantProfileCreateRequest {
            name: " Editor ".to_string(),
            options,
        },
    )
    .expect("create applies");
    assert_eq!(details.name, "Editor");
    assert_eq!(details.bang_trigger.as_deref(), Some("write"));
    assert_eq!(details.base_model, "mistral-large");

    let mut options = no_assistant_options();
    options.bang_trigger = Some("   ".to_string());
    apply_custom_assistant_update_request(
        &mut details,
        &AssistantProfileUpdateRequest {
            target: "Editor".to_string(),
            name: None,
            options,
        },
    )
    .expect("update applies");
    assert_eq!(details.bang_trigger, None);
    assert_eq!(details.name, "Editor");
}

#[test]
fn checks_news_limits_and_batch_urls() {
    assert_eq!(
        check_news_limit(0).expect_err("zero").to_string(),
        "news --limit must be greater than 0"
    );
    assert!(check_news_limit(3).is_ok());
    assert_eq!(
        news_batch_url(None, "b-1", "/categories"),
        "https://news.kagi.com/api/batches/b-1/categories"
    );
}

#[test]
fn builds_translate_cookie_headers() {
    assert_eq!(
        build_translate_cookie_header("abc", "def"),
        "kagi_session=abc; translate_session=def"
    );
}

#[test]
fn outside_crates_do_their_part() {
    assert_eq!(status_display(404), "404 Not Found");
    assert_eq!(status_display(599), "599 <unknown status code>");
    assert_eq!(strip_html_to_text("<p>a  <i>b</i></p>\n<p>c</p>"), "a b c");
    assert_eq!(
        format_client_error_suffix("  {\"error\" :  \"nope\"} "),
        "; {\"error\":\"nope\"}"
    );
}

#[test]
fn reads_query_values_of_urls() {
    assert_eq!(
        url_query_value("https://kagi.com/settings/lenses?id=42&x=%20y", "x").as_deref(),
        Some(" y")
    );
    assert_eq!(
        url_query_value("https://kagi.com/settings/lenses?id=42", "id").as_deref(),
        Some("42")
    );
    assert_eq!(url_query_value("https://kagi.com/settings", "id"), None);
    assert_eq!(url_query_value("not a url", "id"), None);
}

#[test]
fn places_filtered_stories_by_verdict() {
    let placements = kagi_cli::news::place_filtered_stories(&vec![
        kagi_cli::news::StoryVerdict::Show,
        kagi_cli::news::StoryVerdict::Hide,
        kagi_cli::news::StoryVerdict::Blur(vec!["election".to_string()]),
    ]);
    assert_eq!(placements.len(), 2);
    assert_eq!(placements[0].index, 0);
    assert!(placements[0].blurred_with.is_none());
    assert_eq!(placements[1].index, 2);
    assert_eq!(placements[1].blurred_with, Some(vec!["election".to_string()]));
}

#[test]
fn selects_the_last_frame_of_each_role_before_a_failure() {
    let frames = split_stream_frames(
        "hi:{\"v\":\"1\"}\0\nthread.json:{\"a\":1}\0\nhi:{\"v\":\"2\"}\0\nunauthorized:\0\nthread.json:{\"a\":2}\0\n",
    );
    let selection = kagi_cli::stream::select_stream_frames(StreamKind::AssistantPrompt, &frames);
    assert_eq!(selection.end, 3);
    assert_eq!(selection.hello, Some(2));
    assert_eq!(selection.thread, Some(1));
    assert_eq!(selection.message, None);
    assert_eq!(
        selection.failure.expect("refused").to_string(),
        "invalid or expired Kagi session token"
    );

    let whole = split_stream_frames("new_message.json:{}\0\nnew_message.json:{}\0\n");
    let selection = kagi_cli::stream::select_stream_frames(StreamKind::SubscriberSummary, &whole);
    assert_eq!(selection.end, 2);
    assert!(selection.failure.is_none());
    assert_eq!(selection.message, Some(1));
}

#[test]
fn captures_optional_translate_sections() {
    let (value, warning) =
        kagi_cli::translate::capture_optional_section::<u8>("alternatives", false, None);
    assert!(value.is_none() && warning.is_none());
    let (value, warning) =
        kagi_cli::translate::capture_optional_section("alternatives", true, Some(Ok(7u8)));
    assert_eq!(value, Some(7));
    assert!(warning.is_none());
    let (value, warning) = kagi_cli::translate::capture_optional_section::<u8>(
        "word_insights",
        true,
        Some(Err(KagiError::Network("boom".to_string()))),
    );
    assert!(value.is_none());
    let warning = warning.expect("a warning");
    assert_eq!(warning.section, "word_insights");
    assert_eq!(warning.message, "boom");
}
