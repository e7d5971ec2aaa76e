use kagi_cli::http::kagi_url;
use kagi_cli::news::{
    push_unique_string, resolve_news_filter_request, NewsFilterMode, NewsFilterPresetDefinition,
    NewsFilterPresetKeywords, NewsFilterRequest, NewsFilterScope,
};
use kagi_cli::resources::{normalize_custom_bang_trigger, normalize_named_target, normalize_redirect_rule};
use kagi_cli::search::news_search_kept_counts;
use kagi_cli::stream::split_stream_frames;
use kagi_cli::text::trimmed;

#[test]
fn trimming_twice_is_trimming_once() {
    let once = trimmed("  \t spaced out \n ");
    assert_eq!(once, "spaced out");
    assert_eq!(trimmed(&once), once);
}

#[test]
fn absolute_urls_pass_through_unchanged() {
    assert_eq!(
        kagi_url(Some("http://127.0.0.1:9000/"), "https://example.com/a?b=c"),
        "https://example.com/a?b=c"
    );
    assert_eq!(kagi_url(None, "http://example.com"), "http://example.com");
}

#[test]
fn accepted_names_are_stable() {
    let once = normalize_named_target("  My Lens ", "lens name").expect("accepted");
    assert_eq!(normalize_named_target(&once, "lens name").expect("accepted"), once);

    let rule = normalize_redirect_rule("  ^a|b  ").expect("accepted");
    assert_eq!(normalize_redirect_rule(&rule).expect("accepted"), rule);

    let trigger = normalize_custom_bang_trigger(" !!gh ").expect("accepted");
    assert_eq!(normalize_custom_bang_trigger(&trigger).expect("accepted"), trigger);
}

#[test]
fn a_trigger_left_with_a_bang_is_not_stable() {
    let first = normalize_custom_bang_trigger("! !gh").expect("accepted");
    assert_eq!(first, "!gh");
    assert_eq!(normalize_custom_bang_trigger(&first).expect("accepted"), "gh");
}

#[test]
fn frames_rejoin_to_their_pieces() {
    let body = "hi:{\"v\":1}\0\nthread.json:{\"id\":\"a:b\"}\0\n";
    let frames = split_stream_frames(body);
    let rebuilt: Vec<String> = frames
        .iter()
        .map(|frame| format!("{}:{}", frame.tag, frame.payload))
        .collect();
    assert_eq!(rebuilt.join("\0\n") + "\0\n", body);
    assert!(frames.iter().all(|frame| !frame.tag.contains(':')));
}

#[test]
fn unique_pushes_keep_lists_free_of_repeats() {
    let mut values = vec!["a".to_string()];
    push_unique_string(&mut values, "b".to_string());
    push_unique_string(&mut values, "a".to_string());
    push_unique_string(&mut values, "b".to_string());
    assert_eq!(values, vec!["a".to_string(), "b".to_string()]);
}

#[test]
fn resolved_filters_name_each_keyword_once() {
    let presets = vec![NewsFilterPresetDefinition {
        id: "politics".to_string(),
        label: "Politics".to_string(),
        keywords: NewsFilterPresetKeywords::Flat(vec!["trump".to_string(), "senate".to_string()]),
    }];
    let resolved = resolve_news_filter_request(
        &NewsFilterRequest {
            preset_ids: vec!["politics".to_string(), "politics".to_string()],
            keywords: vec!["Trump".to_string(), " trump ".to_string(), "senate".to_string()],
            mode: NewsFilterMode::Hide,
            scope: NewsFilterScope::Title,
        },
        &presets,
        "en",
    )
    .expect("filter resolves");
    assert_eq!(resolved.active_presets, vec!["politics".to_string()]);
    assert_eq!(resolved.custom_keywords, vec!["trump".to_string(), "senate".to_string()]);
    assert_eq!(resolved.active_keywords, vec!["trump".to_string(), "senate".to_string()]);
}

#[test]
fn news_search_limits_keep_the_smaller_total() {
    assert_eq!(news_search_kept_counts(&vec![3, 4, 2], 5), vec![3, 2, 0]);
    assert_eq!(news_search_kept_counts(&vec![1, 1], 10), vec![1, 1]);
    assert_eq!(news_search_kept_counts(&vec![], 3), Vec::<usize>::new());
}

#[test]
fn error_body_suffix_joins_the_words_of_the_body() {
    let body = " \t a  b\nc ";
    let words: Vec<&str> = body.split_whitespace().collect();
    assert_eq!(
        kagi_cli::http::error_body_suffix(body),
        format!("; response body: {}", words.join(" "))
    );
    assert_eq!(kagi_cli::http::error_body_suffix(" \n\t "), "");
    assert_eq!(
        kagi_cli::http::error_body_suffix(&"x".repeat(600)),
        format!("; response body: {}...", "x".repeat(500))
    );
}
