use kagi_cli::assistant::{build_assistant_prompt_state, AssistantPromptRequest};
use kagi_cli::error::KagiError;
use kagi_cli::stream::{
    classify_frame, finish_assistant_prompt, finish_assistant_thread_delete,
    finish_assistant_thread_open, finish_subscriber_summary, split_stream_frames,
    AssistantMessageStatus, FrameRole, StreamKind, SummaryMessageStatus,
};
use kagi_cli::translate::{translate_detect_candidate, DetectPayloadKind};
use serde_json::Value;

/// The payloads of a stream by role, parsed as JSON, in order.
fn frames_by_role(kind: StreamKind, raw: &str) -> Result<Vec<(FrameRole, Value)>, KagiError> {
    let mut out = Vec::new();
    for frame in split_stream_frames(raw) {
        let role = classify_frame(kind, &frame)?;
        if role != FrameRole::Ignored {
            let value: Value = serde_json::from_str(&frame.payload).expect("frame payload is JSON");
            out.push((role, value));
        }
    }
    Ok(out)
}

fn last_of(frames: &[(FrameRole, Value)], role: FrameRole) -> Option<Value> {
    frames
        .iter()
        .filter(|(r, _)| *r == role)
        .map(|(_, value)| value.clone())
        .last()
}

fn text(value: &Value, field: &str) -> Option<String> {
    value.get(field).and_then(Value::as_str).map(str::to_string)
}

#[test]
fn parses_subscriber_summarize_stream() {
    let raw = "hi:{\"v\":\"202603091651.stage.c128588\",\"trace\":\"abc123\"}\0\nnew_message.json:{\"id\":\"msg-1\",\"thread_id\":\"thread-1\",\"created_at\":\"2026-03-16T05:17:57Z\",\"state\":\"done\",\"prompt\":\"hello\",\"reply\":\"summary output\",\"md\":\"summary output\",\"metadata\":\"<li>meta</li>\",\"documents\":[{\"url\":\"https://example.com\"}]}\0\n";

    let frames = frames_by_role(StreamKind::SubscriberSummary, raw).expect("stream parses");
    let hello = last_of(&frames, FrameRole::Hello).expect("hello frame");
    let message = last_of(&frames, FrameRole::Message).expect("message frame");
    let status = SummaryMessageStatus {
        state: text(&message, "state").expect("state"),
        reply: text(&message, "reply").expect("reply"),
    };
    finish_subscriber_summary(&Some(status)).expect("stream parses");

    assert_eq!(text(&hello, "v").as_deref(), Some("202603091651.stage.c128588"));
    assert_eq!(text(&hello, "trace").as_deref(), Some("abc123"));
    assert_eq!(text(&message, "thread_id").as_deref(), Some("thread-1"));
    assert_eq!(text(&message, "reply").as_deref(), Some("summary output"));
    assert_eq!(message["documents"].as_array().map(Vec::len), Some(1));
}

#[test]
fn rejects_error_state_in_subscriber_summarize_stream() {
    let raw = "new_message.json:{\"id\":\"msg-1\",\"thread_id\":\"thread-1\",\"created_at\":\"2026-03-16T05:17:57Z\",\"state\":\"error\",\"prompt\":\"hello\",\"reply\":\"We are sorry, we are not able to extract the source.\",\"md\":\"\",\"metadata\":\"\",\"documents\":[]}\0\n";

    let frames = frames_by_role(StreamKind::SubscriberSummary, raw).expect("frames split");
    let message = last_of(&frames, FrameRole::Message).expect("message frame");
    let status = SummaryMessageStatus {
        state: text(&message, "state").expect("state"),
        reply: text(&message, "reply").expect("reply"),
    };
    let error = finish_subscriber_summary(&Some(status)).expect_err("error state should fail");
    assert!(error
        .to_string()
        .contains("We are sorry, we are not able to extract the source."));
}

#[test]
fn parses_assistant_prompt_stream() {
    let raw = "hi:{\"v\":\"202603091651.stage.c128588\",\"trace\":\"trace-123\"}\0\nthread.json:{\"id\":\"thread-1\",\"title\":\"Greeting\",\"ack\":\"2026-03-16T06:19:07Z\",\"created_at\":\"2026-03-16T06:19:07Z\",\"expires_at\":\"2026-03-16T07:19:07Z\",\"saved\":false,\"shared\":false,\"branch_id\":\"00000000-0000-4000-0000-000000000000\",\"tag_ids\":[]}\0\nnew_message.json:{\"id\":\"msg-1\",\"thread_id\":\"thread-1\",\"created_at\":\"2026-03-16T06:19:07Z\",\"branch_list\":[\"00000000-0000-4000-0000-000000000000\"],\"state\":\"done\",\"prompt\":\"Hello\",\"reply\":\"<p>Hi</p>\",\"md\":\"Hi\",\"references_html\":\"<ol><li>Doc</li></ol>\",\"references_md\":\"1. [Doc](https://example.com)\",\"metadata\":\"<li>meta</li>\",\"documents\":[],\"trace_id\":\"trace-message-1\"}\0\n";

    let frames = frames_by_role(StreamKind::AssistantPrompt, raw).expect("assistant stream parses");
    let hello = last_of(&frames, FrameRole::Hello).expect("hello");
    let thread = last_of(&frames, FrameRole::Thread);
    let message = last_of(&frames, FrameRole::Message).expect("message");
    let status = AssistantMessageStatus {
        state: text(&message, "state").expect("state"),
        markdown: text(&message, "md"),
        reply_html: text(&message, "reply"),
    };
    finish_assistant_prompt(thread.is_some(), &Some(status)).expect("assistant stream parses");

    assert_eq!(text(&hello, "trace").as_deref(), Some("trace-123"));
    assert_eq!(text(&thread.expect("thread"), "id").as_deref(), Some("thread-1"));
    assert_eq!(text(&message, "md").as_deref(), Some("Hi"));
    assert_eq!(
        text(&message, "references_md").as_deref(),
        Some("1. [Doc](https://example.com)")
    );
    assert_eq!(
        message["branch_list"],
        Value::Array(vec![Value::String(
            "00000000-0000-4000-0000-000000000000".to_string()
        )])
    );
    assert_eq!(text(&message, "trace_id").as_deref(), Some("trace-message-1"));
}

#[test]
fn parses_assistant_thread_open_stream() {
    let raw = "hi:{\"v\":\"202603171911.stage.707e740\",\"trace\":\"trace-open\"}\0\ntags.json:[]\0\nthread.json:{\"id\":\"thread-1\",\"title\":\"Greeting\",\"ack\":\"2026-03-16T06:19:07Z\",\"created_at\":\"2026-03-16T06:19:07Z\",\"expires_at\":\"2026-03-16T07:19:07Z\",\"saved\":false,\"shared\":false,\"branch_id\":\"00000000-0000-4000-0000-000000000000\",\"tag_ids\":[]}\0\nmessages.json:[{\"id\":\"msg-1\",\"thread_id\":\"thread-1\",\"created_at\":\"2026-03-16T06:19:07Z\",\"branch_list\":[],\"state\":\"done\",\"prompt\":\"Hello\",\"reply\":\"<p>Hi</p>\",\"md\":\"Hi\",\"metadata\":\"\",\"documents\":[],\"trace_id\":\"trace-msg\"}]\0\n";

    let frames = frames_by_role(StreamKind::AssistantThreadOpen, raw).expect("thread open parses");
    let hello = last_of(&frames, FrameRole::Hello).expect("hello");
    let thread = last_of(&frames, FrameRole::Thread);
    let messages = last_of(&frames, FrameRole::Messages);
    finish_assistant_thread_open(thread.is_some(), messages.is_some()).expect("thread open parses");

    let messages = messages.expect("messages");
    assert_eq!(text(&hello, "trace").as_deref(), Some("trace-open"));
    assert_eq!(text(&thread.expect("thread"), "id").as_deref(), Some("thread-1"));
    assert_eq!(messages.as_array().map(Vec::len), Some(1));
    assert_eq!(text(&messages[0], "trace_id").as_deref(), Some("trace-msg"));
}

#[test]
fn parses_assistant_thread_delete_stream() {
    let frames = frames_by_role(StreamKind::AssistantThreadDelete, "hi:{\"v\":\"x\"}\0\nok:null\0\n")
        .expect("delete stream parses");
    let acknowledged = frames
        .iter()
        .any(|(role, value)| *role == FrameRole::Acknowledged && value.is_null());
    let parsed = finish_assistant_thread_delete(acknowledged, "thread-1").expect("delete stream parses");
    assert_eq!(parsed, vec!["thread-1".to_string()]);
}

#[test]
fn builds_json_assistant_prompt_payload_without_attachments() {
    let request = AssistantPromptRequest {
        query: "  hello  ".to_string(),
        thread_id: Some("  thread-1  ".to_string()),
        attachments: Vec::new(),
        profile_id: Some("research".to_string()),
        model: Some("gpt-5-mini".to_string()),
        lens_id: Some(2),
        internet_access: Some(true),
        personalizations: Some(false),
    };

    let state = build_assistant_prompt_state(&request).expect("payload should build");
    assert!(request.attachments.is_empty());
    assert_eq!(state.prompt, "hello");
    assert_eq!(state.thread_id.as_deref(), Some("thread-1"));
    assert_eq!(state.branch_id, "00000000-0000-4000-0000-000000000000");
    assert_eq!(state.profile.id.as_deref(), Some("research"));
    assert_eq!(state.profile.model.as_deref(), Some("gpt-5-mini"));
    assert_eq!(state.profile.lens_id, Some(2));
    assert_eq!(state.profile.internet_access, Some(true));
    assert_eq!(state.profile.personalizations, Some(false));
}

#[test]
fn parses_translate_detect_from_object_or_array() {
    let object: Value = serde_json::from_str(
        r#"{"iso": "fr", "label": "French", "isUncertain": false, "isMixed": false}"#,
    )
    .expect("object");
    let array: Value = serde_json::from_str(
        r#"[{"iso": "fr", "label": "French", "isUncertain": false, "isMixed": false}]"#,
    )
    .expect("array");

    translate_detect_candidate(&DetectPayloadKind::Object).expect("object should parse");
    let entries = array.as_array().expect("array").clone();
    translate_detect_candidate(&DetectPayloadKind::Array(entries.len())).expect("array should parse");

    assert_eq!(object["iso"], "fr");
    assert_eq!(entries[0]["label"], "French");
}

#[test]
fn rejects_empty_translate_detect_array() {
    let error =
        translate_detect_candidate(&DetectPayloadKind::Array(0)).expect_err("empty array should fail");
    assert!(error.to_string().contains("empty array"));
    let other = translate_detect_candidate(&DetectPayloadKind::Other("42".to_string()))
        .expect_err("a number is no detection");
    assert!(other.to_string().ends_with("unexpected payload 42"));
}
