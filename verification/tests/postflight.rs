use ironclaw::dispatcher::postflight::{
    image_sentinel, image_sentinel_summary, should_send_preview, tool_failure_message,
    ImageSentinel,
};

fn data_url_of(tool: &str, text: &str) -> Option<Option<String>> {
    match image_sentinel(tool, text) {
        ImageSentinel::NotSentinel => None,
        ImageSentinel::Sentinel { data_url, .. } => Some(data_url),
    }
}

fn empty_data_url_skipped() {
    let d = data_url_of("image_generate", r#"{"type":"image_generated","path":"/tmp/image.png"}"#);
    assert_eq!(d, Some(None), "Missing 'data' field should skip the broadcast");
}

#[test]
fn tests_test_image_sentinel_empty_data_url_should_be_skipped() {
    empty_data_url_skipped();
}

#[test]
fn image_sentinel_test_image_sentinel_empty_data_url_should_be_skipped() {
    empty_data_url_skipped();
}

fn present_data_url_valid() {
    let d = data_url_of(
        "image_generate",
        r#"{"type":"image_generated","data":"data:image/png;base64,abc123","path":"/tmp/image.png"}"#,
    );
    assert_eq!(d, Some(Some("data:image/png;base64,abc123".to_string())));
}

#[test]
fn tests_test_image_sentinel_present_data_url_is_valid() {
    present_data_url_valid();
}

#[test]
fn image_sentinel_test_image_sentinel_present_data_url_is_valid() {
    present_data_url_valid();
}

#[test]
fn test_image_sentinel_http_url_is_invalid() {
    let d = data_url_of(
        "image_generate",
        r#"{"type":"image_generated","data":"https://example.test/image.png","path":"/tmp/image.png"}"#,
    );
    assert_eq!(d, Some(None), "Non-data URLs should be rejected for image sentinel payloads");
}

#[test]
fn image_sentinel_ignores_other_tools_and_payloads() {
    let sentinel = r#"{"type":"image_generated","data":"data:image/png;base64,abc123"}"#;
    assert_eq!(data_url_of("echo", sentinel), None);
    assert_eq!(data_url_of("image_edit", r#"{"type":"other"}"#), None);
    assert_eq!(data_url_of("image_edit", "not json"), None);
    match image_sentinel("image_edit", sentinel) {
        ImageSentinel::Sentinel { path, .. } => assert_eq!(path, None),
        ImageSentinel::NotSentinel => panic!("expected a sentinel"),
    }
}

#[test]
fn image_summary_lists_present_fields() {
    let s = image_sentinel_summary(
        r#"{"type":"image_generated","media_type":"image/png","size":"1024x1024","path":"/tmp/a.png","source_path":"/tmp/b.png"}"#,
    );
    assert_eq!(
        s.as_deref(),
        Some("[Image generated] type=image/png size=1024x1024 path=/tmp/a.png")
    );
    let s = image_sentinel_summary(r#"{"type":"image_generated","source_path":"/tmp/b.png"}"#);
    assert_eq!(s.as_deref(), Some("[Image generated] source=/tmp/b.png"));
    assert_eq!(image_sentinel_summary(r#"{"type":"x"}"#), None);
}

fn tool_error_format() {
    let tool_name = "http";
    let formatted = tool_failure_message(tool_name, "Tool execution failed: connection refused");
    assert!(
        formatted.contains("Tool 'http' failed:"),
        "Error should identify the tool by name, got: {formatted}"
    );
    assert!(
        formatted.contains("connection refused"),
        "Error should include the underlying reason, got: {formatted}"
    );
}

#[test]
fn tests_test_tool_error_format_includes_tool_name() {
    tool_error_format();
}

#[test]
fn error_format_test_tool_error_format_includes_tool_name() {
    tool_error_format();
}

#[test]
fn tool_failure_message_exact() {
    assert_eq!(tool_failure_message("echo", "boom"), "Tool 'echo' failed: boom");
}

#[test]
fn preview_is_sent_only_for_non_empty_non_sentinel() {
    assert!(should_send_preview(false, "x"));
    assert!(!should_send_preview(true, "x"));
    assert!(!should_send_preview(false, ""));
}

fn sentinel(data: Option<&str>, path: Option<&str>) -> String {
    let mut map = serde_json::Map::new();
    map.insert("type".to_string(), serde_json::Value::String("image_generated".to_string()));
    if let Some(d) = data {
        map.insert("data".to_string(), serde_json::Value::String(d.to_string()));
    }
    if let Some(p) = path {
        map.insert("path".to_string(), serde_json::Value::String(p.to_string()));
    }
    serde_json::Value::Object(map).to_string()
}

#[test]
fn delegate_emits_image_generated_for_valid_data_url() {
    match image_sentinel(
        "image_generate",
        &sentinel(Some("data:image/png;base64,abc123"), Some("/tmp/image.png")),
    ) {
        ImageSentinel::Sentinel { data_url, path } => {
            assert_eq!(data_url.as_deref(), Some("data:image/png;base64,abc123"));
            assert_eq!(path.as_deref(), Some("/tmp/image.png"));
        }
        ImageSentinel::NotSentinel => panic!("should detect the sentinel"),
    }
}

#[test]
fn delegate_skips_broadcast_when_data_url_is_empty() {
    match image_sentinel("image_generate", &sentinel(None, Some("/tmp/image.png"))) {
        ImageSentinel::Sentinel { data_url, .. } => assert_eq!(data_url, None),
        ImageSentinel::NotSentinel => panic!("sentinel detected even when data is empty"),
    }
}

#[test]
fn delegate_skips_broadcast_when_data_url_is_not_a_data_url() {
    match image_sentinel(
        "image_generate",
        &sentinel(Some("https://example.test/image.png"), Some("/tmp/image.png")),
    ) {
        ImageSentinel::Sentinel { data_url, .. } => assert_eq!(data_url, None),
        ImageSentinel::NotSentinel => panic!("sentinel detected even when data URL is invalid"),
    }
}

#[test]
fn delegate_returns_false_for_non_image_tool() {
    assert!(matches!(
        image_sentinel("echo", &sentinel(Some("data:image/png;base64,abc123"), None)),
        ImageSentinel::NotSentinel
    ));
}
