use ironclaw::dispatcher::llm_hooks;
use ironclaw::dispatcher::types::strip_internal_tool_call_text;

#[test]
fn test_strip_internal_tool_call_text_removes_markers() {
    let input = "[Called tool search({\"query\": \"test\"})]\nHere is the answer.";
    let result = strip_internal_tool_call_text(input);
    assert_eq!(result, "Here is the answer.");
}

#[test]
fn test_strip_internal_tool_call_text_removes_returned_markers() {
    let input = "[Tool search returned: some result]\nSummary of findings.";
    let result = strip_internal_tool_call_text(input);
    assert_eq!(result, "Summary of findings.");
}

#[test]
fn test_strip_internal_tool_call_text_all_markers_yields_fallback() {
    let input = "[Called tool search({\"query\": \"test\"})]\n[Tool search returned: error]";
    let result = strip_internal_tool_call_text(input);
    assert!(result.contains("wasn't able to complete"));
}

#[test]
fn test_strip_internal_tool_call_text_preserves_normal_text() {
    let input = "This is a normal response with [brackets] inside.";
    let result = strip_internal_tool_call_text(input);
    assert_eq!(result, input);
}

#[test]
fn test_strip_internal_tool_call_text_all_markers_yields_fallback_snapshot() {
    let input = "[Called tool search({\"query\": \"test\"})]\n[Tool search returned: error]";
    let result = strip_internal_tool_call_text(input);
    assert_eq!(
        result,
        "I wasn't able to complete that request. Could you try rephrasing or providing more details?"
    );
}

#[test]
fn strip_internal_markers_snapshot_markers_only() {
    let input = "[Called tool `x`]\n[Tool `x` returned: ...]";
    let out = strip_internal_tool_call_text(input);
    assert_eq!(
        out,
        "I wasn't able to complete that request. Could you try rephrasing or providing more details?"
    );
}

#[test]
fn strip_removes_bracketed_markers() {
    let text = "before\n[TOOL_CALL:foo]\nafter";
    let stripped = llm_hooks::strip_internal_tool_call_text(text);
    assert!(!stripped.contains("[TOOL_CALL:foo]"));
}

#[test]
fn strip_empty_string_returns_empty() {
    assert_eq!(llm_hooks::strip_internal_tool_call_text(""), "");
}

#[test]
fn strip_plain_text_unchanged() {
    let text = "plain text without internal markers";
    assert_eq!(llm_hooks::strip_internal_tool_call_text(text), text);
}

#[test]
fn strip_keeps_interior_lines_and_handles_crlf() {
    let text = "  first\r\n[Called tool a()]\r\n\r\nsecond  \n";
    assert_eq!(strip_internal_tool_call_text(text), "first\n\nsecond");
}

#[test]
fn strip_skips_newline_before_leading_empty_line() {
    // An empty first line writes nothing, so no newline precedes the next.
    assert_eq!(strip_internal_tool_call_text("\nx"), "x");
}

#[test]
fn strip_types_version_keeps_bracket_markers() {
    assert_eq!(
        strip_internal_tool_call_text("[TOOL_CALL:foo]"),
        "[TOOL_CALL:foo]"
    );
}

#[test]
fn stripping_twice_changes_nothing() {
    let samples = [
        "Here is the answer.\n[Called tool search({\"q\":\"x\"})]\nMore text.",
        "\n\n   \n  indented first line\n\n[Tool search returned: ok]\nlast line   \n\n",
        "[Called tool a()]\n[Tool a returned: 1]",
        "   ",
        "plain",
    ];
    for text in samples {
        let once = strip_internal_tool_call_text(text);
        assert_eq!(strip_internal_tool_call_text(&once), once);
        assert_eq!(once.trim(), once);
        assert!(once.lines().all(|l| !l.trim().starts_with("[Called tool ")));
    }
    assert_eq!(
        strip_internal_tool_call_text("\n\n   \n  indented first line\n\n[Tool search returned: ok]\nlast line   \n\n"),
        "indented first line\n\nlast line"
    );
}
